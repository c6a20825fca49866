//! Style resolution and terminal decoration.
//!
//! Style names are trimmed, compared case-insensitively (the keywords are
//! ASCII, so ASCII case folding is used) and resolved to [`StyleTag`] values.
//! Two policies exist side by side: the strict entry points fail on an
//! unknown name or an empty list, the tolerant path drops unknown names and
//! decorates with whatever remains. The decoration itself — wrapping text in
//! terminal escape sequences — is delegated to the `colored` crate behind
//! trusted wrappers; whether those sequences are emitted at all depends on
//! the environment, so the contracts here promise only that the decorated
//! text still carries the text it was given.

use vstd::prelude::*;

use crate::error::VpnStatusError;
use crate::parser::str_eq;

verus! {

/// A resolved text decoration. `Clear` is a no-op tag: it contributes no
/// decoration.
#[derive(Debug, PartialEq, Eq, Structural, Clone, Copy)]
pub enum StyleTag {
    Clear,
    Bold,
    Dimmed,
    Underline,
    Reversed,
    Italic,
    Blink,
    Hidden,
    Strikethrough,
}

/// The white-space characters recognised when style names are trimmed and
/// split: Unicode's White_Space set.
pub open spec fn is_space(c: char) -> bool {
    let u = c as u32;
    u == 0x09 || u == 0x0A || u == 0x0B || u == 0x0C || u == 0x0D || u == 0x20 || u == 0x85
        || u == 0xA0 || u == 0x1680 || (0x2000 <= u && u <= 0x200A) || u == 0x2028 || u == 0x2029
        || u == 0x202F || u == 0x205F || u == 0x3000
}

fn is_space_char(c: char) -> (r: bool)
    ensures
        r == is_space(c),
{
    let u = c as u32;
    u == 0x09 || u == 0x0A || u == 0x0B || u == 0x0C || u == 0x0D || u == 0x20 || u == 0x85
        || u == 0xA0 || u == 0x1680 || (0x2000 <= u && u <= 0x200A) || u == 0x2028 || u == 0x2029
        || u == 0x202F || u == 0x205F || u == 0x3000
}

/// ASCII lower-casing of one character. The style keywords are ASCII, so
/// this is how style names are compared case-insensitively.
pub open spec fn lower_char(c: char) -> char {
    if 'A' <= c && c <= 'Z' {
        (((c as u8) + 32) as char)
    } else {
        c
    }
}

/// ASCII lower-casing of a whole string.
pub open spec fn lower(s: Seq<char>) -> Seq<char> {
    s.map_values(|c: char| lower_char(c))
}

/// True when the text holds no escape character, and so cannot interfere
/// with the escape sequences that decoration adds around it.
pub open spec fn no_esc(s: Seq<char>) -> bool {
    forall|j: int| 0 <= j < s.len() ==> s[j] != '\u{1b}'
}

/// The string without its leading white-space.
pub open spec fn trim_left(s: Seq<char>) -> Seq<char>
    decreases s.len(),
{
    if s.len() == 0 {
        s
    } else if is_space(s[0]) {
        trim_left(s.drop_first())
    } else {
        s
    }
}

/// The string without its trailing white-space.
pub open spec fn trim_right(s: Seq<char>) -> Seq<char>
    decreases s.len(),
{
    if s.len() == 0 {
        s
    } else if is_space(s.last()) {
        trim_right(s.drop_last())
    } else {
        s
    }
}

/// The string without leading and trailing white-space.
pub open spec fn trimmed(s: Seq<char>) -> Seq<char> {
    trim_right(trim_left(s))
}

proof fn lemma_trim_left_skip(s: Seq<char>, j: int)
    requires
        0 <= j <= s.len(),
        forall|k: int| 0 <= k < j ==> is_space(s[k]),
        j < s.len() ==> !is_space(s[j]),
    ensures
        trim_left(s) == s.subrange(j, s.len() as int),
    decreases j,
{
    if j == 0 {
        assert(s.subrange(0, s.len() as int) =~= s);
    } else {
        let tail = s.drop_first();
        assert(tail =~= s.subrange(1, s.len() as int));
        lemma_trim_left_skip(tail, j - 1);
        assert(tail.subrange(j - 1, tail.len() as int) =~= s.subrange(j, s.len() as int));
    }
}

proof fn lemma_trim_right_take(s: Seq<char>, e: int)
    requires
        0 <= e <= s.len(),
        forall|k: int| e <= k < s.len() ==> is_space(s[k]),
        e > 0 ==> !is_space(s[e - 1]),
    ensures
        trim_right(s) == s.subrange(0, e),
    decreases s.len() - e,
{
    if e == s.len() {
        assert(s.subrange(0, e) =~= s);
    } else {
        let head = s.drop_last();
        assert(head =~= s.subrange(0, s.len() - 1));
        lemma_trim_right_take(head, e);
        assert(head.subrange(0, e) =~= s.subrange(0, e));
    }
}

/// The trimmed string, as a slice of the input.
fn trim_str<'a>(s: &'a str) -> (r: &'a str)
    ensures
        r@ == trimmed(s@),
{
    let n = s.unicode_len();
    let mut start: usize = 0;
    while start < n && is_space_char(s.get_char(start))
        invariant
            n == s@.len(),
            start <= n,
            forall|k: int| 0 <= k < start ==> is_space(s@[k]),
        decreases n - start,
    {
        start += 1;
    }
    let mut end: usize = n;
    while end > start && is_space_char(s.get_char(end - 1))
        invariant
            start <= end <= n,
            n == s@.len(),
            forall|k: int| end <= k < n ==> is_space(s@[k]),
        decreases end,
    {
        end -= 1;
    }
    let r = s.substring_char(start, end);
    proof {
        lemma_trim_left_skip(s@, start as int);
        let t = s@.subrange(start as int, n as int);
        lemma_trim_right_take(t, end - start);
        assert(t.subrange(0, end - start) =~= s@.subrange(start as int, end as int));
    }
    r
}

fn lower_char_of(c: char) -> (r: char)
    ensures
        r == lower_char(c),
{
    if 'A' <= c && c <= 'Z' {
        (((c as u8) + 32) as char)
    } else {
        c
    }
}

/// The string with every ASCII upper-case letter lowered.
fn lower_str(s: &str) -> (r: String)
    ensures
        r@ == lower(s@),
{
    let n = s.unicode_len();
    let mut out = String::new();
    let mut i: usize = 0;
    proof {
        assert(out@ =~= lower(s@).take(0));
    }
    while i < n
        invariant
            n == s@.len(),
            i <= n,
            out@ == lower(s@).take(i as int),
        decreases n - i,
    {
        let c = lower_char_of(s.get_char(i));
        out.push(c);
        proof {
            assert(lower(s@).take(i + 1 as int) =~= lower(s@).take(i as int).push(
                lower_char(s@[i as int]),
            ));
        }
        i += 1;
    }
    proof {
        assert(lower(s@).take(n as int) =~= lower(s@));
    }
    out
}

/// The style tag a lowered, trimmed name resolves to, or nothing for an
/// unknown name.
pub open spec fn tag_of_name(name: Seq<char>) -> Option<StyleTag> {
    if name == "clear"@ {
        Some(StyleTag::Clear)
    } else if name == "bold"@ {
        Some(StyleTag::Bold)
    } else if name == "dimmed"@ {
        Some(StyleTag::Dimmed)
    } else if name == "underline"@ {
        Some(StyleTag::Underline)
    } else if name == "reversed"@ {
        Some(StyleTag::Reversed)
    } else if name == "italic"@ {
        Some(StyleTag::Italic)
    } else if name == "blink"@ {
        Some(StyleTag::Blink)
    } else if name == "hidden"@ {
        Some(StyleTag::Hidden)
    } else if name == "strikethrough"@ {
        Some(StyleTag::Strikethrough)
    } else {
        None
    }
}

fn tag_of_lowered(name: &str) -> (r: Option<StyleTag>)
    ensures
        r == tag_of_name(name@),
{
    if str_eq(name, "clear") {
        Some(StyleTag::Clear)
    } else if str_eq(name, "bold") {
        Some(StyleTag::Bold)
    } else if str_eq(name, "dimmed") {
        Some(StyleTag::Dimmed)
    } else if str_eq(name, "underline") {
        Some(StyleTag::Underline)
    } else if str_eq(name, "reversed") {
        Some(StyleTag::Reversed)
    } else if str_eq(name, "italic") {
        Some(StyleTag::Italic)
    } else if str_eq(name, "blink") {
        Some(StyleTag::Blink)
    } else if str_eq(name, "hidden") {
        Some(StyleTag::Hidden)
    } else if str_eq(name, "strikethrough") {
        Some(StyleTag::Strikethrough)
    } else {
        None
    }
}

/// The tag one style name resolves to after trimming and lower-casing.
pub open spec fn resolved_tag(name: Seq<char>) -> Option<StyleTag> {
    tag_of_name(lower(trimmed(name)))
}

/// Convert a string to a style tag. The name is trimmed and compared
/// case-insensitively; an unknown name is an error.
pub fn style_from_str(src: &str) -> (r: Result<StyleTag, VpnStatusError>)
    ensures
        match resolved_tag(src@) {
            Some(t) => r matches Ok(tt) && tt == t,
            None => r matches Err(e)
                && e matches VpnStatusError::StyleError(m)
                && m@ == "unknown style: "@ + lower(trimmed(src@)),
        },
{
    let t = trim_str(src);
    let low = lower_str(t);
    match tag_of_lowered(low.as_str()) {
        Some(tag) => Ok(tag),
        None => {
            let msg = String::from_str("unknown style: ").concat(low.as_str());
            Err(VpnStatusError::StyleError(msg))
        },
    }
}

/// The tags that a list of style names resolves to under the tolerant
/// policy: unknown names are dropped, known names keep their input order.
pub open spec fn resolved_tags(names: Seq<Seq<char>>) -> Seq<StyleTag>
    decreases names.len(),
{
    if names.len() == 0 {
        Seq::empty()
    } else {
        let rest = resolved_tags(names.drop_last());
        match resolved_tag(names.last()) {
            Some(t) => rest.push(t),
            None => rest,
        }
    }
}

/// Convert a list of strings to style tags, tolerantly: unknown names are
/// dropped. An empty list is an error.
pub fn styles_from_vec(style_values: Vec<&str>) -> (r: Result<Vec<StyleTag>, VpnStatusError>)
    ensures
        style_values@.len() == 0 ==> (r matches Err(e) && e matches VpnStatusError::StyleError(m)
            && m@ == "styles are empty"@),
        style_values@.len() > 0 ==> (r matches Ok(tags) && tags@ == resolved_tags(
            style_values.deep_view(),
        )),
{
    if style_values.len() == 0 {
        return Err(VpnStatusError::StyleError(String::from_str("styles are empty")));
    }
    let ghost names = style_values.deep_view();
    let mut tags: Vec<StyleTag> = Vec::new();
    let mut i: usize = 0;
    proof {
        assert(names.take(0) =~= Seq::<Seq<char>>::empty());
    }
    while i < style_values.len()
        invariant
            names == style_values.deep_view(),
            i <= style_values@.len(),
            tags@ == resolved_tags(names.take(i as int)),
        decreases style_values@.len() - i,
    {
        proof {
            assert(names[i as int] == style_values@[i as int]@);
            assert(names.take(i + 1 as int).drop_last() =~= names.take(i as int));
            assert(names.take(i + 1 as int).last() == names[i as int]);
        }
        match style_from_str(style_values[i]) {
            Ok(tag) => tags.push(tag),
            Err(_) => (),
        }
        i += 1;
    }
    proof {
        assert(names.take(style_values@.len() as int) =~= names);
    }
    Ok(tags)
}

/// One pass over a string from position `i` on, splitting at white-space:
/// `cur` is the word read so far, `out` the words already produced.
pub open spec fn words_acc(s: Seq<char>, i: int, cur: Seq<char>, out: Seq<Seq<char>>) -> Seq<
    Seq<char>,
>
    decreases s.len() - i,
{
    if i < 0 || i >= s.len() {
        if cur.len() == 0 {
            out
        } else {
            out.push(cur)
        }
    } else if is_space(s[i]) {
        if cur.len() == 0 {
            words_acc(s, i + 1, Seq::empty(), out)
        } else {
            words_acc(s, i + 1, Seq::empty(), out.push(cur))
        }
    } else {
        words_acc(s, i + 1, cur.push(s[i]), out)
    }
}

/// The white-space-separated words of a string, in order, without empty
/// pieces.
pub open spec fn words(s: Seq<char>) -> Seq<Seq<char>> {
    words_acc(s, 0, Seq::empty(), Seq::empty())
}

/// The words of a string, as owned copies.
fn split_spaces(s: &str) -> (r: Vec<String>)
    ensures
        r.deep_view() == words(s@),
{
    let n = s.unicode_len();
    let mut out: Vec<String> = Vec::new();
    let mut cur: String = String::new();
    let mut i: usize = 0;
    proof {
        assert(out.deep_view() =~= Seq::<Seq<char>>::empty());
    }
    while i < n
        invariant
            n == s@.len(),
            i <= n,
            words(s@) == words_acc(s@, i as int, cur@, out.deep_view()),
        decreases n - i,
    {
        let ghost sv = s@;
        let ghost i0 = i as int;
        let ghost cur0 = cur@;
        let ghost out0 = out.deep_view();
        let c = s.get_char(i);
        if is_space_char(c) {
            if !cur.as_str().is_empty() {
                out.push(cur);
                cur = String::new();
                proof {
                    assert(out.deep_view() =~= out0.push(cur0));
                    assert(words_acc(sv, i0, cur0, out0) == words_acc(
                        sv,
                        i0 + 1,
                        Seq::empty(),
                        out0.push(cur0),
                    ));
                }
            } else {
                proof {
                    assert(cur0 =~= Seq::<char>::empty());
                    assert(words_acc(sv, i0, cur0, out0) == words_acc(sv, i0 + 1, cur0, out0));
                }
            }
        } else {
            cur.push(c);
            proof {
                assert(words_acc(sv, i0, cur0, out0) == words_acc(sv, i0 + 1, cur0.push(sv[i0]), out0));
            }
        }
        i += 1;
    }
    if !cur.as_str().is_empty() {
        let ghost prev = out.deep_view();
        let ghost cur0 = cur@;
        out.push(cur);
        proof {
            assert(out.deep_view() =~= prev.push(cur0));
        }
    }
    out
}

/// Whether every word names a known style.
pub open spec fn all_known(ws: Seq<Seq<char>>) -> bool {
    forall|j: int| 0 <= j < ws.len() ==> tag_of_name(ws[j]) is Some
}

/// The tags of a word list in which every word names a known style.
pub open spec fn known_tags(ws: Seq<Seq<char>>) -> Seq<StyleTag> {
    ws.map_values(|w: Seq<char>| tag_of_name(w)->Some_0)
}

/// Whether position `j` holds the first word that names no known style.
pub open spec fn first_unknown(ws: Seq<Seq<char>>, j: int) -> bool {
    0 <= j < ws.len() && tag_of_name(ws[j]) is None && (forall|k: int|
        0 <= k < j ==> tag_of_name(ws[k]) is Some)
}

/// Convert a string to style tags, strictly: the string is trimmed,
/// lower-cased and split at white-space; an empty result and an unknown
/// name are errors, and the error names the first unknown word.
pub fn styles_from_str(src: &str) -> (r: Result<Vec<StyleTag>, VpnStatusError>)
    ensures
        ({
            let ws = words(lower(trimmed(src@)));
            &&& ws.len() == 0 ==> (r matches Err(e) && e matches VpnStatusError::StyleError(m)
                && m@ == "style is empty"@)
            &&& ws.len() > 0 && all_known(ws) ==> (r matches Ok(tags) && tags@ == known_tags(ws))
            &&& !all_known(ws) ==> (r matches Err(e) && e matches VpnStatusError::StyleError(m)
                && exists|j: int| #[trigger] first_unknown(ws, j) && m@ == "unknown style: "@ + ws[j])
        }),
{
    let t = trim_str(src);
    let low = lower_str(t);
    let ws = split_spaces(low.as_str());
    let ghost wsv = words(lower(trimmed(src@)));
    if ws.len() == 0 {
        return Err(VpnStatusError::StyleError(String::from_str("style is empty")));
    }
    let mut tags: Vec<StyleTag> = Vec::new();
    let mut i: usize = 0;
    proof {
        assert(tags@ =~= known_tags(wsv.take(0)));
    }
    while i < ws.len()
        invariant
            wsv == words(lower(trimmed(src@))),
            wsv == ws.deep_view(),
            i <= ws@.len(),
            forall|k: int| 0 <= k < i ==> tag_of_name(wsv[k]) is Some,
            tags@ == known_tags(wsv.take(i as int)),
        decreases ws@.len() - i,
    {
        proof {
            assert(wsv[i as int] == ws@[i as int]@);
        }
        match tag_of_lowered(ws[i].as_str()) {
            Some(tag) => {
                tags.push(tag);
                proof {
                    assert(known_tags(wsv.take(i + 1 as int)) =~= known_tags(
                        wsv.take(i as int),
                    ).push(tag_of_name(wsv[i as int])->Some_0));
                }
            },
            None => {
                let msg = String::from_str("unknown style: ").concat(ws[i].as_str());
                proof {
                    assert(first_unknown(wsv, i as int));
                    assert(exists|j: int|
                        #[trigger] first_unknown(wsv, j) && msg@ == "unknown style: "@ + wsv[j]);
                }
                return Err(VpnStatusError::StyleError(msg));
            },
        }
        i += 1;
    }
    proof {
        assert(wsv.take(ws@.len() as int) =~= wsv);
    }
    Ok(tags)
}

#[verifier::external_type_specification]
#[verifier::external_body]
pub struct ExColoredString(colored::ColoredString);

#[verifier::external_type_specification]
#[verifier::external_body]
pub struct ExColor(colored::Color);

/// The plain text that a `ColoredString` carries and decorates. A
/// `ColoredString` is opaque here; this name lets the wrappers below state
/// that building one stores the given text and that decorating keeps it.
pub uninterp spec fn cs_text(cs: colored::ColoredString) -> Seq<char>;

/// Relies on colored's `ColoredString::from`, which stores the given text
/// with no color and no style.
#[verifier::external_body]
fn cs_from(input: String) -> (r: colored::ColoredString)
    ensures
        cs_text(r) == input@,
{
    colored::ColoredString::from(input)
}

/// Relies on colored's `Colorize::bold`, which adds a style flag and keeps
/// the text.
#[verifier::external_body]
fn cs_bold(cs: colored::ColoredString) -> (r: colored::ColoredString)
    ensures
        cs_text(r) == cs_text(cs),
{
    colored::Colorize::bold(cs)
}

/// Relies on colored's `Colorize::dimmed`, which adds a style flag and
/// keeps the text.
#[verifier::external_body]
fn cs_dimmed(cs: colored::ColoredString) -> (r: colored::ColoredString)
    ensures
        cs_text(r) == cs_text(cs),
{
    colored::Colorize::dimmed(cs)
}

/// Relies on colored's `Colorize::underline`, which adds a style flag and
/// keeps the text.
#[verifier::external_body]
fn cs_underline(cs: colored::ColoredString) -> (r: colored::ColoredString)
    ensures
        cs_text(r) == cs_text(cs),
{
    colored::Colorize::underline(cs)
}

/// Relies on colored's `Colorize::reversed`, which adds a style flag and
/// keeps the text.
#[verifier::external_body]
fn cs_reversed(cs: colored::ColoredString) -> (r: colored::ColoredString)
    ensures
        cs_text(r) == cs_text(cs),
{
    colored::Colorize::reversed(cs)
}

/// Relies on colored's `Colorize::italic`, which adds a style flag and
/// keeps the text.
#[verifier::external_body]
fn cs_italic(cs: colored::ColoredString) -> (r: colored::ColoredString)
    ensures
        cs_text(r) == cs_text(cs),
{
    colored::Colorize::italic(cs)
}

/// Relies on colored's `Colorize::blink`, which adds a style flag and
/// keeps the text.
#[verifier::external_body]
fn cs_blink(cs: colored::ColoredString) -> (r: colored::ColoredString)
    ensures
        cs_text(r) == cs_text(cs),
{
    colored::Colorize::blink(cs)
}

/// Relies on colored's `Colorize::hidden`, which adds a style flag and
/// keeps the text.
#[verifier::external_body]
fn cs_hidden(cs: colored::ColoredString) -> (r: colored::ColoredString)
    ensures
        cs_text(r) == cs_text(cs),
{
    colored::Colorize::hidden(cs)
}

/// Relies on colored's `Colorize::strikethrough`, which adds a style flag
/// and keeps the text.
#[verifier::external_body]
fn cs_strikethrough(cs: colored::ColoredString) -> (r: colored::ColoredString)
    ensures
        cs_text(r) == cs_text(cs),
{
    colored::Colorize::strikethrough(cs)
}

/// Relies on colored's `Color::from(&str)`, which resolves a color name;
/// unknown and empty names resolve to a default color. The name must be
/// ASCII: the hex-color path (a name starting with `#`) slices the name at
/// fixed byte offsets after a byte-length test alone, which panics when a
/// multi-byte character sits on one of those offsets. On an ASCII name
/// every byte is a character boundary and no path panics.
#[verifier::external_body]
fn color_by_name(name: &str) -> (r: colored::Color)
    requires
        vstd::string::is_ascii(name),
{
    colored::Color::from(name)
}

/// Relies on colored's `Colorize::color`, which sets the foreground color
/// and keeps the text.
#[verifier::external_body]
fn cs_with_color(cs: colored::ColoredString, c: colored::Color) -> (r: colored::ColoredString)
    ensures
        cs_text(r) == cs_text(cs),
{
    colored::Colorize::color(cs, c)
}

/// Relies on the `Display` implementation of colored's `ColoredString`:
/// when colorization is off the output is the text itself; when it is on,
/// the text is written between a style prefix and a reset suffix, with
/// escape sequences inside the text rewritten. Whether colorization is on
/// depends on the environment, so all that holds of every outcome is: when
/// the text holds no escape character, the output is the text with some
/// prefix and suffix around it.
#[verifier::external_body]
fn cs_render(cs: colored::ColoredString) -> (r: String)
    ensures
        no_esc(cs_text(cs)) ==> exists|pre: Seq<char>, suf: Seq<char>|
            r@ == pre + cs_text(cs) + suf,
{
    cs.to_string()
}

/// One tag applied to a decorated text. Every tag keeps the text, and the
/// `Clear` tag contributes no decoration at all: it returns the decorated
/// text unchanged.
pub fn apply_tag(cs: colored::ColoredString, tag: StyleTag) -> (r: colored::ColoredString)
    ensures
        cs_text(r) == cs_text(cs),
        tag is Clear ==> r == cs,
{
    match tag {
        StyleTag::Clear => cs,
        StyleTag::Bold => cs_bold(cs),
        StyleTag::Dimmed => cs_dimmed(cs),
        StyleTag::Underline => cs_underline(cs),
        StyleTag::Reversed => cs_reversed(cs),
        StyleTag::Italic => cs_italic(cs),
        StyleTag::Blink => cs_blink(cs),
        StyleTag::Hidden => cs_hidden(cs),
        StyleTag::Strikethrough => cs_strikethrough(cs),
    }
}

/// Applies resolved style tags to an input string. The result is a
/// decorated text that still carries the input as its text.
pub fn style(input: String, styles: Vec<StyleTag>) -> (r: colored::ColoredString)
    ensures
        cs_text(r) == input@,
{
    let mut cs = cs_from(input);
    let mut i: usize = 0;
    while i < styles.len()
        invariant
            cs_text(cs) == input@,
        decreases styles@.len() - i,
    {
        cs = apply_tag(cs, styles[i]);
        i += 1;
    }
    cs
}

/// Applies a style and color to an input string: the style names are
/// resolved tolerantly (unknown names are dropped, an empty list applies
/// no tags), the color name tolerantly too (an unknown color becomes a
/// default color, and a name holding a non-ASCII character names no color
/// and applies none — the one resolution the color collaborator cannot be
/// given safely). Whether the decoration is emitted depends on the
/// environment; the output always carries the input text, provided the
/// input holds no escape character of its own.
pub fn apply_style(input: String, styles: Vec<String>, color: &str) -> (r: String)
    ensures
        no_esc(input@) ==> exists|pre: Seq<char>, suf: Seq<char>| r@ == pre + input@ + suf,
{
    let mut refs: Vec<&str> = Vec::new();
    let mut i: usize = 0;
    while i < styles.len()
        decreases styles@.len() - i,
    {
        refs.push(styles[i].as_str());
        i += 1;
    }
    let tags = match styles_from_vec(refs) {
        Ok(t) => t,
        Err(_) => Vec::new(),
    };
    let cs = style(input, tags);
    let colored_cs = if color.is_ascii() {
        cs_with_color(cs, color_by_name(color))
    } else {
        cs
    };
    cs_render(colored_cs)
}

} // verus!
