//! The template parser and renderer.
//!
//! A format string is split at every `{` and `}`; the brace characters are
//! never part of the output. Every non-empty piece between delimiters becomes
//! one token: the keywords `status`, `ip`, `city` and `country` become the
//! corresponding placeholder token, anything else becomes a literal. Empty
//! pieces are dropped, so parsing never fails, whatever the nesting of the
//! braces.
//!
//! Rendering concatenates, in token order, the literal texts and the resolved
//! placeholder texts; placeholders whose data source was not computed resolve
//! to the empty string.

use vstd::prelude::*;

use crate::styles;

verus! {

/// A parsed unit of a format template: a named placeholder or literal text.
#[derive(Debug, PartialEq)]
pub enum Syntax {
    Status,
    Ip,
    City,
    Country,
    Literal(String),
}

/// The mathematical model of a token: literal text is a sequence of
/// characters.
pub ghost enum Token {
    Status,
    Ip,
    City,
    Country,
    Literal(Seq<char>),
}

impl View for Syntax {
    type V = Token;

    open spec fn view(&self) -> Token {
        match self {
            Syntax::Status => Token::Status,
            Syntax::Ip => Token::Ip,
            Syntax::City => Token::City,
            Syntax::Country => Token::Country,
            Syntax::Literal(s) => Token::Literal(s@),
        }
    }
}

impl DeepView for Syntax {
    type V = Token;

    open spec fn deep_view(&self) -> Token {
        self.view()
    }
}

/// The two delimiter characters of the template syntax.
pub open spec fn is_delim(c: char) -> bool {
    c == '{' || c == '}'
}

/// The token that one piece of the format string stands for: a keyword
/// becomes its placeholder, any other text a literal.
pub open spec fn token_of(seg: Seq<char>) -> Token {
    if seg == "status"@ {
        Token::Status
    } else if seg == "ip"@ {
        Token::Ip
    } else if seg == "city"@ {
        Token::City
    } else if seg == "country"@ {
        Token::Country
    } else {
        Token::Literal(seg)
    }
}

/// Whether a piece of the format string names a placeholder keyword.
pub open spec fn is_keyword(seg: Seq<char>) -> bool {
    !(token_of(seg) is Literal)
}

/// One pass over the format string from position `i` on: `cur` is the piece
/// read since the last delimiter, `out` the tokens already produced.
pub open spec fn parse_acc(s: Seq<char>, i: int, cur: Seq<char>, out: Seq<Token>) -> Seq<Token>
    decreases s.len() - i,
{
    if i < 0 || i >= s.len() {
        if cur.len() == 0 {
            out
        } else {
            out.push(token_of(cur))
        }
    } else if is_delim(s[i]) {
        if cur.len() == 0 {
            parse_acc(s, i + 1, Seq::empty(), out)
        } else {
            parse_acc(s, i + 1, Seq::empty(), out.push(token_of(cur)))
        }
    } else {
        parse_acc(s, i + 1, cur.push(s[i]), out)
    }
}

/// The tokens of a format string: the string is split at every `{` or `}`,
/// empty pieces are dropped, and each remaining piece becomes the keyword
/// token it names, or a literal.
pub open spec fn parse_spec(s: Seq<char>) -> Seq<Token> {
    parse_acc(s, 0, Seq::empty(), Seq::empty())
}

impl Syntax {
    /// The token that one piece of the format string turns into. Keywords
    /// become placeholders; all other text, a literal.
    pub fn from_str(s: &str) -> (r: Syntax)
        ensures
            r@ == token_of(s@),
    {
        if str_eq(s, "status") {
            Syntax::Status
        } else if str_eq(s, "ip") {
            Syntax::Ip
        } else if str_eq(s, "city") {
            Syntax::City
        } else if str_eq(s, "country") {
            Syntax::Country
        } else {
            Syntax::Literal(s.to_owned())
        }
    }
}

/// Character-wise string comparison, through owned copies.
pub(crate) fn str_eq(a: &str, b: &str) -> (r: bool)
    ensures
        r == (a@ == b@),
{
    let x: String = a.to_owned();
    let y: String = b.to_owned();
    x == y
}

/// Relies on `String::push`: appends the character to the end of the string.
pub assume_specification[ String::push ](s: &mut String, c: char)
    ensures
        final(s)@ == old(s)@.push(c),
;

/// Parse a format string into syntax tokens.
pub fn parse(format: &str) -> (r: Vec<Syntax>)
    ensures
        r.deep_view() == parse_spec(format@),
{
    let n = format.unicode_len();
    let mut out: Vec<Syntax> = Vec::new();
    let mut cur: String = String::new();
    let mut i: usize = 0;
    proof {
        assert(out.deep_view() =~= Seq::<Token>::empty());
    }
    while i < n
        invariant
            n == format@.len(),
            i <= n,
            parse_spec(format@) == parse_acc(format@, i as int, cur@, out.deep_view()),
        decreases n - i,
    {
        let ghost s = format@;
        let ghost i0 = i as int;
        let ghost cur0 = cur@;
        let ghost out0 = out.deep_view();
        let c = format.get_char(i);
        if c == '{' || c == '}' {
            if !cur.as_str().is_empty() {
                let tok = Syntax::from_str(cur.as_str());
                out.push(tok);
                cur = String::new();
                proof {
                    assert(out.deep_view() =~= out0.push(token_of(cur0)));
                    assert(parse_acc(s, i0, cur0, out0) == parse_acc(
                        s,
                        i0 + 1,
                        Seq::empty(),
                        out0.push(token_of(cur0)),
                    ));
                }
            } else {
                proof {
                    assert(cur0 =~= Seq::<char>::empty());
                    assert(parse_acc(s, i0, cur0, out0) == parse_acc(s, i0 + 1, cur0, out0));
                }
            }
        } else {
            cur.push(c);
            proof {
                assert(parse_acc(s, i0, cur0, out0) == parse_acc(s, i0 + 1, cur0.push(s[i0]), out0));
            }
        }
        i += 1;
    }
    if !cur.as_str().is_empty() {
        let ghost prev = out.deep_view();
        let tok = Syntax::from_str(cur.as_str());
        out.push(tok);
        proof {
            assert(out.deep_view() =~= prev.push(token_of(cur@)));
        }
    }
    out
}

/// Lookup struct: resolved text for the ip, city and country placeholders.
#[derive(Debug, PartialEq, Clone)]
pub struct Lookup {
    pub ip: String,
    pub city: String,
    pub country: String,
}

/// The model of a lookup result: the three placeholder texts.
pub ghost struct LookupText {
    pub ip: Seq<char>,
    pub city: Seq<char>,
    pub country: Seq<char>,
}

impl View for Lookup {
    type V = LookupText;

    open spec fn view(&self) -> LookupText {
        LookupText { ip: self.ip@, city: self.city@, country: self.country@ }
    }
}

/// The lookup texts when no lookup was performed: placeholders resolve to
/// the empty string.
pub open spec fn empty_lookup() -> LookupText {
    LookupText { ip: Seq::empty(), city: Seq::empty(), country: Seq::empty() }
}

/// The placeholder texts of an optional lookup result.
pub open spec fn lookup_text(lk: Option<Lookup>) -> LookupText {
    match lk {
        Some(l) => l@,
        None => empty_lookup(),
    }
}

impl Default for Lookup {
    /// A lookup result whose fields are all empty.
    fn default() -> (r: Self)
        ensures
            r@ == empty_lookup(),
    {
        Lookup { ip: String::new(), city: String::new(), country: String::new() }
    }
}

/// The text one token contributes to the rendered output.
pub open spec fn seg_text(t: Token, status: Seq<char>, lk: LookupText) -> Seq<char> {
    match t {
        Token::Status => status,
        Token::Ip => lk.ip,
        Token::City => lk.city,
        Token::Country => lk.country,
        Token::Literal(s) => s,
    }
}

/// The concatenation of the texts of the first `n` tokens.
pub open spec fn render_upto(ts: Seq<Token>, status: Seq<char>, lk: LookupText, n: int) -> Seq<
    char,
>
    decreases n,
{
    if n <= 0 {
        Seq::empty()
    } else {
        render_upto(ts, status, lk, n - 1) + seg_text(ts[n - 1], status, lk)
    }
}

/// The rendered output: the concatenation, in token order, of literal text
/// and of the resolved placeholder texts.
pub open spec fn render_spec(ts: Seq<Token>, status: Seq<char>, lk: LookupText) -> Seq<char> {
    render_upto(ts, status, lk, ts.len() as int)
}

/// Constructs an output string with given format.
pub fn make_output(input: Vec<Syntax>, status: &str, lookup: Option<Lookup>) -> (r: String)
    ensures
        r@ == render_spec(input.deep_view(), status@, lookup_text(lookup)),
{
    let ghost ts = input.deep_view();
    let ghost lkt = lookup_text(lookup);
    let mut output = String::new();
    let resolved = match lookup {
        Some(l) => l,
        None => Lookup::default(),
    };
    let mut i: usize = 0;
    proof {
        assert(output@ =~= render_upto(ts, status@, lkt, 0));
    }
    while i < input.len()
        invariant
            ts == input.deep_view(),
            lkt == resolved@,
            i <= input.len(),
            output@ == render_upto(ts, status@, lkt, i as int),
        decreases input.len() - i,
    {
        proof {
            assert(ts[i as int] == input@[i as int]@);
        }
        match &input[i] {
            Syntax::Status => output.append(status),
            Syntax::Ip => output.append(resolved.ip.as_str()),
            Syntax::City => output.append(resolved.city.as_str()),
            Syntax::Country => output.append(resolved.country.as_str()),
            Syntax::Literal(s) => output.append(s.as_str()),
        }
        i += 1;
    }
    output
}

/// Whether `dec` can be the decorated form of `orig`: when `orig` holds no
/// escape character, `dec` is `orig` with some prefix and suffix around it.
pub open spec fn decorated_ok(orig: Seq<char>, dec: Seq<char>) -> bool {
    styles::no_esc(orig) ==> exists|pre: Seq<char>, suf: Seq<char>| dec == pre + orig + suf
}

/// The concatenation of the texts of the first `n` tokens, each literal
/// token contributing its decorated text `decs[i]` in place of the literal
/// itself.
pub open spec fn styled_upto(
    ts: Seq<Token>,
    status: Seq<char>,
    lk: LookupText,
    decs: Seq<Seq<char>>,
    n: int,
) -> Seq<char>
    decreases n,
{
    if n <= 0 {
        Seq::empty()
    } else {
        styled_upto(ts, status, lk, decs, n - 1) + (match ts[n - 1] {
            Token::Literal(_) => decs[n - 1],
            t => seg_text(t, status, lk),
        })
    }
}

proof fn lemma_styled_upto_push(
    ts: Seq<Token>,
    status: Seq<char>,
    lk: LookupText,
    decs: Seq<Seq<char>>,
    d: Seq<char>,
    n: int,
)
    requires
        n <= decs.len(),
    ensures
        styled_upto(ts, status, lk, decs.push(d), n) == styled_upto(ts, status, lk, decs, n),
    decreases n,
{
    if n > 0 {
        lemma_styled_upto_push(ts, status, lk, decs, d, n - 1);
    }
}

/// An owned copy of a list of strings, equal element by element.
pub(crate) fn clone_strings(v: &Vec<String>) -> (r: Vec<String>)
    ensures
        r@ == v@,
{
    let mut r: Vec<String> = Vec::new();
    let mut i: usize = 0;
    while i < v.len()
        invariant
            i <= v@.len(),
            r@ == v@.take(i as int),
        decreases v@.len() - i,
    {
        let s = v[i].clone();
        r.push(s);
        proof {
            assert(v@.take(i + 1 as int) =~= v@.take(i as int).push(v@[i as int]));
        }
        i += 1;
    }
    proof {
        assert(v@.take(v@.len() as int) =~= v@);
    }
    r
}

/// Whether `out` is an acceptable styled rendering of the tokens: the
/// concatenation, in token order, of the resolved placeholder texts and of
/// a decorated form of each literal.
pub open spec fn styled_render_ok(
    ts: Seq<Token>,
    status: Seq<char>,
    lk: LookupText,
    out: Seq<char>,
) -> bool {
    exists|decs: Seq<Seq<char>>|
        #![auto]
        decs.len() == ts.len() && (forall|j: int|
            0 <= j < decs.len() && ts[j] is Literal ==> decorated_ok(ts[j]->Literal_0, decs[j]))
            && out == styled_upto(ts, status, lk, decs, decs.len() as int)
}

/// Constructs an output string with given format, where the literal pieces
/// are styled: each literal is individually decorated with the given style
/// names and color; placeholder texts are substituted as the caller
/// resolved them.
pub fn make_output_styled(
    input: Vec<Syntax>,
    status: &str,
    lookup: Option<Lookup>,
    style: Vec<String>,
    color: &str,
) -> (r: String)
    ensures
        styled_render_ok(input.deep_view(), status@, lookup_text(lookup), r@),
{
    let ghost ts = input.deep_view();
    let ghost lkt = lookup_text(lookup);
    let mut output = String::new();
    let resolved = match lookup {
        Some(l) => l,
        None => Lookup::default(),
    };
    let ghost mut decs: Seq<Seq<char>> = Seq::empty();
    let mut i: usize = 0;
    proof {
        assert(output@ =~= styled_upto(ts, status@, lkt, decs, 0));
    }
    while i < input.len()
        invariant
            ts == input.deep_view(),
            lkt == resolved@,
            i <= input@.len(),
            decs.len() == i as int,
            forall|j: int|
                0 <= j < i as int && ts[j] is Literal ==> decorated_ok(ts[j]->Literal_0, decs[j]),
            output@ == styled_upto(ts, status@, lkt, decs, i as int),
        decreases input@.len() - i,
    {
        proof {
            assert(ts[i as int] == input@[i as int]@);
        }
        let ghost decs0 = decs;
        match &input[i] {
            Syntax::Status => {
                output.append(status);
                proof {
                    decs = decs.push(status@);
                }
            },
            Syntax::Ip => {
                output.append(resolved.ip.as_str());
                proof {
                    decs = decs.push(resolved.ip@);
                }
            },
            Syntax::City => {
                output.append(resolved.city.as_str());
                proof {
                    decs = decs.push(resolved.city@);
                }
            },
            Syntax::Country => {
                output.append(resolved.country.as_str());
                proof {
                    decs = decs.push(resolved.country@);
                }
            },
            Syntax::Literal(s) => {
                let styled_text = styles::apply_style(s.clone(), clone_strings(&style), color);
                output.append(styled_text.as_str());
                proof {
                    decs = decs.push(styled_text@);
                }
            },
        }
        proof {
            lemma_styled_upto_push(ts, status@, lkt, decs0, decs[i as int], i as int);
        }
        i += 1;
    }
    proof {
        assert(decs.len() == ts.len() && (forall|j: int|
            0 <= j < decs.len() && ts[j] is Literal ==> decorated_ok(ts[j]->Literal_0, decs[j]))
            && output@ == styled_upto(ts, status@, lkt, decs, decs.len() as int));
        assert(styled_render_ok(ts, status@, lkt, output@));
    }
    output
}

/// Rendering is a pure function of the tokens, the status text and the
/// lookup texts: two renderings of the same inputs are identical. There is
/// no hidden state.
pub proof fn lemma_render_deterministic(
    ts: Seq<Token>,
    status: Seq<char>,
    lk: LookupText,
    r1: Seq<char>,
    r2: Seq<char>,
)
    requires
        r1 == render_spec(ts, status, lk),
        r2 == render_spec(ts, status, lk),
    ensures
        r1 == r2,
{
}

/// The literal texts of a token sequence, concatenated in order.
pub open spec fn literal_concat(ts: Seq<Token>) -> Seq<char>
    decreases ts.len(),
{
    if ts.len() == 0 {
        Seq::empty()
    } else {
        literal_concat(ts.drop_last()) + (match ts.last() {
            Token::Literal(s) => s,
            _ => Seq::empty(),
        })
    }
}

/// One pass over the format string from position `i` on, keeping the
/// characters rather than the tokens: `cur` is the piece read since the
/// last delimiter, `out` the text already kept. Keyword pieces are dropped,
/// delimiters are never kept.
pub open spec fn strip_acc(s: Seq<char>, i: int, cur: Seq<char>, out: Seq<char>) -> Seq<char>
    decreases s.len() - i,
{
    if i < 0 || i >= s.len() {
        if cur.len() == 0 || is_keyword(cur) {
            out
        } else {
            out + cur
        }
    } else if is_delim(s[i]) {
        if cur.len() == 0 || is_keyword(cur) {
            strip_acc(s, i + 1, Seq::empty(), out)
        } else {
            strip_acc(s, i + 1, Seq::empty(), out + cur)
        }
    } else {
        strip_acc(s, i + 1, cur.push(s[i]), out)
    }
}

/// The format string with the braces stripped and the keyword pieces
/// removed: exactly the text that survives parsing as literals.
pub open spec fn stripped(s: Seq<char>) -> Seq<char> {
    strip_acc(s, 0, Seq::empty(), Seq::empty())
}

proof fn lemma_parse_strip_acc(s: Seq<char>, i: int, cur: Seq<char>, out: Seq<Token>, sout: Seq<
    char,
>)
    requires
        literal_concat(out) == sout,
    ensures
        literal_concat(parse_acc(s, i, cur, out)) == strip_acc(s, i, cur, sout),
    decreases s.len() - i,
{
    if i < 0 || i >= s.len() {
        if cur.len() == 0 {
        } else {
            assert(out.push(token_of(cur)).drop_last() =~= out);
            if is_keyword(cur) {
                assert(sout + Seq::<char>::empty() =~= sout);
            } else {
                assert(token_of(cur) == Token::Literal(cur));
            }
        }
    } else if is_delim(s[i]) {
        if cur.len() == 0 {
            lemma_parse_strip_acc(s, i + 1, Seq::empty(), out, sout);
        } else {
            assert(out.push(token_of(cur)).drop_last() =~= out);
            if is_keyword(cur) {
                assert(literal_concat(out.push(token_of(cur))) =~= sout);
                lemma_parse_strip_acc(s, i + 1, Seq::empty(), out.push(token_of(cur)), sout);
            } else {
                assert(token_of(cur) == Token::Literal(cur));
                assert(literal_concat(out.push(token_of(cur))) == sout + cur);
                lemma_parse_strip_acc(s, i + 1, Seq::empty(), out.push(token_of(cur)), sout + cur);
            }
        }
    } else {
        lemma_parse_strip_acc(s, i + 1, cur.push(s[i]), out, sout);
    }
}

/// Concatenating the literal texts of the parsed tokens reproduces the
/// format string with the braces stripped and the keyword pieces removed.
/// In particular, parsing loses nothing but delimiters and keywords.
pub proof fn lemma_parse_literal_reconstruction(s: Seq<char>)
    ensures
        literal_concat(parse_spec(s)) == stripped(s),
{
    lemma_parse_strip_acc(s, 0, Seq::empty(), Seq::empty(), Seq::empty());
}

} // verus!
