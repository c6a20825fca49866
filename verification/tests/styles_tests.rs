use vpn_status_lib::styles::{style_from_str, styles_from_str, styles_from_vec, StyleTag};

#[test]
fn convert() {
    let bold = style_from_str("bold").unwrap();
    assert_eq!(bold, StyleTag::Bold);
    let clear = style_from_str("clear").unwrap();
    assert_eq!(clear, StyleTag::Clear);
    let dimmed = style_from_str("dimmed").unwrap();
    assert_eq!(dimmed, StyleTag::Dimmed);
    let underline = style_from_str("underline").unwrap();
    assert_eq!(underline, StyleTag::Underline);
    let reversed = style_from_str("reversed").unwrap();
    assert_eq!(reversed, StyleTag::Reversed);
    let italic = style_from_str("italic").unwrap();
    assert_eq!(italic, StyleTag::Italic);
    let blink = style_from_str("blink").unwrap();
    assert_eq!(blink, StyleTag::Blink);
    let hidden = style_from_str("hidden").unwrap();
    assert_eq!(hidden, StyleTag::Hidden);
    let strikethrough = style_from_str("strikethrough").unwrap();
    assert_eq!(strikethrough, StyleTag::Strikethrough);
}

#[test]
fn styles_convert() {
    let bold = styles_from_str("bold").unwrap();
    let bold = bold.first().unwrap();
    assert_eq!(*bold, StyleTag::Bold);
    let clear = styles_from_str("clear").unwrap();
    let clear = clear.first().unwrap();
    assert_eq!(*clear, StyleTag::Clear);
    let dimmed = styles_from_str("dimmed").unwrap();
    let dimmed = dimmed.first().unwrap();
    assert_eq!(*dimmed, StyleTag::Dimmed);
    let underline = styles_from_str("underline").unwrap();
    let underline = underline.first().unwrap();
    assert_eq!(*underline, StyleTag::Underline);
    let reversed = styles_from_str("reversed").unwrap();
    let reversed = reversed.first().unwrap();
    assert_eq!(*reversed, StyleTag::Reversed);
    let italic = styles_from_str("italic").unwrap();
    let italic = italic.first().unwrap();
    assert_eq!(*italic, StyleTag::Italic);
    let blink = styles_from_str("blink").unwrap();
    let blink = blink.first().unwrap();
    assert_eq!(*blink, StyleTag::Blink);
    let hidden = styles_from_str("hidden").unwrap();
    let hidden = hidden.first().unwrap();
    assert_eq!(*hidden, StyleTag::Hidden);
    let strikethrough = styles_from_str("strikethrough").unwrap();
    let strikethrough = strikethrough.first().unwrap();
    assert_eq!(*strikethrough, StyleTag::Strikethrough);
}

#[test]
fn convert_multiple() {
    let styles = styles_from_vec(vec!["bold", "underline"]).unwrap();
    assert_eq!(styles.len(), 2);
    let bold = styles.first().unwrap();
    assert_eq!(*bold, StyleTag::Bold);
    let underline = styles.last().unwrap();
    assert_eq!(*underline, StyleTag::Underline);
}

#[test]
fn styles_convert_multiple() {
    let styles = styles_from_str("bold underline").unwrap();
    assert_eq!(styles.len(), 2);
    let bold = styles.first().unwrap();
    assert_eq!(*bold, StyleTag::Bold);
    let underline = styles.last().unwrap();
    assert_eq!(*underline, StyleTag::Underline);
}

#[test]
fn error() {
    let result = style_from_str("unknown");
    assert!(result.is_err(), "expected an error");
}

#[test]
fn styles_error() {
    let result = styles_from_str("unknown");
    assert!(result.is_err(), "expected an error");
}

#[test]
fn style_names_are_trimmed_and_case_insensitive() {
    assert_eq!(style_from_str("  BOLD  ").unwrap(), StyleTag::Bold);
    assert_eq!(style_from_str("Underline").unwrap(), StyleTag::Underline);
}

#[test]
fn strict_empty_is_an_error() {
    assert!(styles_from_str("").is_err());
    assert!(styles_from_str("   ").is_err());
}

#[test]
fn tolerant_empty_list_is_an_error() {
    assert!(styles_from_vec(vec![]).is_err());
}

#[test]
fn tolerant_unknown_names_are_dropped() {
    let tags = styles_from_vec(vec!["unknown"]).unwrap();
    assert_eq!(tags.len(), 0);
    let tags = styles_from_vec(vec!["sparkle", "bold", "wavy"]).unwrap();
    assert_eq!(tags, vec![StyleTag::Bold]);
}

#[test]
fn strict_unknown_name_is_an_error() {
    let result = styles_from_str("bold wavy");
    assert!(result.is_err());
}
