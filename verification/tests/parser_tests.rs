use vpn_status_lib::config::Config;
use vpn_status_lib::parser::{make_output, parse, Lookup, Syntax};
use vpn_status_lib::{status_string, VpnStatus};

#[test]
fn parse_status_with_text() {
    let format = "VPN is {status}.";
    let expected_tokens = vec![
        Syntax::Literal("VPN is ".to_string()),
        Syntax::Status,
        Syntax::Literal(".".to_string()),
    ];
    let tokens = parse(format);
    assert_eq!(tokens, expected_tokens);
    let status = "enabled";
    let out = make_output(tokens, status, None);
    assert_eq!(out, format!("VPN is {status}."));
}

#[test]
fn parser_parse_status_with_text() {
    let format = "VPN is {status}.";
    let expected_tokens = vec![
        Syntax::Literal("VPN is ".to_string()),
        Syntax::Status,
        Syntax::Literal(".".to_string()),
    ];
    let tokens = parse(format);
    assert_eq!(tokens, expected_tokens);
    let status = "enabled";
    let out = make_output(tokens, status, None);
    assert_eq!(out, format!("VPN is {status}."));
}

#[test]
fn parse_status_with_lookup() {
    let format = "VPN is {status}. From: {city}, {country}.";
    let expected_tokens = vec![
        Syntax::Literal("VPN is ".to_string()),
        Syntax::Status,
        Syntax::Literal(". From: ".to_string()),
        Syntax::City,
        Syntax::Literal(", ".to_string()),
        Syntax::Country,
        Syntax::Literal(".".to_string()),
    ];

    let lookup = Lookup {
        ip: "1.1.1.1".to_string(),
        city: "City".to_string(),
        country: "Country".to_string(),
    };

    let tokens = parse(format);
    assert_eq!(tokens, expected_tokens);
    let status = "enabled";
    let out = make_output(tokens, status, Some(lookup.clone()));
    assert_eq!(
        out,
        format!("VPN is {status}. From: {}, {}.", lookup.city, lookup.country)
    );
}

#[test]
fn parse_status_only() {
    let format = "{status}";
    let expected_tokens = vec![Syntax::Status];
    let tokens = parse(format);
    assert_eq!(tokens, expected_tokens);
    let status = "enabled";
    let out = make_output(tokens, status, None);
    assert_eq!(out, format!("{status}"));
}

#[test]
fn parser_parse_status_only() {
    let format = "{status}";
    let expected_tokens = vec![Syntax::Status];
    let tokens = parse(format);
    assert_eq!(tokens, expected_tokens);
    let status = "enabled";
    let out = make_output(tokens, status, None);
    assert_eq!(out, format!("{status}"));
}

#[test]
fn parse_bad() {
    let format = "{}{unknown}";
    let expected_tokens = vec![Syntax::Literal("unknown".to_string())];
    let tokens = parse(format);
    assert_eq!(tokens, expected_tokens);
    let out = make_output(tokens, "", None);
    assert_eq!(out, String::from("unknown"));
}

#[test]
fn parser_parse_bad() {
    let format = "{}{unknown}";
    let expected_tokens = vec![Syntax::Literal("unknown".to_string())];
    let tokens = parse(format);
    assert_eq!(tokens, expected_tokens);
    let out = make_output(tokens, "", None);
    assert_eq!(out, String::from("unknown"));
}

#[test]
fn parse_empty() {
    let format = "{}";
    let expected_tokens = vec![];
    let tokens = parse(format);
    assert_eq!(tokens, expected_tokens);
}

#[test]
fn parser_parse_empty() {
    let format = "{}";
    let expected_tokens = vec![];
    let tokens = parse(format);
    assert_eq!(tokens, expected_tokens);
}

#[test]
fn parse_empty_string() {
    let tokens = parse("");
    assert_eq!(tokens, vec![]);
}

#[test]
fn parse_unbalanced_braces() {
    // unbalanced braces never fail: delimiters just split the text
    let tokens = parse("{{a}}b{");
    assert_eq!(
        tokens,
        vec![
            Syntax::Literal("a".to_string()),
            Syntax::Literal("b".to_string()),
        ]
    );
    let out = make_output(parse("{{a}}b{"), "ignored", None);
    assert_eq!(out, "ab");
}

#[test]
fn parse_keyword_without_braces() {
    // splitting loses the braces, so a bare keyword still parses as one
    let tokens = parse("status");
    assert_eq!(tokens, vec![Syntax::Status]);
}

#[test]
fn render_repeated_tokens_in_order() {
    let tokens = parse("{status}{status} and {ip}");
    let lookup = Lookup {
        ip: "10.0.0.1".to_string(),
        city: String::new(),
        country: String::new(),
    };
    let out = make_output(tokens, "on", Some(lookup));
    assert_eq!(out, "onon and 10.0.0.1");
}

#[test]
fn render_missing_lookup_is_empty() {
    let tokens = parse("[{ip}|{city}|{country}]");
    let out = make_output(tokens, "x", None);
    assert_eq!(out, "[||]");
}

#[test]
fn render_twice_same_output() {
    // rendering has no hidden state: the same inputs render alike
    let lookup = Lookup {
        ip: "1.2.3.4".to_string(),
        city: "C".to_string(),
        country: "CC".to_string(),
    };
    let out1 = make_output(parse("{status} {city}"), "on", Some(lookup.clone()));
    let out2 = make_output(parse("{status} {city}"), "on", Some(lookup));
    assert_eq!(out1, out2);
}

#[test]
fn literals_reconstruct_stripped_input() {
    // concatenating the literal texts reproduces the input with braces
    // stripped and keyword pieces removed
    let cases = [
        ("a{status}b{xyz}c", "abxyzc"),
        ("{status}{ip}{city}{country}", ""),
        ("no braces at all", "no braces at all"),
        ("{}{}{}", ""),
        ("}{backwards}{", "backwards"),
    ];
    for (format, stripped) in cases {
        let literals: String = parse(format)
            .into_iter()
            .filter_map(|t| match t {
                Syntax::Literal(s) => Some(s),
                _ => None,
            })
            .collect();
        assert_eq!(literals, stripped, "format: {format}");
    }
}

#[test]
fn rendering_pipeline_is_repeatable() {
    let config = Config::default;
    let out1 = status_string(config(), true, VpnStatus::Enabled, None);
    let out2 = status_string(config(), true, VpnStatus::Enabled, None);
    assert_eq!(out1, out2);
}
