use vpn_status_lib::args::Args;
use vpn_status_lib::config::{get, Config, StyleConfig};

fn empty_args() -> Args {
    Args {
        no_style: false,
        open_config: false,
        enabled_string: None,
        enabled_color: None,
        disabled_string: None,
        disabled_color: None,
        offline_string: None,
        split_tunnel_string: None,
        split_tunnel_color: None,
        output_format: None,
        config_path: None,
        lookup: false,
    }
}

#[test]
fn default_config_values() {
    let c = Config::default();
    assert_eq!(c.enabled_string, Some("enabled".to_string()));
    assert_eq!(c.disabled_string, Some("disabled".to_string()));
    assert_eq!(c.offline_string, Some("offline".to_string()));
    assert_eq!(c.enabled_style.unwrap().color, "green");
    assert_eq!(c.disabled_style.unwrap().color, "red");
    assert_eq!(c.lookup, Some(false));
    assert!(c.output_format.is_none());
}

#[test]
fn style_config_new() {
    let st = StyleConfig::new("blue");
    assert_eq!(st.color, "blue");
    assert!(st.format.is_none());
}

#[test]
fn get_without_file_uses_defaults() {
    let c = get(empty_args(), None);
    assert_eq!(c.enabled_string, Some("enabled".to_string()));
    assert_eq!(c.disabled_string, Some("disabled".to_string()));
    assert_eq!(c.lookup, Some(false));
}

#[test]
fn get_overrides_strings_and_colors() {
    let mut args = empty_args();
    args.enabled_string = Some("active".to_string());
    args.enabled_color = Some("blue".to_string());
    args.disabled_string = Some("inactive".to_string());
    args.disabled_color = Some("yellow".to_string());
    let c = get(args, None);
    assert_eq!(c.enabled_string, Some("active".to_string()));
    assert_eq!(c.enabled_style.clone().unwrap().color, "blue");
    assert_eq!(c.disabled_string, Some("inactive".to_string()));
    assert_eq!(c.disabled_style.clone().unwrap().color, "yellow");
}

#[test]
fn get_keeps_file_values_without_overrides() {
    let mut file = Config::default();
    file.enabled_string = Some("up".to_string());
    file.output_format = Some("{status}!".to_string());
    let c = get(empty_args(), Some(file));
    assert_eq!(c.enabled_string, Some("up".to_string()));
    assert_eq!(c.output_format, Some("{status}!".to_string()));
}

#[test]
fn get_color_override_makes_style_when_absent() {
    let mut file = Config::default();
    file.enabled_style = None;
    let mut args = empty_args();
    args.enabled_color = Some("cyan".to_string());
    let c = get(args, Some(file));
    let st = c.enabled_style.unwrap();
    assert_eq!(st.color, "cyan");
    assert!(st.format.is_none());
}

#[test]
fn get_color_override_keeps_style_names() {
    let mut file = Config::default();
    file.enabled_style = Some(StyleConfig {
        color: "green".to_string(),
        format: Some(vec!["bold".to_string()]),
    });
    let mut args = empty_args();
    args.enabled_color = Some("magenta".to_string());
    let c = get(args, Some(file));
    let st = c.enabled_style.unwrap();
    assert_eq!(st.color, "magenta");
    assert_eq!(st.format, Some(vec!["bold".to_string()]));
}

#[test]
fn get_lookup_flag_wins() {
    let mut args = empty_args();
    args.lookup = true;
    let c = get(args, None);
    assert_eq!(c.lookup, Some(true));
    // without the flag the file value stays
    let mut file = Config::default();
    file.lookup = Some(true);
    let c = get(empty_args(), Some(file));
    assert_eq!(c.lookup, Some(true));
}
