//! The user configuration of the rendering pipeline, and the merging of
//! command-line overrides into it.
//!
//! A [`Config`] is an immutable input to a render call: per-status display
//! strings and styles, the output format template, and the lookup settings.
//! Loading it from disk and parsing command-line arguments are the caller's
//! concern; [`get`] merges an already-parsed argument set over an optionally
//! loaded file configuration.

use vstd::prelude::*;

use crate::args::Args;

verus! {

/// Output style configuration: a color name and an ordered list of style
/// names.
#[derive(Debug, Clone, PartialEq)]
pub struct StyleConfig {
    pub color: String,
    pub format: Option<Vec<String>>,
}

impl StyleConfig {
    /// A style with the given color and no style names.
    pub fn new(color: &str) -> (r: Self)
        ensures
            r.color@ == color@,
            r.format is None,
    {
        StyleConfig { color: color.to_owned(), format: None }
    }
}

/// Struct to hold configuration.
#[derive(Debug, Clone, PartialEq)]
pub struct Config {
    /// value to display when VPN is enabled
    pub enabled_string: Option<String>,
    /// style configuration for enabled_string
    pub enabled_style: Option<StyleConfig>,
    /// value to display when VPN is disabled
    pub disabled_string: Option<String>,
    /// style configuration for disabled_string
    pub disabled_style: Option<StyleConfig>,
    /// value to display when the split tunnel status is detected
    pub split_tunnel_string: Option<String>,
    /// style configuration for split_tunnel_string
    pub split_tunnel_style: Option<StyleConfig>,
    /// value to display when network is offline
    pub offline_string: Option<String>,
    /// output format
    pub output_format: Option<String>,
    /// style configuration for output_format
    pub output_style: Option<StyleConfig>,
    /// enable lookup functionality
    pub lookup: Option<bool>,
    /// list of lookup providers
    pub lookup_providers: Option<Vec<String>>,
    /// style configuration for lookup values
    pub lookup_style: Option<StyleConfig>,
}

impl Default for Config {
    /// The built-in defaults: plain status words, green and red status
    /// colors, no custom format, lookup disabled.
    fn default() -> (r: Self)
        ensures
            r.enabled_string matches Some(s) && s@ == "enabled"@,
            r.enabled_style matches Some(st) && st.color@ == "green"@ && st.format is None,
            r.disabled_string matches Some(s) && s@ == "disabled"@,
            r.disabled_style matches Some(st) && st.color@ == "red"@ && st.format is None,
            r.split_tunnel_string is None,
            r.split_tunnel_style is None,
            r.offline_string matches Some(s) && s@ == "offline"@,
            r.output_format is None,
            r.output_style is None,
            r.lookup matches Some(b) && b == false,
            r.lookup_providers is None,
            r.lookup_style is None,
    {
        Config {
            enabled_string: Some("enabled".to_owned()),
            enabled_style: Some(StyleConfig::new("green")),
            disabled_string: Some("disabled".to_owned()),
            disabled_style: Some(StyleConfig::new("red")),
            split_tunnel_string: None,
            split_tunnel_style: None,
            offline_string: Some("offline".to_owned()),
            output_format: None,
            output_style: None,
            lookup: Some(false),
            lookup_providers: None,
            lookup_style: None,
        }
    }
}

/// Whether a configuration holds exactly the built-in defaults.
pub open spec fn default_config_ok(c: Config) -> bool {
    &&& c.enabled_string matches Some(s) && s@ == "enabled"@
    &&& c.enabled_style matches Some(st) && st.color@ == "green"@ && st.format is None
    &&& c.disabled_string matches Some(s) && s@ == "disabled"@
    &&& c.disabled_style matches Some(st) && st.color@ == "red"@ && st.format is None
    &&& c.split_tunnel_string is None
    &&& c.split_tunnel_style is None
    &&& c.offline_string matches Some(s) && s@ == "offline"@
    &&& c.output_format is None
    &&& c.output_style is None
    &&& c.lookup matches Some(b) && b == false
    &&& c.lookup_providers is None
    &&& c.lookup_style is None
}

/// The base that overrides are merged over: the loaded file configuration
/// if one was found, the built-in defaults otherwise.
pub open spec fn base_config_ok(file: Option<Config>, base: Config) -> bool {
    match file {
        Some(c) => base == c,
        None => default_config_ok(base),
    }
}

/// A style with its color overridden: the base style keeps its names; with
/// no base style a fresh style with just the color is made.
pub open spec fn merged_style(color: Option<String>, base: Option<StyleConfig>) -> Option<
    StyleConfig,
> {
    match color {
        None => base,
        Some(c) => match base {
            Some(st) => Some(StyleConfig { color: c, format: st.format }),
            None => Some(StyleConfig { color: c, format: None }),
        },
    }
}

/// The configuration after the command-line overrides are applied: a given
/// string, color, format or lookup flag wins over the base; everything
/// else keeps the base value.
pub open spec fn merged(args: Args, base: Config) -> Config {
    Config {
        enabled_string: if args.enabled_string is Some {
            args.enabled_string
        } else {
            base.enabled_string
        },
        enabled_style: merged_style(args.enabled_color, base.enabled_style),
        disabled_string: if args.disabled_string is Some {
            args.disabled_string
        } else {
            base.disabled_string
        },
        disabled_style: merged_style(args.disabled_color, base.disabled_style),
        split_tunnel_string: base.split_tunnel_string,
        split_tunnel_style: base.split_tunnel_style,
        offline_string: base.offline_string,
        output_format: if args.output_format is Some {
            args.output_format
        } else {
            base.output_format
        },
        output_style: base.output_style,
        lookup: if args.lookup {
            Some(true)
        } else {
            base.lookup
        },
        lookup_providers: base.lookup_providers,
        lookup_style: base.lookup_style,
    }
}

/// The effective configuration: the command-line overrides merged over the
/// loaded file configuration, or over the built-in defaults when no file
/// was loaded.
pub fn get(args: Args, file: Option<Config>) -> (r: Config)
    ensures
        exists|base: Config| #[trigger] base_config_ok(file, base) && r == merged(args, base),
{
    let base = match file {
        Some(c) => c,
        None => Config::default(),
    };
    let ghost base0 = base;
    let mut config = base;

    if args.enabled_string.is_some() {
        config.enabled_string = args.enabled_string;
    }
    match args.enabled_color {
        Some(c) => {
            config.enabled_style = Some(
                match config.enabled_style {
                    Some(st) => StyleConfig { color: c, format: st.format },
                    None => StyleConfig { color: c, format: None },
                },
            );
        },
        None => {},
    }
    if args.disabled_string.is_some() {
        config.disabled_string = args.disabled_string;
    }
    match args.disabled_color {
        Some(c) => {
            config.disabled_style = Some(
                match config.disabled_style {
                    Some(st) => StyleConfig { color: c, format: st.format },
                    None => StyleConfig { color: c, format: None },
                },
            );
        },
        None => {},
    }
    if args.output_format.is_some() {
        config.output_format = args.output_format;
    }
    if args.lookup {
        config.lookup = Some(true);
    }
    proof {
        assert(base_config_ok(file, base0));
        assert(config == merged(args, base0));
    }
    config
}

} // verus!
