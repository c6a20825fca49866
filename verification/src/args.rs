//! The command-line overrides, as plain values.
//!
//! Parsing the process arguments into this struct is the caller's concern;
//! the library only consumes an already-parsed value, most often through
//! [`crate::config::get`], which merges it over a loaded configuration.

use vstd::prelude::*;

verus! {

/// Struct to hold command line arguments.
#[derive(Debug, Clone, PartialEq)]
pub struct Args {
    /// Do not apply any styles
    pub no_style: bool,
    /// Open the default configuration file
    pub open_config: bool,
    /// Value to display when VPN is enabled
    pub enabled_string: Option<String>,
    /// Color of enabled_string
    pub enabled_color: Option<String>,
    /// Value to display when VPN is disabled
    pub disabled_string: Option<String>,
    /// Color of disabled_string
    pub disabled_color: Option<String>,
    /// Value to display when network is offline
    pub offline_string: Option<String>,
    /// Value to display when split tunnel is set
    pub split_tunnel_string: Option<String>,
    /// Color of split_tunnel_string
    pub split_tunnel_color: Option<String>,
    /// Output format
    pub output_format: Option<String>,
    /// Path to configuration file
    pub config_path: Option<String>,
    /// Enable lookup functionality
    pub lookup: bool,
}

} // verus!
