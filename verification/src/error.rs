//! The error taxonomy of the library.
//!
//! `DefaultInterface` reports that the interface snapshot handed in by the
//! caller carried an enumeration failure, `StyleError` that a style or color
//! specification was rejected, and `LookupError` that the caller's
//! geolocation lookup failed. Each variant carries the underlying message as
//! plain text.

use vstd::prelude::*;

verus! {

/// Error type for VPN status queries and rendering.
#[derive(Debug)]
pub enum VpnStatusError {
    /// The default network interface could not be determined.
    DefaultInterface(String),
    /// A style or color name was rejected.
    StyleError(String),
    /// The public-address lookup failed.
    LookupError(String),
}

impl VpnStatusError {
    /// A short description of the failure class, one per variant.
    pub fn label(&self) -> (r: String)
        ensures
            self is DefaultInterface ==> r@ == "Failed getting default interface"@,
            self is StyleError ==> r@ == "Failed styling"@,
            self is LookupError ==> r@ == "Failed performing lookup"@,
    {
        match self {
            VpnStatusError::DefaultInterface(_) => "Failed getting default interface".to_owned(),
            VpnStatusError::StyleError(_) => "Failed styling".to_owned(),
            VpnStatusError::LookupError(_) => "Failed performing lookup".to_owned(),
        }
    }
}

} // verus!
