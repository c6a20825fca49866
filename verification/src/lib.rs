//! Reports whether a VPN tunnel is active, based on a snapshot of the host's
//! network interfaces, and renders that status through a small templating and
//! styling layer.
//!
//! The crate is organised like the pipeline it implements:
//! - the classifier in this root module turns an interface snapshot into a
//!   [`VpnStatus`],
//! - [`parser`] turns a format string into tokens and renders them,
//! - [`styles`] resolves style names and applies terminal decoration,
//! - [`config`] holds the user configuration and merges overrides into it.
//!
//! Interface enumeration, the geolocation lookup, configuration loading and
//! argument parsing are collaborators outside this crate: callers query them
//! and hand their results in as plain values.

use vstd::prelude::*;

pub mod args;
pub mod config;
pub mod error;
pub mod parser;
pub mod styles;

use config::Config;
use config::StyleConfig;
use error::VpnStatusError;
use parser::Lookup;
use parser::LookupText;

verus! {

/// VPN configuration status.
#[derive(Debug, PartialEq, Eq, Structural, Clone, Copy)]
pub enum VpnStatus {
    Disabled,
    Enabled,
    SplitTunnel,
    Offline,
}

/// The default text for a status value.
pub open spec fn status_label(s: VpnStatus) -> Seq<char> {
    match s {
        VpnStatus::Disabled => "disabled"@,
        VpnStatus::Enabled => "enabled"@,
        VpnStatus::SplitTunnel => "split"@,
        VpnStatus::Offline => "offline"@,
    }
}

impl VpnStatus {
    /// The text under which a status is displayed when no custom string is
    /// configured.
    pub fn label(&self) -> (r: String)
        ensures
            r@ == status_label(*self),
    {
        match self {
            VpnStatus::Disabled => "disabled".to_owned(),
            VpnStatus::Enabled => "enabled".to_owned(),
            VpnStatus::SplitTunnel => "split".to_owned(),
            VpnStatus::Offline => "offline".to_owned(),
        }
    }
}

/// A snapshot of one network interface, as the interface-enumeration
/// collaborator reports it: its name, whether it is a tunnel device,
/// whether it carries the default route, and its addresses as plain text.
#[derive(Debug, Clone, PartialEq)]
pub struct InterfaceRecord {
    pub name: String,
    pub is_tun: bool,
    pub is_default: bool,
    pub ipv4: Vec<String>,
    pub ipv6: Vec<String>,
}

/// Whether some interface in the snapshot is a tunnel with at least one
/// IPv4 address: the split-tunnel condition.
pub open spec fn has_split_tunnel(ifaces: Seq<InterfaceRecord>) -> bool {
    exists|j: int| 0 <= j < ifaces.len() && ifaces[j].is_tun && ifaces[j].ipv4@.len() > 0
}

/// The status of a snapshot whose default interface was found: a tunnel
/// default interface means enabled; otherwise a tunnel elsewhere with an
/// IPv4 address means split tunnel; otherwise disabled.
pub open spec fn classify_found(d: InterfaceRecord, ifaces: Seq<InterfaceRecord>) -> VpnStatus {
    if d.is_tun {
        VpnStatus::Enabled
    } else if has_split_tunnel(ifaces) {
        VpnStatus::SplitTunnel
    } else {
        VpnStatus::Disabled
    }
}

/// The exact message with which the interface enumeration reports that no
/// local address exists. This condition is the normal offline state, not a
/// failure.
pub open spec fn no_local_addr_msg() -> Seq<char> {
    "Local IP address not found"@
}

/// Get the status of the VPN configuration, from a snapshot of the
/// interfaces: the result of the default-interface query, and the list of
/// all interfaces.
///
/// The "no local address" outcome of the query is the offline state; any
/// other query failure is surfaced verbatim as an error.
pub fn status(default_iface: Result<InterfaceRecord, String>, interfaces: &Vec<InterfaceRecord>)
    -> (r: Result<VpnStatus, VpnStatusError>)
    ensures
        default_iface matches Ok(d) ==> r == Ok::<VpnStatus, VpnStatusError>(
            classify_found(d, interfaces@),
        ),
        default_iface matches Err(e) ==> ({
            &&& e@ == no_local_addr_msg() ==> r == Ok::<VpnStatus, VpnStatusError>(
                VpnStatus::Offline,
            )
            &&& e@ != no_local_addr_msg() ==> (r matches Err(err)
                && err matches VpnStatusError::DefaultInterface(m) && m@ == e@)
        }),
{
    match default_iface {
        Ok(d) => {
            if d.is_tun {
                Ok(VpnStatus::Enabled)
            } else {
                let mut i: usize = 0;
                while i < interfaces.len()
                    invariant
                        default_iface matches Ok(dd) && dd == d,
                        !d.is_tun,
                        i <= interfaces@.len(),
                        forall|k: int|
                            0 <= k < i ==> !(interfaces@[k].is_tun && interfaces@[k].ipv4@.len()
                                > 0),
                    decreases interfaces@.len() - i,
                {
                    if interfaces[i].is_tun && interfaces[i].ipv4.len() > 0 {
                        proof {
                            let j = i as int;
                            assert(0 <= j < interfaces@.len() && interfaces@[j].is_tun
                                && interfaces@[j].ipv4@.len() > 0);
                            assert(has_split_tunnel(interfaces@));
                        }
                        return Ok(VpnStatus::SplitTunnel);
                    }
                    i += 1;
                }
                Ok(VpnStatus::Disabled)
            }
        },
        Err(e) => {
            if parser::str_eq(e.as_str(), "Local IP address not found") {
                Ok(VpnStatus::Offline)
            } else {
                Err(VpnStatusError::DefaultInterface(e))
            }
        },
    }
}

/// A default interface that is a tunnel always classifies as enabled,
/// whatever the other interfaces hold.
pub proof fn lemma_classify_default_tunnel(d: InterfaceRecord, ifaces: Seq<InterfaceRecord>)
    requires
        d.is_tun,
    ensures
        classify_found(d, ifaces) == VpnStatus::Enabled,
{
}

/// A default interface that is not a tunnel, beside some tunnel interface
/// that has an IPv4 address, classifies as split tunnel.
pub proof fn lemma_classify_split_tunnel(d: InterfaceRecord, ifaces: Seq<InterfaceRecord>, j: int)
    requires
        !d.is_tun,
        0 <= j < ifaces.len(),
        ifaces[j].is_tun,
        ifaces[j].ipv4@.len() > 0,
    ensures
        classify_found(d, ifaces) == VpnStatus::SplitTunnel,
{
}

/// With a non-tunnel default interface and no tunnel interface anywhere,
/// the snapshot classifies as disabled.
pub proof fn lemma_classify_disabled(d: InterfaceRecord, ifaces: Seq<InterfaceRecord>)
    requires
        !d.is_tun,
        forall|j: int| 0 <= j < ifaces.len() ==> !ifaces[j].is_tun,
    ensures
        classify_found(d, ifaces) == VpnStatus::Disabled,
{
}

/// Classification does not depend on the order in which the interfaces
/// were enumerated: any reordering of the same records classifies alike.
pub proof fn lemma_classify_order_independent(
    d: InterfaceRecord,
    ifaces1: Seq<InterfaceRecord>,
    ifaces2: Seq<InterfaceRecord>,
)
    requires
        ifaces1.to_multiset() == ifaces2.to_multiset(),
    ensures
        classify_found(d, ifaces1) == classify_found(d, ifaces2),
{
    if has_split_tunnel(ifaces1) {
        let j = choose|j: int|
            0 <= j < ifaces1.len() && ifaces1[j].is_tun && ifaces1[j].ipv4@.len() > 0;
        ifaces1.to_multiset_ensures();
        ifaces2.to_multiset_ensures();
        assert(ifaces1.to_multiset().count(ifaces1[j]) > 0);
        assert(ifaces2.contains(ifaces1[j]));
    }
    if has_split_tunnel(ifaces2) {
        let j = choose|j: int|
            0 <= j < ifaces2.len() && ifaces2[j].is_tun && ifaces2[j].ipv4@.len() > 0;
        ifaces1.to_multiset_ensures();
        ifaces2.to_multiset_ensures();
        assert(ifaces2.to_multiset().count(ifaces2[j]) > 0);
        assert(ifaces1.contains(ifaces2[j]));
    }
}

/// Get the name of the default tunnel, from the result of the
/// default-interface query.
pub fn tunnel_name(default_iface: Result<InterfaceRecord, String>) -> (r: Result<
    String,
    VpnStatusError,
>)
    ensures
        default_iface matches Ok(d) ==> ({
            &&& d.is_tun ==> (r matches Ok(n) && n@ == d.name@)
            &&& !d.is_tun ==> (r matches Err(e)
                && e matches VpnStatusError::DefaultInterface(m) && m@
                == "Default interface is not a tunnel"@)
        }),
        default_iface matches Err(e) ==> (r matches Err(err)
            && err matches VpnStatusError::DefaultInterface(m) && m@ == e@),
{
    match default_iface {
        Ok(d) => {
            if d.is_tun {
                Ok(d.name)
            } else {
                Err(
                    VpnStatusError::DefaultInterface(
                        "Default interface is not a tunnel".to_owned(),
                    ),
                )
            }
        },
        Err(e) => Err(VpnStatusError::DefaultInterface(e)),
    }
}

/// Get the addresses of the default tunnel, from the result of the
/// default-interface query: its IPv4 addresses, or, when it has none, its
/// IPv6 addresses. A tunnel without any address is an error.
pub fn tunnel_address(default_iface: Result<InterfaceRecord, String>) -> (r: Result<
    Vec<String>,
    VpnStatusError,
>)
    ensures
        default_iface matches Ok(d) ==> ({
            &&& d.is_tun && d.ipv4@.len() > 0 ==> (r matches Ok(v) && v.deep_view()
                == d.ipv4.deep_view())
            &&& d.is_tun && d.ipv4@.len() == 0 && d.ipv6@.len() > 0 ==> (r matches Ok(v)
                && v.deep_view() == d.ipv6.deep_view())
            &&& d.is_tun && d.ipv4@.len() == 0 && d.ipv6@.len() == 0 ==> (r matches Err(e)
                && e matches VpnStatusError::DefaultInterface(m) && m@
                == "Tunnel has no address"@)
            &&& !d.is_tun ==> (r matches Err(e)
                && e matches VpnStatusError::DefaultInterface(m) && m@
                == "Default interface is not a tunnel"@)
        }),
        default_iface matches Err(e) ==> (r matches Err(err)
            && err matches VpnStatusError::DefaultInterface(m) && m@ == e@),
{
    match default_iface {
        Ok(d) => {
            if d.is_tun {
                if d.ipv4.len() > 0 {
                    Ok(d.ipv4)
                } else if d.ipv6.len() > 0 {
                    Ok(d.ipv6)
                } else {
                    Err(VpnStatusError::DefaultInterface("Tunnel has no address".to_owned()))
                }
            } else {
                Err(
                    VpnStatusError::DefaultInterface(
                        "Default interface is not a tunnel".to_owned(),
                    ),
                )
            }
        },
        Err(e) => Err(VpnStatusError::DefaultInterface(e)),
    }
}

/// The names of the tunnel interfaces of a snapshot, in enumeration order.
pub open spec fn tunnel_names_spec(ifaces: Seq<InterfaceRecord>) -> Seq<Seq<char>>
    decreases ifaces.len(),
{
    if ifaces.len() == 0 {
        Seq::empty()
    } else {
        let rest = tunnel_names_spec(ifaces.drop_last());
        if ifaces.last().is_tun {
            rest.push(ifaces.last().name@)
        } else {
            rest
        }
    }
}

/// Get the names of all tunnel interfaces.
pub fn all_tunnel_names(interfaces: &Vec<InterfaceRecord>) -> (r: Vec<String>)
    ensures
        r.deep_view() == tunnel_names_spec(interfaces@),
{
    let mut names: Vec<String> = Vec::new();
    let mut i: usize = 0;
    proof {
        assert(names.deep_view() =~= tunnel_names_spec(interfaces@.take(0)));
    }
    while i < interfaces.len()
        invariant
            i <= interfaces@.len(),
            names.deep_view() == tunnel_names_spec(interfaces@.take(i as int)),
        decreases interfaces@.len() - i,
    {
        let ghost prev = names.deep_view();
        proof {
            assert(interfaces@.take(i + 1 as int).drop_last() =~= interfaces@.take(i as int));
            assert(interfaces@.take(i + 1 as int).last() == interfaces@[i as int]);
        }
        if interfaces[i].is_tun {
            let n = interfaces[i].name.clone();
            names.push(n);
            proof {
                assert(names.deep_view() =~= prev.push(interfaces@[i as int].name@));
            }
        }
        i += 1;
    }
    proof {
        assert(interfaces@.take(interfaces@.len() as int) =~= interfaces@);
    }
    names
}

/// The addresses of one interface, IPv4 first, then IPv6.
pub open spec fn combined_addrs(f: InterfaceRecord) -> Seq<Seq<char>> {
    f.ipv4.deep_view() + f.ipv6.deep_view()
}

/// The tunnel interfaces of a snapshot that have at least one address,
/// each with its addresses, in enumeration order.
pub open spec fn tunnel_addrs_spec(ifaces: Seq<InterfaceRecord>) -> Seq<(Seq<char>, Seq<Seq<char>>)>
    decreases ifaces.len(),
{
    if ifaces.len() == 0 {
        Seq::empty()
    } else {
        let rest = tunnel_addrs_spec(ifaces.drop_last());
        let f = ifaces.last();
        if f.is_tun && combined_addrs(f).len() > 0 {
            rest.push((f.name@, combined_addrs(f)))
        } else {
            rest
        }
    }
}

/// All the elements of `src`, copied onto the end of `dst`.
fn push_all(dst: &mut Vec<String>, src: &Vec<String>)
    ensures
        final(dst).deep_view() == old(dst).deep_view() + src.deep_view(),
{
    let mut i: usize = 0;
    proof {
        assert(dst.deep_view() =~= old(dst).deep_view() + src.deep_view().take(0));
    }
    while i < src.len()
        invariant
            i <= src@.len(),
            dst.deep_view() == old(dst).deep_view() + src.deep_view().take(i as int),
        decreases src@.len() - i,
    {
        let ghost prev = dst.deep_view();
        let s = src[i].clone();
        dst.push(s);
        proof {
            assert(dst.deep_view() =~= prev.push(src@[i as int]@));
            assert(old(dst).deep_view() + src.deep_view().take(i + 1 as int) =~= prev.push(
                src@[i as int]@,
            ));
        }
        i += 1;
    }
    proof {
        assert(src.deep_view().take(src@.len() as int) =~= src.deep_view());
    }
}

/// Get a list of all tunnel addresses: each tunnel interface that has at
/// least one address, with its name and its addresses, IPv4 first.
///
/// The snapshot is read as the operating system hands it out, where every
/// interface carries its own unique name; were a name repeated in the
/// snapshot, each occurrence would keep its own entry here, in enumeration
/// order.
pub fn all_tunnel_addresses(interfaces: &Vec<InterfaceRecord>) -> (r: Vec<(String, Vec<String>)>)
    ensures
        r.deep_view() == tunnel_addrs_spec(interfaces@),
{
    let mut out: Vec<(String, Vec<String>)> = Vec::new();
    let mut i: usize = 0;
    proof {
        assert(out.deep_view() =~= tunnel_addrs_spec(interfaces@.take(0)));
    }
    while i < interfaces.len()
        invariant
            i <= interfaces@.len(),
            out.deep_view() == tunnel_addrs_spec(interfaces@.take(i as int)),
        decreases interfaces@.len() - i,
    {
        let ghost prev = out.deep_view();
        proof {
            assert(interfaces@.take(i + 1 as int).drop_last() =~= interfaces@.take(i as int));
            assert(interfaces@.take(i + 1 as int).last() == interfaces@[i as int]);
        }
        if interfaces[i].is_tun {
            let mut addrs: Vec<String> = Vec::new();
            proof {
                assert(addrs.deep_view() =~= Seq::<Seq<char>>::empty());
            }
            push_all(&mut addrs, &interfaces[i].ipv4);
            push_all(&mut addrs, &interfaces[i].ipv6);
            proof {
                assert(Seq::<Seq<char>>::empty() + interfaces@[i as int].ipv4.deep_view()
                    =~= interfaces@[i as int].ipv4.deep_view());
                assert(addrs.deep_view() == combined_addrs(interfaces@[i as int]));
                assert(addrs@.len() == addrs.deep_view().len());
            }
            if addrs.len() > 0 {
                let n = interfaces[i].name.clone();
                out.push((n, addrs));
                proof {
                    assert(out.deep_view() =~= prev.push(
                        (
                            interfaces@[i as int].name@,
                            combined_addrs(interfaces@[i as int]),
                        ),
                    ));
                }
            }
        }
        i += 1;
    }
    proof {
        assert(interfaces@.take(interfaces@.len() as int) =~= interfaces@);
    }
    out
}

/// Get the status of the VPN connection as a flag: enabled and split
/// tunnel both count as on.
pub fn vpn_enabled(default_iface: Result<InterfaceRecord, String>, interfaces: &Vec<
    InterfaceRecord,
>) -> (r: Result<bool, VpnStatusError>)
    ensures
        default_iface matches Ok(d) ==> r == Ok::<bool, VpnStatusError>(
            classify_found(d, interfaces@) == VpnStatus::Enabled || classify_found(d, interfaces@)
                == VpnStatus::SplitTunnel,
        ),
        default_iface matches Err(e) ==> ({
            &&& e@ == no_local_addr_msg() ==> r == Ok::<bool, VpnStatusError>(false)
            &&& e@ != no_local_addr_msg() ==> (r matches Err(err)
                && err matches VpnStatusError::DefaultInterface(m) && m@ == e@)
        }),
{
    match status(default_iface, interfaces) {
        Ok(s) => match s {
            VpnStatus::Enabled => Ok(true),
            VpnStatus::SplitTunnel => Ok(true),
            _ => Ok(false),
        },
        Err(e) => Err(e),
    }
}

/// The result of a geolocation lookup, as plain values: the public
/// address, and, when the provider reports them, the city and the country
/// code.
#[derive(Debug, Clone, PartialEq)]
pub struct LookupResponse {
    pub ip: String,
    pub city: Option<String>,
    pub country: Option<String>,
}

/// Whether a render with this configuration and status performs the
/// geolocation lookup: only when the configuration asks for it, and never
/// when the host is offline.
pub fn lookup_enabled(config: &Config, status: &VpnStatus) -> (r: bool)
    ensures
        r == (!(status is Offline) && config.lookup == Some(true)),
{
    match status {
        VpnStatus::Offline => false,
        _ => match config.lookup {
            Some(b) => b,
            None => false,
        },
    }
}

/// The status text before styling: the configured custom string, or the
/// default label of the status.
pub open spec fn chosen_status_text(config: Config, status: VpnStatus) -> Seq<char> {
    let custom = match status {
        VpnStatus::Enabled => config.enabled_string,
        VpnStatus::Disabled => config.disabled_string,
        VpnStatus::SplitTunnel => config.split_tunnel_string,
        VpnStatus::Offline => config.offline_string,
    };
    match custom {
        Some(s) => s@,
        None => status_label(status),
    }
}

/// The format template that rendering uses: the configured one, or a
/// default that shows the lookup fields exactly when a lookup result is
/// present.
pub open spec fn chosen_format(config: Config, lookup_present: bool) -> Seq<char> {
    match config.output_format {
        Some(f) => f@,
        None => if lookup_present {
            "{status} - {city}, {country}"@
        } else {
            "{status}"@
        },
    }
}

/// The color of an optional style configuration; no style means no color
/// name.
pub open spec fn style_color(st: Option<StyleConfig>) -> Seq<char> {
    match st {
        Some(s) => s.color@,
        None => Seq::empty(),
    }
}

/// The style names of an optional style configuration.
pub open spec fn style_names(st: Option<StyleConfig>) -> Seq<Seq<char>> {
    match st {
        Some(s) => match s.format {
            Some(f) => f.deep_view(),
            None => Seq::empty(),
        },
        None => Seq::empty(),
    }
}

/// The color name and style names of an optional style configuration, as
/// owned values.
fn style_parts(style: &Option<StyleConfig>) -> (r: (String, Vec<String>))
    ensures
        r.0@ == style_color(*style),
        r.1.deep_view() == style_names(*style),
{
    match style {
        Some(s) => {
            let color = s.color.clone();
            let names = match &s.format {
                Some(f) => parser::clone_strings(f),
                None => Vec::new(),
            };
            proof {
                match &s.format {
                    Some(f) => {
                        assert(names.deep_view() =~= f.deep_view());
                    },
                    None => {
                        assert(names.deep_view() =~= Seq::<Seq<char>>::empty());
                    },
                }
            }
            (color, names)
        },
        None => {
            let names: Vec<String> = Vec::new();
            proof {
                assert(names.deep_view() =~= Seq::<Seq<char>>::empty());
            }
            (String::new(), names)
        },
    }
}

/// The text of an optional string, the empty text when it is absent.
pub open spec fn opt_or_empty(s: Option<String>) -> Seq<char> {
    match s {
        Some(x) => x@,
        None => Seq::empty(),
    }
}

/// Whether `lk` holds the placeholder texts that a lookup outcome gives:
/// empty texts without a result, a decorated form of each reported field
/// with one.
pub open spec fn lookup_fields_ok(response: Option<LookupResponse>, lk: LookupText) -> bool {
    match response {
        None => lk == parser::empty_lookup(),
        Some(resp) => {
            &&& parser::decorated_ok(resp.ip@, lk.ip)
            &&& parser::decorated_ok(opt_or_empty(resp.city), lk.city)
            &&& parser::decorated_ok(opt_or_empty(resp.country), lk.country)
        },
    }
}

/// Whether `st` is the text that rendering substitutes for the status: the
/// chosen status text itself when styling is off, a decorated form of it
/// when styling is on.
pub open spec fn status_text_ok(
    config: Config,
    status: VpnStatus,
    no_style: bool,
    st: Seq<char>,
) -> bool {
    if no_style {
        st == chosen_status_text(config, status)
    } else {
        parser::decorated_ok(chosen_status_text(config, status), st)
    }
}

/// Whether `out` is a correct rendering of the chosen format with the
/// given status and lookup texts: the exact concatenation when styling is
/// off, a rendering with decorated literals when it is on.
pub open spec fn output_ok(
    config: Config,
    no_style: bool,
    lookup_present: bool,
    st: Seq<char>,
    lk: LookupText,
    out: Seq<char>,
) -> bool {
    if no_style {
        out == parser::render_spec(
            parser::parse_spec(chosen_format(config, lookup_present)),
            st,
            lk,
        )
    } else {
        parser::styled_render_ok(
            parser::parse_spec(chosen_format(config, lookup_present)),
            st,
            lk,
            out,
        )
    }
}

/// Render the status through the whole pipeline: pick the status text,
/// decorate it unless styling is off, decorate the lookup fields, choose
/// the format template, parse it and substitute.
///
/// The classification and the lookup are the caller's: the status and the
/// optional lookup result come in as values. The lookup fields are
/// decorated whenever a result is present, as the styled pipeline defines
/// it, styling flag or not.
pub fn status_string(
    config: Config,
    no_style: bool,
    status: VpnStatus,
    response: Option<LookupResponse>,
) -> (r: String)
    ensures
        exists|st: Seq<char>, lk: LookupText|
            #![auto]
            status_text_ok(config, status, no_style, st) && lookup_fields_ok(response, lk)
                && output_ok(config, no_style, response is Some, st, lk, r@),
{
    // the custom status string if it exists, else the default label
    let mut status_text: String = {
        let custom = match status {
            VpnStatus::Enabled => &config.enabled_string,
            VpnStatus::Disabled => &config.disabled_string,
            VpnStatus::SplitTunnel => &config.split_tunnel_string,
            VpnStatus::Offline => &config.offline_string,
        };
        match custom {
            Some(s) => s.clone(),
            None => status.label(),
        }
    };

    if !no_style {
        let (status_color, names) = style_parts(
            match status {
                VpnStatus::Enabled => &config.enabled_style,
                VpnStatus::Disabled => &config.disabled_style,
                VpnStatus::SplitTunnel => &config.split_tunnel_style,
                VpnStatus::Offline => &None,
            },
        );
        status_text = styles::apply_style(status_text, names, status_color.as_str());
    }

    // decorate the lookup fields, when a result is present
    let lookup: Option<Lookup> = match &response {
        Some(resp) => {
            let (lookup_color, lookup_names) = style_parts(&config.lookup_style);
            let city = match &resp.city {
                Some(c) => c.clone(),
                None => String::new(),
            };
            let country = match &resp.country {
                Some(c) => c.clone(),
                None => String::new(),
            };
            Some(
                Lookup {
                    ip: styles::apply_style(
                        resp.ip.clone(),
                        parser::clone_strings(&lookup_names),
                        lookup_color.as_str(),
                    ),
                    city: styles::apply_style(
                        city,
                        parser::clone_strings(&lookup_names),
                        lookup_color.as_str(),
                    ),
                    country: styles::apply_style(
                        country,
                        parser::clone_strings(&lookup_names),
                        lookup_color.as_str(),
                    ),
                },
            )
        },
        None => None,
    };
    let has_lookup = match &lookup {
        Some(_) => true,
        None => false,
    };

    // the custom output format if it exists, else a default
    let format: String = match &config.output_format {
        Some(f) => f.clone(),
        None => {
            if has_lookup {
                "{status} - {city}, {country}".to_owned()
            } else {
                "{status}".to_owned()
            }
        },
    };

    let ghost st = status_text@;
    let ghost lk = parser::lookup_text(lookup);
    let tokens = parser::parse(format.as_str());
    let output = if no_style {
        parser::make_output(tokens, status_text.as_str(), lookup)
    } else {
        let (out_color, out_names) = style_parts(&config.output_style);
        parser::make_output_styled(
            tokens,
            status_text.as_str(),
            lookup,
            out_names,
            out_color.as_str(),
        )
    };
    proof {
        assert(status_text_ok(config, status, no_style, st));
        assert(lookup_fields_ok(response, lk));
        assert(output_ok(config, no_style, response is Some, st, lk, output@));
    }
    output
}

} // verus!
