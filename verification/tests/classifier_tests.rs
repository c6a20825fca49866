use vpn_status_lib::error::VpnStatusError;
use vpn_status_lib::{
    all_tunnel_addresses, all_tunnel_names, status, tunnel_address, tunnel_name, vpn_enabled,
    InterfaceRecord, VpnStatus,
};

fn iface(name: &str, is_tun: bool, is_default: bool, v4: &[&str], v6: &[&str]) -> InterfaceRecord {
    InterfaceRecord {
        name: name.to_string(),
        is_tun,
        is_default,
        ipv4: v4.iter().map(|a| a.to_string()).collect(),
        ipv6: v6.iter().map(|a| a.to_string()).collect(),
    }
}

#[test]
fn test_status() {
    let eth = iface("eth0", false, true, &["192.168.1.2"], &[]);
    let result = status(Ok(eth.clone()), &vec![eth]);
    assert!(result.is_ok(), "Failed to get status: {:?}", result);
}

#[test]
fn test_enabled() {
    let eth = iface("eth0", false, true, &["192.168.1.2"], &[]);
    let result = vpn_enabled(Ok(eth.clone()), &vec![eth]);
    assert!(result.is_ok(), "Failed to check vpn_enabled: {:?}", result);
}

#[test]
fn default_tunnel_is_enabled() {
    // a default interface that is a tunnel wins, whatever else is present
    let tun = iface("tun0", true, true, &["10.8.0.2"], &[]);
    let eth = iface("eth0", false, false, &["192.168.1.2"], &[]);
    let all = vec![eth, tun.clone()];
    assert_eq!(status(Ok(tun), &all).unwrap(), VpnStatus::Enabled);
}

#[test]
fn other_tunnel_with_ipv4_is_split() {
    let eth = iface("eth0", false, true, &["192.168.1.2"], &[]);
    let tun = iface("tun0", true, false, &["10.8.0.2"], &[]);
    let all = vec![eth.clone(), tun];
    assert_eq!(status(Ok(eth), &all).unwrap(), VpnStatus::SplitTunnel);
}

#[test]
fn no_tunnel_is_disabled() {
    let eth = iface("eth0", false, true, &["192.168.1.2"], &[]);
    let wlan = iface("wlan0", false, false, &["192.168.1.3"], &[]);
    let all = vec![eth.clone(), wlan];
    assert_eq!(status(Ok(eth), &all).unwrap(), VpnStatus::Disabled);
}

#[test]
fn tunnel_without_ipv4_is_not_split() {
    let eth = iface("eth0", false, true, &["192.168.1.2"], &[]);
    let tun = iface("tun0", true, false, &[], &["fd00::2"]);
    let all = vec![eth.clone(), tun];
    assert_eq!(status(Ok(eth), &all).unwrap(), VpnStatus::Disabled);
}

#[test]
fn no_local_address_is_offline() {
    let result = status(Err("Local IP address not found".to_string()), &vec![]);
    assert_eq!(result.unwrap(), VpnStatus::Offline);
}

#[test]
fn other_query_failure_is_an_error() {
    let result = status(Err("permission denied".to_string()), &vec![]);
    match result {
        Err(VpnStatusError::DefaultInterface(m)) => assert_eq!(m, "permission denied"),
        other => panic!("expected a DefaultInterface error, got {:?}", other),
    }
}

#[test]
fn enabled_counts_tunnel_states() {
    let tun = iface("tun0", true, true, &["10.8.0.2"], &[]);
    assert!(vpn_enabled(Ok(tun.clone()), &vec![tun]).unwrap());
    let eth = iface("eth0", false, true, &["192.168.1.2"], &[]);
    let split = iface("tun0", true, false, &["10.8.0.2"], &[]);
    assert!(vpn_enabled(Ok(eth.clone()), &vec![eth.clone(), split]).unwrap());
    assert!(!vpn_enabled(Ok(eth.clone()), &vec![eth]).unwrap());
}

#[test]
fn tunnel_name_of_default_tunnel() {
    let tun = iface("wg0", true, true, &["10.0.0.2"], &[]);
    assert_eq!(tunnel_name(Ok(tun)).unwrap(), "wg0");
    let eth = iface("eth0", false, true, &["192.168.1.2"], &[]);
    assert!(tunnel_name(Ok(eth)).is_err());
    assert!(tunnel_name(Err("boom".to_string())).is_err());
}

#[test]
fn tunnel_address_prefers_ipv4() {
    let tun = iface("tun0", true, true, &["10.8.0.2", "10.8.0.3"], &["fd00::2"]);
    assert_eq!(
        tunnel_address(Ok(tun)).unwrap(),
        vec!["10.8.0.2".to_string(), "10.8.0.3".to_string()]
    );
    let tun6 = iface("tun0", true, true, &[], &["fd00::2"]);
    assert_eq!(tunnel_address(Ok(tun6)).unwrap(), vec!["fd00::2".to_string()]);
    let bare = iface("tun0", true, true, &[], &[]);
    assert!(tunnel_address(Ok(bare)).is_err());
}

#[test]
fn all_tunnel_names_keeps_order() {
    let all = vec![
        iface("eth0", false, true, &["192.168.1.2"], &[]),
        iface("tun0", true, false, &["10.8.0.2"], &[]),
        iface("wg0", true, false, &[], &[]),
    ];
    assert_eq!(
        all_tunnel_names(&all),
        vec!["tun0".to_string(), "wg0".to_string()]
    );
}

#[test]
fn all_tunnel_addresses_combines_families() {
    let all = vec![
        iface("eth0", false, true, &["192.168.1.2"], &[]),
        iface("tun0", true, false, &["10.8.0.2"], &["fd00::2"]),
        iface("wg0", true, false, &[], &[]),
    ];
    let out = all_tunnel_addresses(&all);
    assert_eq!(out.len(), 1);
    assert_eq!(out[0].0, "tun0");
    assert_eq!(out[0].1, vec!["10.8.0.2".to_string(), "fd00::2".to_string()]);
}

#[test]
fn error_labels() {
    assert_eq!(
        VpnStatusError::DefaultInterface("x".to_string()).label(),
        "Failed getting default interface"
    );
    assert_eq!(
        VpnStatusError::StyleError("x".to_string()).label(),
        "Failed styling"
    );
    assert_eq!(
        VpnStatusError::LookupError("x".to_string()).label(),
        "Failed performing lookup"
    );
}
