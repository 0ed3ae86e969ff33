use membership_core::ip::get_ip_info;

#[test]
fn proxy_address_trims_at_first_colon() {
    let info = get_ip_info(true, Some("10.0.0.7:4312"), None, Some("curl/8"));
    assert_eq!(info.addr, "10.0.0.7");
    assert_eq!(info.user_agent, "curl/8");
}

#[test]
fn proxy_address_without_colon_is_kept_whole() {
    let info = get_ip_info(true, Some("10.0.0.7"), None, None);
    assert_eq!(info.addr, "10.0.0.7");
    assert_eq!(info.user_agent, "");
}

#[test]
fn missing_proxy_value_yields_empty_address() {
    let info = get_ip_info(true, None, Some("9.9.9.9"), None);
    assert_eq!(info.addr, "");
}

#[test]
fn direct_connection_uses_peer_address() {
    let info = get_ip_info(false, Some("10.0.0.7:4312"), Some("9.9.9.9"), Some("ua"));
    assert_eq!(info.addr, "9.9.9.9");
    assert_eq!(info.user_agent, "ua");
}

#[test]
fn direct_connection_without_peer_is_empty() {
    let info = get_ip_info(false, None, None, None);
    assert_eq!(info.addr, "");
}
