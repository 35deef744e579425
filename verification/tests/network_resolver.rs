use staffmon::network::{
    build_interface_record, parse_primary_addresses, parse_secondary_addresses,
    primary_address_plan, resolve_interface_addresses, secondary_address_plan,
};

const PRIMARY_OUT: &str = "2: eth0: <BROADCAST,MULTICAST,UP,LOWER_UP> mtu 1500\n    link/ether 00:11:22:33:44:55 brd ff:ff:ff:ff:ff:ff\n    inet 10.0.0.5/24 brd 10.0.0.255 scope global eth0\n    inet6 fe80::1/64 scope link\n";

#[test]
fn primary_parse_strips_prefix_lengths() {
    assert_eq!(parse_primary_addresses(PRIMARY_OUT), vec!["10.0.0.5", "fe80::1"]);
    assert_eq!(parse_primary_addresses(""), Vec::<String>::new());
    assert_eq!(
        parse_primary_addresses("    link/ether 00:11:22:33:44:55\n"),
        Vec::<String>::new()
    );
}

#[test]
fn secondary_parse_keeps_the_token_whole() {
    let out = "eth0: flags=4163<UP,BROADCAST>\n        inet 192.168.1.7 netmask 255.255.255.0\n        inet6 fe80::2 prefixlen 64\n";
    assert_eq!(
        parse_secondary_addresses(out),
        vec!["192.168.1.7", "fe80::2"]
    );
}

#[test]
fn secondary_never_consulted_when_primary_reports_an_address() {
    // A poisoned secondary output: were the fallback consulted, its
    // addresses would appear in the result.
    let poisoned = "    inet 99.99.99.99 netmask 255.0.0.0\n";
    let r = resolve_interface_addresses(PRIMARY_OUT, Some(poisoned));
    assert_eq!(r, vec!["10.0.0.5", "fe80::1"]);
    let r = resolve_interface_addresses(PRIMARY_OUT, None);
    assert_eq!(r, vec!["10.0.0.5", "fe80::1"]);
}

#[test]
fn fallback_used_whenever_primary_is_empty() {
    let secondary = "        inet 172.16.0.9 netmask 255.240.0.0\n";
    let r = resolve_interface_addresses("", Some(secondary));
    assert_eq!(r, vec!["172.16.0.9"]);
    let r = resolve_interface_addresses("no addresses here\n", None);
    assert_eq!(r, Vec::<String>::new());
}

#[test]
fn interface_record_carries_counters_through() {
    let rec = build_interface_record("eth0", PRIMARY_OUT, None, 1024, 2048);
    assert_eq!(rec.name, "eth0");
    assert_eq!(rec.ip_addresses, vec!["10.0.0.5", "fe80::1"]);
    assert_eq!(rec.rx_bytes, 1024);
    assert_eq!(rec.tx_bytes, 2048);
}

#[test]
fn address_plans_name_both_tools() {
    let p = primary_address_plan("eth0");
    assert_eq!(p.program, "ip");
    assert_eq!(p.args, vec!["addr", "show", "eth0"]);
    let s = secondary_address_plan("eth0");
    assert_eq!(s.program, "ifconfig");
    assert_eq!(s.args, vec!["eth0"]);
}
