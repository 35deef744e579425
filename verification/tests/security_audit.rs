use staffmon::security::{
    build_security_record, firewall_plan, firewall_state, intrusion_guard_plan,
    intrusion_guard_state, parse_open_ports, socket_list_plan,
};

#[test]
fn firewall_reads_its_active_marker() {
    assert!(firewall_state("Status: active\n\nTo    Action    From\n"));
    assert!(!firewall_state("Status: inactive\n"));
    assert!(!firewall_state(""));
}

#[test]
fn intrusion_guard_reads_its_status_keyword() {
    assert!(intrusion_guard_state("Status\n|- Number of jail: 1\n"));
    assert!(!intrusion_guard_state("command not found"));
    assert!(!intrusion_guard_state(""));
}

#[test]
fn ports_come_from_the_fifth_column_after_the_last_colon() {
    let out = "Netid State  Recv-Q Send-Q Local Address:Port Peer Address:Port\n\
               tcp   LISTEN 0      128    0.0.0.0:22        0.0.0.0:*\n\
               tcp   LISTEN 0      511    [::]:443          [::]:*\n\
               udp   UNCONN 0      0      127.0.0.53%lo:53  0.0.0.0:*\n";
    assert_eq!(parse_open_ports(out), vec![22, 443, 53]);
}

#[test]
fn unparseable_socket_lines_are_discarded_silently() {
    let out = "short line\n\
               tcp LISTEN 0 128 0.0.0.0:http 0.0.0.0:*\n\
               tcp LISTEN 0 128 0.0.0.0:70000 0.0.0.0:*\n\
               tcp LISTEN 0 128 0.0.0.0:8080 0.0.0.0:*\n";
    assert_eq!(parse_open_ports(out), vec![8080]);
    assert_eq!(parse_open_ports(""), Vec::<u16>::new());
}

#[test]
fn record_composes_the_four_probes() {
    let updates = vec!["vim 2:8.2".to_string()];
    let r = build_security_record(
        "Status: active\n",
        "",
        "tcp LISTEN 0 128 0.0.0.0:22 0.0.0.0:*\n",
        updates.clone(),
    );
    assert!(r.firewall_enabled);
    assert!(!r.fail2ban_active);
    assert_eq!(r.open_ports, vec![22]);
    assert_eq!(r.package_updates, updates);
}

#[test]
fn audit_plans_name_the_three_tools() {
    assert_eq!(firewall_plan().program, "ufw");
    assert_eq!(firewall_plan().args, vec!["status"]);
    assert_eq!(intrusion_guard_plan().program, "fail2ban-client");
    assert_eq!(socket_list_plan().program, "ss");
    assert_eq!(socket_list_plan().args, vec!["-tuln"]);
}
