use staffmon::access::build_user_access;
use staffmon::boot::merge_boot_history;
use staffmon::config::ApiConfig;
use staffmon::hardware::build_hardware_profile;
use staffmon::network::build_interface_record;
use staffmon::platform::{
    filter_update_lines, select_package_manager, select_service_style, PackageManager,
    ServiceStyle,
};
use staffmon::security::build_security_record;
use staffmon::services::{resolve_service_status, ServiceRecord, ServiceStatus};
use staffmon::snapshot::{
    assemble_snapshot, disk_record_from, endpoint_url, load_average_fields, memory_stats_from,
    snapshot_filename, build_uptime_record, CollectionScheduler, CpuStats, CycleOutcome, LoadStats,
};

#[test]
fn memory_stats_scale_bytes_to_megabytes() {
    let m = memory_stats_from(8 * 1024 * 1024 * 1024, 3 * 1024 * 1024 * 1024);
    assert_eq!(m.total_mb, 8192);
    assert_eq!(m.used_mb, 3072);
    assert_eq!(m.free_mb, 5120);
    let odd = memory_stats_from(100, 200);
    assert_eq!(odd.free_mb, 0);
}

#[test]
fn disk_records_derive_used_space() {
    let d = disk_record_from("/dev/sda1", "/", 1000, 250);
    assert_eq!(d.used_bytes, 750);
    assert_eq!(d.name, "/dev/sda1");
    assert_eq!(d.mount_point, "/");
    let odd = disk_record_from("x", "/x", 10, 20);
    assert_eq!(odd.used_bytes, 0);
}

#[test]
fn load_fields_are_cut_after_the_marker() {
    let up = " 10:02:01 up 3 days,  2 users,  load average: 0.52, 0.58, 0.59";
    assert_eq!(load_average_fields(up), vec!["0.52", "0.58", "0.59"]);
    assert_eq!(load_average_fields("no marker"), vec![""]);
}

#[test]
fn filename_and_endpoint_are_fixed_shapes() {
    assert_eq!(
        snapshot_filename("20240115_100201"),
        "system_info_20240115_100201.json"
    );
    assert_eq!(
        endpoint_url("http://collector:8080"),
        "http://collector:8080/api/v1/system-info"
    );
}

#[test]
fn config_defaults_match_the_documented_values() {
    let c = ApiConfig::default();
    assert_eq!(c.base_url, "http://localhost:8080");
    assert_eq!(c.api_key, "");
    assert_eq!(c.timeout_seconds, 30);
    assert_eq!(c.retry_count, 3);
    assert_eq!(c.rate_limit, 100);
}

#[test]
fn scheduler_continues_after_a_failed_delivery() {
    let s = CollectionScheduler::new(2);
    let failed = CycleOutcome { persisted: true, delivered: false };
    let step = s.next_cycle(failed);
    assert!(step.keep_running);
    assert_eq!(step.sleep_seconds, 2);
    let fine = CycleOutcome { persisted: true, delivered: true };
    assert_eq!(s.next_cycle(fine), step);
    let all_failed = CycleOutcome { persisted: false, delivered: false };
    assert_eq!(s.next_cycle(all_failed), step);
}

#[test]
fn stubbed_host_assembles_the_expected_snapshot() {
    // A host presenting apt, unit-based services, and one interface whose
    // primary tool reports a single address.
    let manager = select_package_manager(true, false, false, false, false);
    assert_eq!(manager, PackageManager::Apt);
    let style = select_service_style(true, false);
    assert_eq!(style, ServiceStyle::Unit);

    let updates = filter_update_lines(
        manager,
        "Listing... Done\nopenssl/jammy 3.0.2 amd64 [upgradable from: 3.0.1]\n",
    );
    assert_eq!(updates, vec!["openssl/jammy 3.0.2 amd64 [upgradable from: 3.0.1]"]);

    let iface = build_interface_record(
        "eth0",
        "2: eth0: <UP> mtu 1500\n    inet 10.0.0.5/24 brd 10.0.0.255 scope global eth0\n",
        None,
        100,
        200,
    );
    let security = build_security_record("", "", "", updates.clone());
    let ssh_status = resolve_service_status(&vec![ServiceStatus { active: true, enabled: true }]);
    let services = vec![ServiceRecord {
        name: "ssh.service".to_string(),
        active: ssh_status.active,
        enabled: ssh_status.enabled,
        version: None,
    }];
    let snapshot = assemble_snapshot(
        CpuStats { usage_centi_percent: 1250, temperature_centi_celsius: None, frequency_mhz: 2250 },
        memory_stats_from(4 * 1024 * 1024 * 1024, 1024 * 1024 * 1024),
        LoadStats { one_milli: 520, five_milli: 580, fifteen_milli: 590 },
        vec![disk_record_from("/dev/sda1", "/", 1000, 400)],
        vec![iface],
        build_user_access("", "", None),
        services,
        security,
        build_hardware_profile("Model name: Xeon\n", "4\n", "h\nMem: 3976 1\n", "", ""),
        build_uptime_record(" up 3 days \n", " system boot  2024-01-15 \n", merge_boot_history(Vec::new(), Vec::new())),
        "host1".to_string(),
        "5.15.0".to_string(),
        "Ubuntu 22.04".to_string(),
        Vec::new(),
        "2024-01-15T10:02:01+00:00".to_string(),
    );

    assert_eq!(snapshot.network_interfaces.len(), 1);
    assert_eq!(snapshot.network_interfaces[0].name, "eth0");
    assert_eq!(snapshot.network_interfaces[0].ip_addresses, vec!["10.0.0.5"]);
    assert_eq!(
        snapshot.security.package_updates,
        vec!["openssl/jammy 3.0.2 amd64 [upgradable from: 3.0.1]"]
    );
    assert!(snapshot.services[0].active);
    assert_eq!(snapshot.hostname, "host1");
    assert_eq!(snapshot.system_uptime.current_uptime, "up 3 days");
    assert_eq!(snapshot.system_uptime.last_boot_time, "system boot  2024-01-15");
    assert_eq!(snapshot.timestamp, "2024-01-15T10:02:01+00:00");
}
