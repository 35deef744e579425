use staffmon::platform::ServiceStyle;
use staffmon::services::{
    parse_dir_service_names, parse_unit_service_names, resolve_service_status, resolve_version,
    service_aliases, service_list_plan, status_from_outputs, status_query_plans, version_attempt_plans,
    version_from_output, ServiceStatus,
};
use staffmon::tool::ToolOutput;

fn out(stdout: &str, stderr: &str) -> ToolOutput {
    ToolOutput {
        stdout: stdout.to_string(),
        stderr: stderr.to_string(),
        success: true,
    }
}

#[test]
fn alias_chains_of_known_services() {
    assert_eq!(service_aliases("mysql"), vec!["mysql", "mariadb", "mysqld"]);
    assert_eq!(service_aliases("redis"), vec!["redis", "redis-server"]);
    assert_eq!(service_aliases("nginx"), vec!["nginx", "nginx-main"]);
    assert_eq!(service_aliases("sshd"), vec!["sshd"]);
}

#[test]
fn chain_returns_first_alias_with_either_flag() {
    let statuses = vec![
        ServiceStatus { active: false, enabled: false },
        ServiceStatus { active: true, enabled: false },
        ServiceStatus { active: true, enabled: true },
    ];
    let r = resolve_service_status(&statuses);
    assert!(r.active);
    assert!(!r.enabled);
}

#[test]
fn chain_exhausted_only_when_every_alias_reports_nothing() {
    let statuses = vec![
        ServiceStatus { active: false, enabled: false },
        ServiceStatus { active: false, enabled: false },
    ];
    let r = resolve_service_status(&statuses);
    assert!(!r.active);
    assert!(!r.enabled);
    let enabled_only = vec![
        ServiceStatus { active: false, enabled: false },
        ServiceStatus { active: false, enabled: true },
    ];
    let r = resolve_service_status(&enabled_only);
    assert!(!r.active);
    assert!(r.enabled);
}

#[test]
fn unit_style_reads_exact_trimmed_markers() {
    let r = status_from_outputs(ServiceStyle::Unit, "active\n", "enabled\n");
    assert!(r.active);
    assert!(r.enabled);
    let r = status_from_outputs(ServiceStyle::Unit, "inactive\n", "disabled\n");
    assert!(!r.active);
    assert!(!r.enabled);
    let r = status_from_outputs(ServiceStyle::Unit, "", "");
    assert!(!r.active);
    assert!(!r.enabled);
}

#[test]
fn script_and_bsd_styles_read_containment_markers() {
    let r = status_from_outputs(ServiceStyle::Script, "nginx is running\n", "nginx on\n");
    assert!(r.active);
    assert!(r.enabled);
    let r = status_from_outputs(ServiceStyle::Bsd, "status: running", "added to default runlevel");
    assert!(r.active);
    assert!(r.enabled);
    let r = status_from_outputs(ServiceStyle::Bsd, "stopped", "boot");
    assert!(!r.active);
    assert!(!r.enabled);
}

#[test]
fn status_plans_follow_the_style() {
    let (a, e) = status_query_plans(ServiceStyle::Unit, "nginx");
    assert_eq!(a.program, "systemctl");
    assert_eq!(a.args, vec!["is-active", "nginx"]);
    assert_eq!(e.args, vec!["is-enabled", "nginx"]);
    let (a, e) = status_query_plans(ServiceStyle::Script, "nginx");
    assert_eq!(a.program, "service");
    assert_eq!(a.args, vec!["nginx", "status"]);
    assert_eq!(e.program, "chkconfig");
    let (a, e) = status_query_plans(ServiceStyle::Bsd, "nginx");
    assert_eq!(a.program, "/etc/rc.d/nginx");
    assert_eq!(a.args, vec!["status"]);
    assert_eq!(e.program, "rc-update");
}

#[test]
fn unit_listing_yields_first_tokens_without_templates() {
    let listing = "UNIT LOAD ACTIVE\nssh.service loaded active\ngetty@tty1.service loaded active\n\ncron.service loaded active\n";
    assert_eq!(
        parse_unit_service_names(listing),
        vec!["UNIT", "ssh.service", "cron.service"]
    );
}

#[test]
fn directory_listing_yields_trimmed_nonempty_lines() {
    assert_eq!(
        parse_dir_service_names(" nginx \n\nsshd\n"),
        vec!["nginx", "sshd"]
    );
    let p = service_list_plan(ServiceStyle::Script);
    assert_eq!(p.program, "ls");
    assert_eq!(p.args, vec!["/etc/init.d/"]);
}

#[test]
fn version_attempts_cover_five_spellings() {
    let plans = version_attempt_plans("redis.service");
    assert_eq!(plans.len(), 5);
    assert_eq!(plans[0].program, "redis");
    assert_eq!(plans[0].args, vec!["--version"]);
    assert_eq!(plans[1].args, vec!["-v"]);
    assert_eq!(plans[2].args, vec!["-V"]);
    assert_eq!(plans[3].program, "redis-server");
    assert_eq!(plans[3].args, vec!["--version"]);
    assert_eq!(plans[4].program, "redis-cli");
    assert_eq!(plans[4].args, vec!["--version"]);
}

#[test]
fn version_is_first_line_of_first_nonempty_output() {
    let outputs = vec![
        out("", ""),
        out("", "nginx version: nginx/1.18.0\nbuilt by gcc\n"),
        out("should not be reached", ""),
    ];
    assert_eq!(
        resolve_version(&outputs),
        Some("nginx version: nginx/1.18.0".to_string())
    );
}

#[test]
fn version_checks_stdout_before_stderr() {
    let o = out("from stdout\nsecond", "from stderr");
    assert_eq!(version_from_output(&o), Some("from stdout".to_string()));
    let o = out("", "from stderr\nmore");
    assert_eq!(version_from_output(&o), Some("from stderr".to_string()));
    let o = out("", "");
    assert_eq!(version_from_output(&o), None);
}

#[test]
fn version_unknown_when_all_attempts_empty() {
    let outputs = vec![out("", ""), out("", ""), out("", ""), out("", ""), out("", "")];
    assert_eq!(resolve_version(&outputs), None);
}
