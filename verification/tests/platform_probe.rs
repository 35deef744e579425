use staffmon::platform::{
    filter_update_lines, manager_candidates, select_package_manager, select_service_style,
    update_list_plan, update_refresh_plan, PackageManager, ServiceStyle,
};

#[test]
fn first_present_manager_wins() {
    assert_eq!(
        select_package_manager(true, true, true, true, true),
        PackageManager::Apt
    );
    assert_eq!(
        select_package_manager(false, true, true, true, true),
        PackageManager::Yum
    );
    assert_eq!(
        select_package_manager(false, false, true, true, true),
        PackageManager::Dnf
    );
    assert_eq!(
        select_package_manager(false, false, false, true, true),
        PackageManager::Pacman
    );
    assert_eq!(
        select_package_manager(false, false, false, false, true),
        PackageManager::Zypper
    );
}

#[test]
fn no_manager_means_unknown_and_no_updates() {
    let m = select_package_manager(false, false, false, false, false);
    assert_eq!(m, PackageManager::Unknown);
    assert_eq!(
        filter_update_lines(m, "anything at all\nmore text\n"),
        Vec::<String>::new()
    );
    assert!(update_list_plan(m).is_none());
}

#[test]
fn probe_order_is_fixed() {
    assert_eq!(
        manager_candidates(),
        vec!["apt", "yum", "dnf", "pacman", "zypper"]
    );
}

#[test]
fn apt_listing_drops_its_first_line() {
    let out = "Listing... Done\nvim/jammy 2:8.2 amd64 [upgradable from: 2:8.1]\ncurl/jammy 7.81 amd64\n";
    assert_eq!(
        filter_update_lines(PackageManager::Apt, out),
        vec![
            "vim/jammy 2:8.2 amd64 [upgradable from: 2:8.1]",
            "curl/jammy 7.81 amd64"
        ]
    );
    assert_eq!(
        filter_update_lines(PackageManager::Apt, ""),
        Vec::<String>::new()
    );
}

#[test]
fn yum_listing_drops_plugin_noise_and_blanks() {
    let out = "Loaded plugins: fastestmirror\n\nkernel.x86_64 5.14\n";
    assert_eq!(
        filter_update_lines(PackageManager::Yum, out),
        vec!["kernel.x86_64 5.14"]
    );
}

#[test]
fn dnf_listing_drops_metadata_noise_and_blanks() {
    let out = "Last metadata expiration check: 0:10:01 ago\nbash.x86_64 5.1\n\n";
    assert_eq!(
        filter_update_lines(PackageManager::Dnf, out),
        vec!["bash.x86_64 5.1"]
    );
}

#[test]
fn pacman_listing_is_kept_whole() {
    let out = "linux 6.1-1 -> 6.2-1\nglibc 2.36-1 -> 2.37-1\n";
    assert_eq!(
        filter_update_lines(PackageManager::Pacman, out),
        vec!["linux 6.1-1 -> 6.2-1", "glibc 2.36-1 -> 2.37-1"]
    );
}

#[test]
fn zypper_listing_drops_status_rows_and_blanks() {
    let out = "S | Repository | Name\nv | Main | zlib\n\n";
    assert_eq!(
        filter_update_lines(PackageManager::Zypper, out),
        vec!["v | Main | zlib"]
    );
}

#[test]
fn update_plans_name_the_manager_tools() {
    let p = update_list_plan(PackageManager::Apt).unwrap();
    assert_eq!(p.program, "apt");
    assert_eq!(p.args, vec!["list", "--upgradable"]);
    let pre = update_refresh_plan(PackageManager::Apt).unwrap();
    assert_eq!(pre.program, "apt");
    assert_eq!(pre.args, vec!["update"]);
    assert!(update_refresh_plan(PackageManager::Yum).is_none());
    let z = update_list_plan(PackageManager::Zypper).unwrap();
    assert_eq!(z.program, "zypper");
    assert_eq!(z.args, vec!["list-updates"]);
}

#[test]
fn supervision_style_prefers_unit_then_script() {
    assert_eq!(select_service_style(true, true), ServiceStyle::Unit);
    assert_eq!(select_service_style(true, false), ServiceStyle::Unit);
    assert_eq!(select_service_style(false, true), ServiceStyle::Script);
    assert_eq!(select_service_style(false, false), ServiceStyle::Bsd);
}
