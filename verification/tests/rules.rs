use altair_ebpf::rules::{basename, evaluate_rules, is_whitelisted};
use altair_ebpf::severity::Severity;

#[test]
fn basename_takes_last_component() {
    assert_eq!(basename("/usr/bin/wget"), "wget");
    assert_eq!(basename("wget"), "wget");
    assert_eq!(basename("/usr/bin/"), "");
    assert_eq!(basename(""), "");
    assert_eq!(basename("/"), "");
    assert_eq!(basename("./a/b/c.sh"), "c.sh");
    assert_eq!(basename("/opt/é/naïve"), "naïve");
}

#[test]
fn whitelist_matches_by_basename() {
    assert!(is_whitelisted("/bin/ls"));
    assert!(is_whitelisted("whoami"));
    assert!(is_whitelisted("/usr/bin/sleep"));
    assert!(!is_whitelisted("/bin/sh"));
    assert!(!is_whitelisted("/bin/lsof"));
    assert!(!is_whitelisted("/bin/ls/"));
}

fn rate(c: bool, uid: u32, f: &str) -> (Severity, &'static str) {
    let r = evaluate_rules(c, uid, f);
    (r.severity, r.reason)
}

#[test]
fn whitelisted_binaries_are_info() {
    assert_eq!(rate(true, 0, "/bin/ls"), (Severity::Info, "container process execution (whitelisted)"));
    assert_eq!(rate(false, 0, "/usr/bin/whoami"), (Severity::Info, "host process execution (whitelisted)"));
}

#[test]
fn root_shell_in_container_is_high() {
    assert_eq!(rate(true, 0, "/bin/sh"), (Severity::High, "root interactive shell inside container"));
    assert_eq!(rate(true, 0, "/bin/busybox"), (Severity::High, "root interactive shell inside container"));
}

#[test]
fn root_network_tool_in_container_is_high() {
    assert_eq!(rate(true, 0, "/usr/bin/wget"), (Severity::High, "root network tool inside container"));
    assert_eq!(rate(true, 0, "/usr/bin/nc"), (Severity::High, "root network tool inside container"));
}

#[test]
fn mount_in_container_is_high() {
    assert_eq!(rate(true, 0, "/bin/mount"), (Severity::High, "mount/umount executed inside container"));
    assert_eq!(rate(true, 1000, "/bin/umount"), (Severity::High, "mount/umount executed inside container"));
    assert_eq!(
        rate(true, 0, "/usr/bin/nsenter"),
        (Severity::High, "namespace/chroot tool executed inside container")
    );
    assert_eq!(rate(false, 0, "/bin/mount"), (Severity::Info, "host process execution"));
}

#[test]
fn root_package_manager_in_container_is_medium() {
    assert_eq!(rate(true, 0, "/sbin/apk"), (Severity::Medium, "package manager executed as root in container"));
    assert_eq!(rate(true, 0, "/usr/bin/apt-get"), (Severity::Medium, "package manager executed as root in container"));
}

#[test]
fn root_compiler_and_privilege_tools_in_container_are_medium() {
    assert_eq!(
        rate(true, 0, "/usr/bin/python3"),
        (Severity::Medium, "compiler/runtime toolchain used as root in container")
    );
    assert_eq!(rate(true, 0, "/bin/chmod"), (Severity::Medium, "privilege-related binary in container"));
}

#[test]
fn non_root_in_container() {
    assert_eq!(rate(true, 1000, "/bin/bash"), (Severity::Low, "shell executed inside container"));
    assert_eq!(rate(true, 1000, "/usr/bin/curl"), (Severity::Info, "container process execution"));
    assert_eq!(rate(true, 1000, "/sbin/apk"), (Severity::Info, "container process execution"));
}

#[test]
fn host_rules() {
    assert_eq!(rate(false, 0, "/usr/bin/curl"), (Severity::Low, "root network tool on host"));
    assert_eq!(rate(false, 1000, "/usr/bin/curl"), (Severity::Info, "host process execution"));
    assert_eq!(rate(false, 0, "/bin/sh"), (Severity::Info, "host process execution"));
}

#[test]
fn container_never_milder_than_host() {
    for f in ["/bin/sh", "/usr/bin/curl", "/bin/ls", "/sbin/apk", "/bin/true", "/x/y"] {
        for uid in [0u32, 1000] {
            assert!(rate(true, uid, f).0 >= rate(false, uid, f).0);
        }
    }
}
