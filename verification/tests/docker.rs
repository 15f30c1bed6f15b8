use altair_ebpf::cgroup::{
    cgroup_dir_from_text, cgroup_rel_path, container_from_cgroup_text, container_from_lowered,
};
use altair_ebpf::docker::{
    container_ids, detect_container, parse_inspect, parse_inspect_text, ContainerInfo, DockerIndex,
    ProcView,
};
use altair_ebpf::event::ExecEvent;

const FULL_ID: &str = "8576485edfec1234567890abcdef1234567890abcdef1234567890abcdef1234";

fn info(id: &str, pid: u32) -> ContainerInfo {
    ContainerInfo { id: id.to_string(), pid }
}

fn event(pid: u32, tgid: u32, cgroup_id: u64) -> ExecEvent {
    ExecEvent { pid, tgid, uid: 0, cgroup_id, comm: [0u8; 16], filename: [0u8; 256] }
}

fn no_probes() -> ProcView {
    ProcView { tgid_ns: None, pid_ns: None, tgid_cgroup: None, pid_cgroup: None }
}

#[test]
fn record_then_look_up() {
    let mut idx = DockerIndex::new();
    assert!(idx.container_by_cgroup(7).is_none());
    assert!(idx.container_by_ns("pid:[4026532345]").is_none());
    idx.record(info("8576485edfec", 42), Some("pid:[4026532345]".to_string()), Some(7));
    assert_eq!(idx.container_by_cgroup(7), Some("8576485edfec".to_string()));
    let c = idx.container_by_ns("pid:[4026532345]").unwrap();
    assert_eq!(c.id, "8576485edfec");
    assert_eq!(c.pid, 42);
    assert!(idx.container_by_cgroup(8).is_none());
    assert!(idx.container_by_ns("pid:[1]").is_none());
}

#[test]
fn record_replaces_earlier_entries() {
    let mut idx = DockerIndex::default();
    idx.record(info("aaaaaaaaaaaa", 1), Some("pid:[1]".to_string()), Some(5));
    idx.record(info("bbbbbbbbbbbb", 2), Some("pid:[2]".to_string()), None);
    idx.record(info("cccccccccccc", 3), Some("pid:[1]".to_string()), Some(5));
    assert_eq!(idx.container_by_cgroup(5), Some("cccccccccccc".to_string()));
    assert_eq!(idx.container_by_ns("pid:[1]").unwrap().id, "cccccccccccc");
    assert_eq!(idx.container_by_ns("pid:[2]").unwrap().id, "bbbbbbbbbbbb");
}

#[test]
fn detect_prefers_cgroup_index() {
    let mut idx = DockerIndex::new();
    idx.record(info("aaaaaaaaaaaa", 1), Some("pid:[1]".to_string()), Some(5));
    idx.record(info("bbbbbbbbbbbb", 2), Some("pid:[2]".to_string()), Some(6));
    let probes = ProcView {
        tgid_ns: Some("pid:[2]".to_string()),
        pid_ns: None,
        tgid_cgroup: None,
        pid_cgroup: None,
    };
    assert_eq!(detect_container(&event(10, 10, 5), &idx, &probes), (true, "aaaaaaaaaaaa".to_string()));
    assert_eq!(detect_container(&event(10, 10, 0), &idx, &probes), (true, "bbbbbbbbbbbb".to_string()));
    assert_eq!(detect_container(&event(10, 10, 99), &idx, &probes), (true, "bbbbbbbbbbbb".to_string()));
}

#[test]
fn detect_by_thread_namespace_then_cgroup_text() {
    let mut idx = DockerIndex::new();
    idx.record(info("bbbbbbbbbbbb", 2), Some("pid:[2]".to_string()), None);
    let probes = ProcView {
        tgid_ns: Some("pid:[9]".to_string()),
        pid_ns: Some("pid:[2]".to_string()),
        tgid_cgroup: None,
        pid_cgroup: None,
    };
    assert_eq!(detect_container(&event(11, 10, 0), &idx, &probes), (true, "bbbbbbbbbbbb".to_string()));
    let text = format!("0::/system.slice/docker-{}.scope\n", FULL_ID);
    let probes = ProcView { tgid_ns: None, pid_ns: None, tgid_cgroup: Some(text), pid_cgroup: None };
    assert_eq!(detect_container(&event(11, 10, 3), &idx, &probes), (true, "8576485edfec".to_string()));
    let probes = ProcView {
        tgid_ns: None,
        pid_ns: None,
        tgid_cgroup: Some("0::/user.slice/session-2.scope\n".to_string()),
        pid_cgroup: Some("0::/libpod_parent/x\n".to_string()),
    };
    assert_eq!(detect_container(&event(11, 10, 3), &idx, &probes), (true, "cg:3".to_string()));
}

#[test]
fn detect_host_when_nothing_matches() {
    let idx = DockerIndex::new();
    assert_eq!(detect_container(&event(1, 1, 0), &idx, &no_probes()), (false, "n/a".to_string()));
    let probes = ProcView {
        tgid_ns: Some("pid:[4026531836]".to_string()),
        pid_ns: Some("pid:[4026531836]".to_string()),
        tgid_cgroup: Some("0::/init.scope\n".to_string()),
        pid_cgroup: Some("0::/init.scope\n".to_string()),
    };
    assert_eq!(detect_container(&event(1, 1, 12), &idx, &probes), (false, "n/a".to_string()));
}

#[test]
fn container_id_from_cgroup_text() {
    let text = format!("0::/system.slice/docker-{}.scope", FULL_ID);
    assert_eq!(container_from_cgroup_text(&text, 1), Some("8576485edfec".to_string()));
    let text = format!("12:pids:/DOCKER/{}", FULL_ID.to_uppercase());
    assert_eq!(container_from_cgroup_text(&text, 1), Some("8576485EDFEC".to_string()));
    assert_eq!(container_from_cgroup_text("0::/containerd/abc", 42), Some("cg:42".to_string()));
    assert_eq!(container_from_cgroup_text("0::/user.slice", 42), None);
    let short = "0::/docker/0123456789a";
    assert_eq!(container_from_cgroup_text(short, 7), Some("cg:7".to_string()));
    let long = format!("0::/docker/{}0", FULL_ID);
    assert_eq!(container_from_cgroup_text(&long, 7), Some("cg:7".to_string()));
}

#[test]
fn cgroup_lowercasing_is_unicode_aware() {
    // KELVIN SIGN lowers to an ASCII 'k'.
    let text = "0::/Doc\u{212A}er/0123456789abcdef";
    assert_eq!(container_from_cgroup_text(text, 1), Some("0123456789ab".to_string()));
}

#[test]
fn cgroup_path_of_last_line_with_separator() {
    assert_eq!(cgroup_rel_path("0::/system.slice/docker-x.scope\n"), Some("/system.slice/docker-x.scope".to_string()));
    assert_eq!(cgroup_rel_path("1:name=systemd:/a\n0::/b\r\n"), Some("/b".to_string()));
    assert_eq!(cgroup_rel_path("0::/first\n1:cpu:/x\n"), Some("/first".to_string()));
    assert_eq!(cgroup_rel_path("0::/a::/b\n"), Some("/a".to_string()));
    assert_eq!(cgroup_rel_path("0::  /spaced  \n"), Some("/spaced".to_string()));
    assert_eq!(cgroup_rel_path("0::/a\n1::   \n"), None);
    assert_eq!(cgroup_rel_path("no separator here\n"), None);
    assert_eq!(cgroup_rel_path(""), None);
}

#[test]
fn cgroup_dir_under_mount() {
    assert_eq!(cgroup_dir_from_text("0::/system.slice/x\n"), Some("/sys/fs/cgroup/system.slice/x".to_string()));
    assert_eq!(cgroup_dir_from_text("0::rel/x\n"), Some("/sys/fs/cgroup/rel/x".to_string()));
    assert_eq!(cgroup_dir_from_text("0:cpu:/x\n"), None);
}

#[test]
fn inspect_output_parsing() {
    let out = format!("3755 {}\n", FULL_ID);
    let c = parse_inspect(out.as_bytes()).unwrap();
    assert_eq!(c.pid, 3755);
    assert_eq!(c.id, "8576485edfec");
    let c = parse_inspect(b"+12 abc").unwrap();
    assert_eq!((c.pid, c.id.as_str()), (12, "abc"));
    assert!(parse_inspect(b"0 abcdef").is_none());
    assert!(parse_inspect(b"x abcdef").is_none());
    assert!(parse_inspect(b"123").is_none());
    assert!(parse_inspect(b"").is_none());
    assert!(parse_inspect(b"4294967296 abc").is_none());
}

#[test]
fn ps_output_ids() {
    let ids = container_ids(b"8576485edfec\n8430102cfd11\n");
    assert_eq!(ids, vec!["8576485edfec".to_string(), "8430102cfd11".to_string()]);
    assert!(container_ids(b"  \n").is_empty());
}

#[test]
fn inspect_text_parsing() {
    let c = parse_inspect_text("  77\tabcdef012345678 extra").unwrap();
    assert_eq!((c.pid, c.id.as_str()), (77, "abcdef012345"));
    assert!(parse_inspect_text("77").is_none());
}

#[test]
fn lowered_text_decides_marker() {
    let text = "0::/X/0123456789abcdef";
    assert_eq!(container_from_lowered(text, "podman", 1), Some("0123456789ab".to_string()));
    assert_eq!(container_from_lowered(text, "0::/x/0123456789abcdef", 1), None);
    assert_eq!(container_from_lowered("0::/y", "libpod", 9), Some("cg:9".to_string()));
}
