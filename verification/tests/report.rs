use altair_ebpf::cli::Options;
use altair_ebpf::docker::{ContainerInfo, DockerIndex, ProcView};
use altair_ebpf::event::ExecEvent;
use altair_ebpf::report::{
    decimal_string, is_self_noise, render_alert, render_banner, render_event, render_info,
    render_json,
};
use altair_ebpf::severity::Severity;

fn event(tgid: u32, uid: u32, cgroup_id: u64, comm: &str, filename: &str) -> ExecEvent {
    let mut c = [0u8; 16];
    c[..comm.len()].copy_from_slice(comm.as_bytes());
    let mut f = [0u8; 256];
    f[..filename.len()].copy_from_slice(filename.as_bytes());
    ExecEvent { pid: tgid, tgid, uid, cgroup_id, comm: c, filename: f }
}

fn no_probes() -> ProcView {
    ProcView { tgid_ns: None, pid_ns: None, tgid_cgroup: None, pid_cgroup: None }
}

fn options(container_only: bool, min: Severity, json: bool, json_all: bool) -> Options {
    Options {
        container_only,
        min_severity: min,
        json_log: if json { Some("/tmp/altair.jsonl".to_string()) } else { None },
        json_all,
    }
}

fn index_with(cgroup: u64, id: &str) -> DockerIndex {
    let mut idx = DockerIndex::new();
    idx.record(ContainerInfo { id: id.to_string(), pid: 1 }, None, Some(cgroup));
    idx
}

#[test]
fn alert_block_of_documented_example() {
    let e = event(3755, 0, 2712, "sh", "/usr/bin/wget");
    let text = render_alert(
        Severity::High,
        &e,
        "sh",
        "/usr/bin/wget",
        "8576485edfec",
        true,
        "root network tool inside container",
    );
    let c = "\x1b[1;31m";
    let expected = format!(
        "{c}┌─ ALERT [CONTAINER/HIGH] ──────────────────────────\x1b[0m\n\
         {c}│\x1b[0m  PID         : 3755\n\
         {c}│\x1b[0m  UID         : 0\n\
         {c}│\x1b[0m  COMM        : sh\n\
         {c}│\x1b[0m  BINARY      : /usr/bin/wget\n\
         {c}│\x1b[0m  CONTAINER   : 8576485edfec\n\
         {c}│\x1b[0m  SEVERITY    : HIGH\n\
         {c}│\x1b[0m  REASON      : root network tool inside container\n\
         {c}└────────────────────────────────────────────────\x1b[0m\n\n"
    );
    assert_eq!(text, expected);
}

#[test]
fn alert_block_on_host_has_no_container_line() {
    let e = event(12, 0, 0, "bash", "/usr/bin/curl");
    let text = render_alert(Severity::Low, &e, "bash", "/usr/bin/curl", "n/a", false, "root network tool on host");
    assert!(text.starts_with("\x1b[1;33m┌─ ALERT [HOST/LOW]"));
    assert!(!text.contains("CONTAINER   :"));
    assert!(text.contains("│\x1b[0m  REASON      : root network tool on host\n"));
}

#[test]
fn info_lines_are_padded() {
    let e = event(42, 0, 0, "ls", "/bin/ls");
    assert_eq!(
        render_info(&e, "ls", "/bin/ls", "n/a", false),
        "\x1b[1;36m•\x1b[0m [\x1b[90mHOST\x1b[0m] pid=42     uid=0     comm=ls           \x1b[32m→\x1b[0m /bin/ls\n"
    );
    let e = event(1234567, 100000, 0, "averyverylongcmd", "/x");
    assert_eq!(
        render_info(&e, "averyverylongcmd", "/x", "8576485edfec", true),
        "\x1b[1;35m•\x1b[0m [\x1b[1;35mCONTAINER\x1b[0m] pid=1234567 uid=100000 comm=averyverylongcmd cid=8576485edfec   \x1b[32m→\x1b[0m /x\n"
    );
}

#[test]
fn json_line_of_documented_example() {
    let e = event(3048, 0, 2712, "sh", "/usr/bin/wget");
    let line = render_json(
        1788181756604,
        Severity::High,
        &e,
        "sh",
        "/usr/bin/wget",
        "8430102cfd11",
        true,
        "root network tool inside container",
    );
    assert_eq!(
        line,
        "{\"ts\":1788181756604,\"type\":\"alert\",\"scope\":\"CONTAINER\",\"severity\":\"HIGH\",\"pid\":3048,\"uid\":0,\"comm\":\"sh\",\"binary\":\"/usr/bin/wget\",\"container\":\"8430102cfd11\",\"cgroup_id\":2712,\"reason\":\"root network tool inside container\"}\n"
    );
}

#[test]
fn json_escapes_strings() {
    let e = event(1, 5, 0, "a\"b", "/t\\m\np\u{1}");
    let line = render_json(0, Severity::Info, &e, "a\"b", "/t\\m\np\u{1}\t\r", "n/a", false, "r");
    assert_eq!(
        line,
        "{\"ts\":0,\"type\":\"event\",\"scope\":\"HOST\",\"severity\":\"INFO\",\"pid\":1,\"uid\":5,\"comm\":\"a\\\"b\",\"binary\":\"/t\\\\m\\np\\u0001\\t\\r\",\"container\":\"n/a\",\"cgroup_id\":0,\"reason\":\"r\"}\n"
    );
    let line = render_json(0, Severity::Info, &e, "\u{1f}", "", "", false, "");
    assert!(line.contains("\"comm\":\"\\u001f\""));
}

#[test]
fn self_noise() {
    let e = event(77, 0, 0, "altair-ebpf", "/x");
    assert!(is_self_noise("altair-ebpf", "/x", &e, 1));
    assert!(is_self_noise("sh", "/usr/bin/docker", &e, 77));
    assert!(!is_self_noise("sh", "/usr/bin/docker", &e, 78));
    assert!(!is_self_noise("altair", "/usr/bin/dockerd", &e, 77));
}

#[test]
fn render_event_alert_in_container() {
    let e = event(3755, 0, 2712, "sh", "/usr/bin/wget");
    let idx = index_with(2712, "8576485edfec");
    let r = render_event(&e, &idx, &no_probes(), 1, &options(true, Severity::Medium, true, false), 99).unwrap();
    assert!(r.text.contains("ALERT [CONTAINER/HIGH]"));
    assert!(r.text.contains("CONTAINER   : 8576485edfec"));
    assert!(r.json.unwrap().starts_with("{\"ts\":99,\"type\":\"alert\",\"scope\":\"CONTAINER\""));
}

#[test]
fn render_event_filters() {
    let idx = index_with(2712, "8576485edfec");
    let host = event(10, 0, 0, "ls", "/bin/ls");
    assert!(render_event(&host, &idx, &no_probes(), 1, &options(true, Severity::Info, false, false), 0).is_none());
    let r = render_event(&host, &idx, &no_probes(), 1, &options(false, Severity::Info, true, false), 0).unwrap();
    assert!(r.text.contains("[\x1b[90mHOST\x1b[0m] pid=10"));
    assert!(r.json.is_none());
    let r = render_event(&host, &idx, &no_probes(), 1, &options(false, Severity::Info, true, true), 5).unwrap();
    assert!(r.json.unwrap().starts_with("{\"ts\":5,\"type\":\"event\",\"scope\":\"HOST\",\"severity\":\"INFO\""));
    let shell = event(11, 1000, 2712, "bash", "/bin/bash");
    assert!(render_event(&shell, &idx, &no_probes(), 1, &options(false, Severity::Medium, false, false), 0).is_none());
    let r = render_event(&shell, &idx, &no_probes(), 1, &options(false, Severity::Low, false, false), 0).unwrap();
    assert!(r.text.contains("ALERT [CONTAINER/LOW]"));
    let me = event(12, 0, 2712, "altair-ebpf", "/bin/sh");
    assert!(render_event(&me, &idx, &no_probes(), 1, &options(false, Severity::Info, true, true), 0).is_none());
}

#[test]
fn banner_reports_mode_and_minimum() {
    let b = render_banner(true, Severity::Medium);
    assert!(b.starts_with("\n╔"));
    assert!(b.contains("ALTAIR eBPF Runtime Detector"));
    assert!(b.contains("Mode: \x1b[1;35mCONTAINER-ONLY"));
    assert!(b.ends_with("Min severity: \x1b[1;36mMEDIUM\x1b[0m\n"));
    let b = render_banner(false, Severity::Info);
    assert!(b.contains("Mode: \x1b[1;36mALL EVENTS"));
}

#[test]
fn decimal_rendering() {
    assert_eq!(decimal_string(0), "0");
    assert_eq!(decimal_string(10), "10");
    assert_eq!(decimal_string(u64::MAX), "18446744073709551615");
}
