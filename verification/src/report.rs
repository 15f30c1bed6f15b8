use vstd::prelude::*;
use vstd::string::*;
use crate::cli::Options;
use crate::docker::{detect_container, detect_view, opt_view, DockerIndex, ProcView};
use crate::event::{comm_text_spec, filename_text_spec, ExecEvent};
use crate::rules::{evaluate_rules, rules_spec};
use crate::severity::{color_of, label_of, rank_of, Severity};
use crate::text::{
    chars_of, contains_seq, decimal, ends_with_seq, ends_with_str, eq_str, json_escape, padded, push_decimal,
    push_json_escaped, push_padded,
};

verus! {

/// The name under which the monitor itself runs.
pub open spec fn self_comm() -> Seq<char> {
    "altair-ebpf"@
}

/// Whether an execution is the monitor's own activity: the monitor itself, or
/// a `docker` binary run by the monitor's own process.
pub open spec fn self_noise_spec(comm: Seq<char>, filename: Seq<char>, e: ExecEvent, self_pid: u32) -> bool {
    comm == self_comm() || (e.tgid == self_pid && ends_with_seq(filename, "/docker"@))
}

/// Whether the execution is the monitor's own activity (see `self_noise_spec`);
/// `self_pid` is the id of the monitor's process.
pub fn is_self_noise(comm: &str, filename: &str, event: &ExecEvent, self_pid: u32) -> (r: bool)
    ensures
        r == self_noise_spec(comm@, filename@, *event, self_pid),
{
    if eq_str(&chars_of(comm), "altair-ebpf") {
        return true;
    }
    if event.tgid == self_pid && ends_with_str(&chars_of(filename), "/docker") {
        return true;
    }
    false
}

/// The decimal rendering of a number as a string.
pub fn decimal_string(n: u64) -> (r: String)
    ensures
        r@ == decimal(n as nat),
{
    let mut s = String::new();
    push_decimal(&mut s, n);
    s
}

/// The scope word of an event.
pub open spec fn scope_of(is_container: bool) -> Seq<char> {
    if is_container {
        "CONTAINER"@
    } else {
        "HOST"@
    }
}

/// The framed alert block printed for an event rated above `Info`.
pub open spec fn alert_text(
    severity: Severity,
    e: ExecEvent,
    comm: Seq<char>,
    filename: Seq<char>,
    container_id: Seq<char>,
    is_container: bool,
    reason: Seq<char>,
) -> Seq<char> {
    let c = color_of(severity);
    c + "┌─ ALERT ["@ + scope_of(is_container) + "/"@ + label_of(severity)
        + "] ──────────────────────────\x1b[0m\n"@
        + c + "│\x1b[0m  PID         : "@ + decimal(e.tgid as nat) + "\n"@
        + c + "│\x1b[0m  UID         : "@ + decimal(e.uid as nat) + "\n"@
        + c + "│\x1b[0m  COMM        : "@ + comm + "\n"@
        + c + "│\x1b[0m  BINARY      : "@ + filename + "\n"@
        + (if is_container {
        c + "│\x1b[0m  CONTAINER   : "@ + container_id + "\n"@
    } else {
        Seq::<char>::empty()
    }) + c + "│\x1b[0m  SEVERITY    : "@ + label_of(severity) + "\n"@
        + c + "│\x1b[0m  REASON      : "@ + reason + "\n"@
        + c + "└────────────────────────────────────────────────\x1b[0m\n\n"@
}

/// Renders the framed alert block (see `alert_text`).
pub fn render_alert(
    severity: Severity,
    event: &ExecEvent,
    comm: &str,
    filename: &str,
    container_id: &str,
    is_container: bool,
    reason: &str,
) -> (r: String)
    ensures
        r@ == alert_text(severity, *event, comm@, filename@, container_id@, is_container, reason@),
{
    let c = severity.color();
    let scope = if is_container {
        "CONTAINER"
    } else {
        "HOST"
    };
    let mut out = String::from_str(c);
    out.append("┌─ ALERT [");
    out.append(scope);
    out.append("/");
    out.append(severity.as_str());
    out.append("] ──────────────────────────\x1b[0m\n");
    out.append(c);
    out.append("│\x1b[0m  PID         : ");
    push_decimal(&mut out, event.tgid as u64);
    out.append("\n");
    out.append(c);
    out.append("│\x1b[0m  UID         : ");
    push_decimal(&mut out, event.uid as u64);
    out.append("\n");
    out.append(c);
    out.append("│\x1b[0m  COMM        : ");
    out.append(comm);
    out.append("\n");
    out.append(c);
    out.append("│\x1b[0m  BINARY      : ");
    out.append(filename);
    out.append("\n");
    let ghost head = out@;
    if is_container {
        out.append(c);
        out.append("│\x1b[0m  CONTAINER   : ");
        out.append(container_id);
        out.append("\n");
    }
    let ghost mid = out@;
    out.append(c);
    out.append("│\x1b[0m  SEVERITY    : ");
    out.append(severity.as_str());
    out.append("\n");
    out.append(c);
    out.append("│\x1b[0m  REASON      : ");
    out.append(reason);
    out.append("\n");
    out.append(c);
    out.append("└────────────────────────────────────────────────\x1b[0m\n\n");
    assert(out@ =~= alert_text(severity, *event, comm@, filename@, container_id@, is_container, reason@));
    out
}

/// The one-line report printed for an `Info` event.
pub open spec fn info_text(
    e: ExecEvent,
    comm: Seq<char>,
    filename: Seq<char>,
    container_id: Seq<char>,
    is_container: bool,
) -> Seq<char> {
    if is_container {
        "\x1b[1;35m•\x1b[0m [\x1b[1;35mCONTAINER\x1b[0m] pid="@ + padded(decimal(e.tgid as nat), 6)
            + " uid="@ + padded(decimal(e.uid as nat), 5) + " comm="@ + padded(comm, 12)
            + " cid="@ + padded(container_id, 14) + " \x1b[32m→\x1b[0m "@ + filename + "\n"@
    } else {
        "\x1b[1;36m•\x1b[0m [\x1b[90mHOST\x1b[0m] pid="@ + padded(decimal(e.tgid as nat), 6)
            + " uid="@ + padded(decimal(e.uid as nat), 5) + " comm="@ + padded(comm, 12)
            + " \x1b[32m→\x1b[0m "@ + filename + "\n"@
    }
}

/// Renders the one-line report of an `Info` event (see `info_text`).
pub fn render_info(
    event: &ExecEvent,
    comm: &str,
    filename: &str,
    container_id: &str,
    is_container: bool,
) -> (r: String)
    ensures
        r@ == info_text(*event, comm@, filename@, container_id@, is_container),
{
    let pid = decimal_string(event.tgid as u64);
    let uid = decimal_string(event.uid as u64);
    let mut out = if is_container {
        String::from_str("\x1b[1;35m•\x1b[0m [\x1b[1;35mCONTAINER\x1b[0m] pid=")
    } else {
        String::from_str("\x1b[1;36m•\x1b[0m [\x1b[90mHOST\x1b[0m] pid=")
    };
    push_padded(&mut out, pid.as_str(), 6);
    out.append(" uid=");
    push_padded(&mut out, uid.as_str(), 5);
    out.append(" comm=");
    push_padded(&mut out, comm, 12);
    if is_container {
        out.append(" cid=");
        push_padded(&mut out, container_id, 14);
    }
    out.append(" \x1b[32m→\x1b[0m ");
    out.append(filename);
    out.append("\n");
    assert(out@ =~= info_text(*event, comm@, filename@, container_id@, is_container));
    out
}

/// What is printed for an event, if anything: nothing for the monitor's own
/// activity, for a host event when only containers are watched, or for a
/// rating below the minimum; otherwise an alert block for a rating above
/// `Info` and a one-line report for `Info`.
pub open spec fn report_spec(
    e: ExecEvent,
    docker: DockerIndex,
    probes: ProcView,
    self_pid: u32,
    container_only: bool,
    min_severity: Severity,
) -> Option<Seq<char>> {
    let comm = comm_text_spec(e);
    let filename = filename_text_spec(e);
    let (is_container, cid) = detect_view(e, docker, probes);
    let (severity, reason) = rules_spec(is_container, e.uid, filename);
    if self_noise_spec(comm, filename, e, self_pid) {
        None
    } else if container_only && !is_container {
        None
    } else if rank_of(severity) < rank_of(min_severity) {
        None
    } else if severity != Severity::Info {
        Some(alert_text(severity, e, comm, filename, cid, is_container, reason))
    } else {
        Some(info_text(e, comm, filename, cid, is_container))
    }
}

/// The JSON line logged for an event: time stamp in milliseconds, `alert` or
/// `event`, scope, severity, pid, uid, command name, binary, container id,
/// cgroup id and reason.
pub open spec fn json_text(
    ts_ms: u64,
    severity: Severity,
    e: ExecEvent,
    comm: Seq<char>,
    filename: Seq<char>,
    container_id: Seq<char>,
    is_container: bool,
    reason: Seq<char>,
) -> Seq<char> {
    "{\"ts\":"@ + decimal(ts_ms as nat) + ",\"type\":\""@ + (if severity != Severity::Info {
        "alert"@
    } else {
        "event"@
    }) + "\",\"scope\":\""@ + scope_of(is_container) + "\",\"severity\":\""@ + label_of(severity)
        + "\",\"pid\":"@ + decimal(e.tgid as nat) + ",\"uid\":"@ + decimal(e.uid as nat)
        + ",\"comm\":\""@ + json_escape(comm) + "\",\"binary\":\""@ + json_escape(filename)
        + "\",\"container\":\""@ + json_escape(container_id) + "\",\"cgroup_id\":"@ + decimal(
        e.cgroup_id as nat,
    ) + ",\"reason\":\""@ + json_escape(reason) + "\"}\n"@
}

/// Renders the JSON line of an event (see `json_text`).
pub fn render_json(
    ts_ms: u64,
    severity: Severity,
    event: &ExecEvent,
    comm: &str,
    filename: &str,
    container_id: &str,
    is_container: bool,
    reason: &str,
) -> (r: String)
    ensures
        r@ == json_text(ts_ms, severity, *event, comm@, filename@, container_id@, is_container, reason@),
{
    let mut out = String::from_str("{\"ts\":");
    push_decimal(&mut out, ts_ms);
    out.append(",\"type\":\"");
    if severity != Severity::Info {
        out.append("alert");
    } else {
        out.append("event");
    }
    out.append("\",\"scope\":\"");
    if is_container {
        out.append("CONTAINER");
    } else {
        out.append("HOST");
    }
    out.append("\",\"severity\":\"");
    out.append(severity.as_str());
    out.append("\",\"pid\":");
    push_decimal(&mut out, event.tgid as u64);
    out.append(",\"uid\":");
    push_decimal(&mut out, event.uid as u64);
    out.append(",\"comm\":\"");
    push_json_escaped(&mut out, comm);
    out.append("\",\"binary\":\"");
    push_json_escaped(&mut out, filename);
    out.append("\",\"container\":\"");
    push_json_escaped(&mut out, container_id);
    out.append("\",\"cgroup_id\":");
    push_decimal(&mut out, event.cgroup_id);
    out.append(",\"reason\":\"");
    push_json_escaped(&mut out, reason);
    out.append("\"}\n");
    assert(out@ =~= json_text(
        ts_ms,
        severity,
        *event,
        comm@,
        filename@,
        container_id@,
        is_container,
        reason@,
    ));
    out
}

/// The JSON line logged for an event, if any: only for a printed event, only
/// when logging is on, and only for an alert unless every printed event is
/// logged.
pub open spec fn json_spec(
    e: ExecEvent,
    docker: DockerIndex,
    probes: ProcView,
    self_pid: u32,
    container_only: bool,
    min_severity: Severity,
    json_log: bool,
    json_all: bool,
    ts_ms: u64,
) -> Option<Seq<char>> {
    let comm = comm_text_spec(e);
    let filename = filename_text_spec(e);
    let (is_container, cid) = detect_view(e, docker, probes);
    let (severity, reason) = rules_spec(is_container, e.uid, filename);
    if report_spec(e, docker, probes, self_pid, container_only, min_severity) is Some && json_log && (
    severity != Severity::Info || json_all) {
        Some(json_text(ts_ms, severity, e, comm, filename, cid, is_container, reason))
    } else {
        None
    }
}

/// What is output for one event: the text to print and the JSON line to log.
pub struct Report {
    pub text: String,
    pub json: Option<String>,
}

/// Decides what to print and log for an event (see `report_spec` and
/// `json_spec`). `self_pid` is the id of the monitor's process; `probes` is
/// what `/proc` showed of the event's thread group and thread; `ts_ms` is the
/// time in milliseconds since the epoch.
pub fn render_event(
    event: &ExecEvent,
    docker: &DockerIndex,
    probes: &ProcView,
    self_pid: u32,
    options: &Options,
    ts_ms: u64,
) -> (r: Option<Report>)
    ensures
        match r {
            Some(rep) => {
                &&& report_spec(
                    *event,
                    *docker,
                    *probes,
                    self_pid,
                    options.container_only,
                    options.min_severity,
                ) == Some(rep.text@)
                &&& opt_view(rep.json) == json_spec(
                    *event,
                    *docker,
                    *probes,
                    self_pid,
                    options.container_only,
                    options.min_severity,
                    options.json_log is Some,
                    options.json_all,
                    ts_ms,
                )
            },
            None => report_spec(
                *event,
                *docker,
                *probes,
                self_pid,
                options.container_only,
                options.min_severity,
            ) is None,
        },
{
    let comm = event.comm_text();
    let filename = event.filename_text();
    if is_self_noise(comm.as_str(), filename.as_str(), event, self_pid) {
        return None;
    }
    let (is_container, container_id) = detect_container(event, docker, probes);
    if options.container_only && !is_container {
        return None;
    }
    let findings = evaluate_rules(is_container, event.uid, filename.as_str());
    if findings.severity.rank() < options.min_severity.rank() {
        return None;
    }
    let json = if options.json_log.is_some() && (findings.severity != Severity::Info
        || options.json_all) {
        Some(
            render_json(
                ts_ms,
                findings.severity,
                event,
                comm.as_str(),
                filename.as_str(),
                container_id.as_str(),
                is_container,
                findings.reason,
            ),
        )
    } else {
        None
    };
    let text = if findings.severity != Severity::Info {
        render_alert(
            findings.severity,
            event,
            comm.as_str(),
            filename.as_str(),
            container_id.as_str(),
            is_container,
            findings.reason,
        )
    } else {
        render_info(event, comm.as_str(), filename.as_str(), container_id.as_str(), is_container)
    };
    Some(Report { text, json })
}

/// Raising the minimum severity never makes an event appear: whatever is
/// printed under a minimum is printed, unchanged, under every lower one.
pub proof fn lemma_min_severity_monotone(
    e: ExecEvent,
    docker: DockerIndex,
    probes: ProcView,
    self_pid: u32,
    container_only: bool,
    lower: Severity,
    higher: Severity,
)
    requires
        rank_of(lower) <= rank_of(higher),
        report_spec(e, docker, probes, self_pid, container_only, higher) is Some,
    ensures
        report_spec(e, docker, probes, self_pid, container_only, lower) == report_spec(
            e,
            docker,
            probes,
            self_pid,
            container_only,
            higher,
        ),
{
}

/// Every printed event is rated at least the minimum severity.
pub proof fn lemma_report_meets_minimum(
    e: ExecEvent,
    docker: DockerIndex,
    probes: ProcView,
    self_pid: u32,
    container_only: bool,
    min_severity: Severity,
)
    requires
        report_spec(e, docker, probes, self_pid, container_only, min_severity) is Some,
    ensures
        rank_of(rules_spec(detect_view(e, docker, probes).0, e.uid, filename_text_spec(e)).0)
            >= rank_of(min_severity),
{
}

/// When only containers are watched, every printed event was found to run in
/// a container.
pub proof fn lemma_container_only_reports_containers(
    e: ExecEvent,
    docker: DockerIndex,
    probes: ProcView,
    self_pid: u32,
    min_severity: Severity,
)
    requires
        report_spec(e, docker, probes, self_pid, true, min_severity) is Some,
    ensures
        detect_view(e, docker, probes).0,
{
}

/// The monitor's own activity is never printed.
pub proof fn lemma_self_noise_silent(
    e: ExecEvent,
    docker: DockerIndex,
    probes: ProcView,
    self_pid: u32,
    container_only: bool,
    min_severity: Severity,
)
    requires
        self_noise_spec(comm_text_spec(e), filename_text_spec(e), e, self_pid),
    ensures
        report_spec(e, docker, probes, self_pid, container_only, min_severity) is None,
{
}

/// With the defaults (all events, minimum `Info`) every event but the
/// monitor's own activity is printed.
pub proof fn lemma_defaults_print_everything(
    e: ExecEvent,
    docker: DockerIndex,
    probes: ProcView,
    self_pid: u32,
)
    requires
        !self_noise_spec(comm_text_spec(e), filename_text_spec(e), e, self_pid),
    ensures
        report_spec(e, docker, probes, self_pid, false, Severity::Info) is Some,
{
}

/// Without `--json-all` only alerts are logged: a logged event is rated above
/// `Info`.
pub proof fn lemma_json_alerts_only_by_default(
    e: ExecEvent,
    docker: DockerIndex,
    probes: ProcView,
    self_pid: u32,
    container_only: bool,
    min_severity: Severity,
    ts_ms: u64,
)
    requires
        json_spec(e, docker, probes, self_pid, container_only, min_severity, true, false, ts_ms) is Some,
    ensures
        rules_spec(detect_view(e, docker, probes).0, e.uid, filename_text_spec(e)).0 != Severity::Info,
{
}

/// Only printed events are logged; with `--json-all` every printed event is.
pub proof fn lemma_json_follows_print(
    e: ExecEvent,
    docker: DockerIndex,
    probes: ProcView,
    self_pid: u32,
    container_only: bool,
    min_severity: Severity,
    json_all: bool,
    ts_ms: u64,
)
    ensures
        json_spec(e, docker, probes, self_pid, container_only, min_severity, true, json_all, ts_ms)
            is Some ==> report_spec(e, docker, probes, self_pid, container_only, min_severity) is Some,
        report_spec(e, docker, probes, self_pid, container_only, min_severity) is Some ==> json_spec(
            e,
            docker,
            probes,
            self_pid,
            container_only,
            min_severity,
            true,
            true,
            ts_ms,
        ) is Some,
        json_spec(e, docker, probes, self_pid, container_only, min_severity, false, json_all, ts_ms)
            is None,
{
}

/// The title block of the monitor.
pub open spec fn banner_title() -> Seq<char> {
    "\n╔══════════════════════════════════════════════════════╗\n║              ALTAIR eBPF Runtime Detector            ║\n║    Container Awareness + Severity Rules • Rust/Aya   ║\n╚══════════════════════════════════════════════════════╝\n\n"@
}

/// The start-up banner: the title block, the watch mode and the minimum
/// severity.
pub open spec fn banner_text(container_only: bool, min_severity: Severity) -> Seq<char> {
    banner_title() + (if container_only {
        "\x1b[1;35m[*]\x1b[0m Mode: \x1b[1;35mCONTAINER-ONLY\x1b[0m\n"@
    } else {
        "\x1b[1;36m[*]\x1b[0m Mode: \x1b[1;36mALL EVENTS\x1b[0m\n"@
    }) + "\x1b[1;36m[*]\x1b[0m Min severity: \x1b[1;36m"@ + label_of(min_severity) + "\x1b[0m\n"@
}

/// Renders the start-up banner (see `banner_text`).
pub fn render_banner(container_only: bool, min_severity: Severity) -> (r: String)
    ensures
        r@ == banner_text(container_only, min_severity),
{
    let mut out = String::from_str(
        "\n╔══════════════════════════════════════════════════════╗\n║              ALTAIR eBPF Runtime Detector            ║\n║    Container Awareness + Severity Rules • Rust/Aya   ║\n╚══════════════════════════════════════════════════════╝\n\n",
    );
    if container_only {
        out.append("\x1b[1;35m[*]\x1b[0m Mode: \x1b[1;35mCONTAINER-ONLY\x1b[0m\n");
    } else {
        out.append("\x1b[1;36m[*]\x1b[0m Mode: \x1b[1;36mALL EVENTS\x1b[0m\n");
    }
    out.append("\x1b[1;36m[*]\x1b[0m Min severity: \x1b[1;36m");
    out.append(min_severity.as_str());
    out.append("\x1b[0m\n");
    assert(out@ =~= banner_text(container_only, min_severity));
    out
}


proof fn lemma_contains_middle(a: Seq<char>, b: Seq<char>, c: Seq<char>)
    ensures
        contains_seq(a + b + c, b),
{
    assert((a + b + c).subrange(a.len() as int, (a.len() + b.len()) as int) =~= b);
}

/// Every alert block opens with the coloured header naming the scope and the
/// severity, holds one line each for the pid (of the thread group), the uid,
/// the command name, the executed binary, the severity and the reason — and
/// the container id for a container event — and closes with the footer.
pub proof fn lemma_alert_lines(
    severity: Severity,
    e: ExecEvent,
    comm: Seq<char>,
    filename: Seq<char>,
    container_id: Seq<char>,
    is_container: bool,
    reason: Seq<char>,
)
    ensures
        ({
            let t = alert_text(severity, e, comm, filename, container_id, is_container, reason);
            let c = color_of(severity);
            let head = c + "┌─ ALERT ["@ + (if is_container {
                "CONTAINER"@
            } else {
                "HOST"@
            }) + "/"@ + label_of(severity) + "] ──────────────────────────\x1b[0m\n"@;
            let foot = c + "└────────────────────────────────────────────────\x1b[0m\n\n"@;
            &&& t.take(head.len() as int) == head
            &&& t.skip(t.len() - foot.len()) == foot
            &&& contains_seq(t, c + "│\x1b[0m  PID         : "@ + decimal(e.tgid as nat) + "\n"@)
            &&& contains_seq(t, c + "│\x1b[0m  UID         : "@ + decimal(e.uid as nat) + "\n"@)
            &&& contains_seq(t, c + "│\x1b[0m  COMM        : "@ + comm + "\n"@)
            &&& contains_seq(t, c + "│\x1b[0m  BINARY      : "@ + filename + "\n"@)
            &&& contains_seq(t, c + "│\x1b[0m  SEVERITY    : "@ + label_of(severity) + "\n"@)
            &&& contains_seq(t, c + "│\x1b[0m  REASON      : "@ + reason + "\n"@)
            &&& is_container ==> contains_seq(
                t,
                c + "│\x1b[0m  CONTAINER   : "@ + container_id + "\n"@,
            )
        }),
{
    let t = alert_text(severity, e, comm, filename, container_id, is_container, reason);
    let c = color_of(severity);
    let nl = "\n"@;
    let head = c + "┌─ ALERT ["@ + (if is_container {
        "CONTAINER"@
    } else {
        "HOST"@
    }) + "/"@ + label_of(severity) + "] ──────────────────────────\x1b[0m\n"@;
    let (l1, v1) = ("│\x1b[0m  PID         : "@, decimal(e.tgid as nat));
    let (l2, v2) = ("│\x1b[0m  UID         : "@, decimal(e.uid as nat));
    let (l3, v3) = ("│\x1b[0m  COMM        : "@, comm);
    let (l4, v4) = ("│\x1b[0m  BINARY      : "@, filename);
    let (l5, v5) = ("│\x1b[0m  CONTAINER   : "@, container_id);
    let (l6, v6) = ("│\x1b[0m  SEVERITY    : "@, label_of(severity));
    let (l7, v7) = ("│\x1b[0m  REASON      : "@, reason);
    let footlit = "└────────────────────────────────────────────────\x1b[0m\n\n"@;
    let p1 = head + c + l1 + v1 + nl;
    let p2 = p1 + c + l2 + v2 + nl;
    let p3 = p2 + c + l3 + v3 + nl;
    let p4 = p3 + c + l4 + v4 + nl;
    let cont = if is_container {
        c + l5 + v5 + nl
    } else {
        Seq::<char>::empty()
    };
    let p5 = p4 + cont;
    let p6 = p5 + c + l6 + v6 + nl;
    let p7 = p6 + c + l7 + v7 + nl;
    assert(t == p7 + c + footlit);
    // the header is a prefix
    assert(head.take(head.len() as int) =~= head);
    lemma_prefix_extend4(head, c, l1, v1, nl, head);
    lemma_prefix_extend4(p1, c, l2, v2, nl, head);
    lemma_prefix_extend4(p2, c, l3, v3, nl, head);
    lemma_prefix_extend4(p3, c, l4, v4, nl, head);
    lemma_prefix_extend1(p4, cont, head);
    lemma_prefix_extend4(p5, c, l6, v6, nl, head);
    lemma_prefix_extend4(p6, c, l7, v7, nl, head);
    lemma_prefix_extend1(p7, c, head);
    lemma_prefix_extend1(p7 + c, footlit, head);
    // the footer is a suffix
    assert(t =~= p7 + (c + footlit));
    assert(t.skip(t.len() - (c + footlit).len()) =~= c + footlit);
    // each line occurs
    lemma_line(head, c, l1, v1, nl);
    lemma_extend_to_end(p1, p2, p3, p4, cont, p5, p6, p7, c, footlit, l2, l3, l4, l6, l7, v2, v3, v4, v6, v7, nl, c + l1 + v1 + nl);
    lemma_line(p1, c, l2, v2, nl);
    lemma_extend_from2(p2, p3, p4, cont, p5, p6, p7, c, footlit, l3, l4, l6, l7, v3, v4, v6, v7, nl, c + l2 + v2 + nl);
    lemma_line(p2, c, l3, v3, nl);
    lemma_extend_from3(p3, p4, cont, p5, p6, p7, c, footlit, l4, l6, l7, v4, v6, v7, nl, c + l3 + v3 + nl);
    lemma_line(p3, c, l4, v4, nl);
    lemma_extend_from4(p4, cont, p5, p6, p7, c, footlit, l6, l7, v6, v7, nl, c + l4 + v4 + nl);
    lemma_line(p5, c, l6, v6, nl);
    lemma_extend_from6(p6, p7, c, footlit, l7, v7, nl, c + l6 + v6 + nl);
    lemma_line(p6, c, l7, v7, nl);
    lemma_extend_from7(p7, c, footlit, c + l7 + v7 + nl);
    if is_container {
        assert(p5 =~= p4 + (c + l5 + v5 + nl));
        lemma_contains_suffix(p4, c + l5 + v5 + nl);
        lemma_extend_from4b(p5, p6, p7, c, footlit, l6, l7, v6, v7, nl, c + l5 + v5 + nl);
    }
}

proof fn lemma_contains_suffix(x: Seq<char>, y: Seq<char>)
    ensures
        contains_seq(x + y, y),
{
    assert((x + y).subrange(x.len() as int, (x.len() + y.len()) as int) =~= y);
}

proof fn lemma_contains_extend(x: Seq<char>, y: Seq<char>, b: Seq<char>)
    requires
        contains_seq(x, b),
    ensures
        contains_seq(x + y, b),
{
    let i = choose|i: int| 0 <= i && i + b.len() <= x.len() && #[trigger] x.subrange(i, i + b.len()) == b;
    assert((x + y).subrange(i, i + b.len()) =~= x.subrange(i, i + b.len()));
}

proof fn lemma_extend4(x: Seq<char>, a: Seq<char>, b: Seq<char>, c: Seq<char>, d: Seq<char>, l: Seq<char>)
    requires
        contains_seq(x, l),
    ensures
        contains_seq(x + a + b + c + d, l),
{
    lemma_contains_extend(x, a, l);
    lemma_contains_extend(x + a, b, l);
    lemma_contains_extend(x + a + b, c, l);
    lemma_contains_extend(x + a + b + c, d, l);
}

proof fn lemma_line(p: Seq<char>, c: Seq<char>, l: Seq<char>, v: Seq<char>, nl: Seq<char>)
    ensures
        contains_seq(p + c + l + v + nl, c + l + v + nl),
{
    assert(p + c + l + v + nl =~= p + (c + l + v + nl));
    lemma_contains_suffix(p, c + l + v + nl);
}

proof fn lemma_extend_from7(p7: Seq<char>, c: Seq<char>, footlit: Seq<char>, x: Seq<char>)
    requires
        contains_seq(p7, x),
    ensures
        contains_seq(p7 + c + footlit, x),
{
    lemma_contains_extend(p7, c, x);
    lemma_contains_extend(p7 + c, footlit, x);
}

proof fn lemma_extend_from6(
    p6: Seq<char>, p7: Seq<char>, c: Seq<char>, footlit: Seq<char>, l7: Seq<char>, v7: Seq<char>,
    nl: Seq<char>, x: Seq<char>,
)
    requires
        contains_seq(p6, x),
        p7 == p6 + c + l7 + v7 + nl,
    ensures
        contains_seq(p7 + c + footlit, x),
{
    lemma_extend4(p6, c, l7, v7, nl, x);
    lemma_extend_from7(p7, c, footlit, x);
}

proof fn lemma_extend_from4b(
    p5: Seq<char>, p6: Seq<char>, p7: Seq<char>, c: Seq<char>, footlit: Seq<char>,
    l6: Seq<char>, l7: Seq<char>, v6: Seq<char>, v7: Seq<char>, nl: Seq<char>, x: Seq<char>,
)
    requires
        contains_seq(p5, x),
        p6 == p5 + c + l6 + v6 + nl,
        p7 == p6 + c + l7 + v7 + nl,
    ensures
        contains_seq(p7 + c + footlit, x),
{
    lemma_extend4(p5, c, l6, v6, nl, x);
    lemma_extend_from6(p6, p7, c, footlit, l7, v7, nl, x);
}

proof fn lemma_extend_from4(
    p4: Seq<char>, cont: Seq<char>, p5: Seq<char>, p6: Seq<char>, p7: Seq<char>, c: Seq<char>,
    footlit: Seq<char>, l6: Seq<char>, l7: Seq<char>, v6: Seq<char>, v7: Seq<char>, nl: Seq<char>,
    x: Seq<char>,
)
    requires
        contains_seq(p4, x),
        p5 == p4 + cont,
        p6 == p5 + c + l6 + v6 + nl,
        p7 == p6 + c + l7 + v7 + nl,
    ensures
        contains_seq(p7 + c + footlit, x),
{
    lemma_contains_extend(p4, cont, x);
    lemma_extend_from4b(p5, p6, p7, c, footlit, l6, l7, v6, v7, nl, x);
}

proof fn lemma_extend_from3(
    p3: Seq<char>, p4: Seq<char>, cont: Seq<char>, p5: Seq<char>, p6: Seq<char>, p7: Seq<char>,
    c: Seq<char>, footlit: Seq<char>, l4: Seq<char>, l6: Seq<char>, l7: Seq<char>, v4: Seq<char>,
    v6: Seq<char>, v7: Seq<char>, nl: Seq<char>, x: Seq<char>,
)
    requires
        contains_seq(p3, x),
        p4 == p3 + c + l4 + v4 + nl,
        p5 == p4 + cont,
        p6 == p5 + c + l6 + v6 + nl,
        p7 == p6 + c + l7 + v7 + nl,
    ensures
        contains_seq(p7 + c + footlit, x),
{
    lemma_extend4(p3, c, l4, v4, nl, x);
    lemma_extend_from4(p4, cont, p5, p6, p7, c, footlit, l6, l7, v6, v7, nl, x);
}

proof fn lemma_extend_from2(
    p2: Seq<char>, p3: Seq<char>, p4: Seq<char>, cont: Seq<char>, p5: Seq<char>, p6: Seq<char>,
    p7: Seq<char>, c: Seq<char>, footlit: Seq<char>, l3: Seq<char>, l4: Seq<char>, l6: Seq<char>,
    l7: Seq<char>, v3: Seq<char>, v4: Seq<char>, v6: Seq<char>, v7: Seq<char>, nl: Seq<char>,
    x: Seq<char>,
)
    requires
        contains_seq(p2, x),
        p3 == p2 + c + l3 + v3 + nl,
        p4 == p3 + c + l4 + v4 + nl,
        p5 == p4 + cont,
        p6 == p5 + c + l6 + v6 + nl,
        p7 == p6 + c + l7 + v7 + nl,
    ensures
        contains_seq(p7 + c + footlit, x),
{
    lemma_extend4(p2, c, l3, v3, nl, x);
    lemma_extend_from3(p3, p4, cont, p5, p6, p7, c, footlit, l4, l6, l7, v4, v6, v7, nl, x);
}

proof fn lemma_extend_to_end(
    p1: Seq<char>, p2: Seq<char>, p3: Seq<char>, p4: Seq<char>, cont: Seq<char>, p5: Seq<char>,
    p6: Seq<char>, p7: Seq<char>, c: Seq<char>, footlit: Seq<char>, l2: Seq<char>, l3: Seq<char>,
    l4: Seq<char>, l6: Seq<char>, l7: Seq<char>, v2: Seq<char>, v3: Seq<char>, v4: Seq<char>,
    v6: Seq<char>, v7: Seq<char>, nl: Seq<char>, x: Seq<char>,
)
    requires
        contains_seq(p1, x),
        p2 == p1 + c + l2 + v2 + nl,
        p3 == p2 + c + l3 + v3 + nl,
        p4 == p3 + c + l4 + v4 + nl,
        p5 == p4 + cont,
        p6 == p5 + c + l6 + v6 + nl,
        p7 == p6 + c + l7 + v7 + nl,
    ensures
        contains_seq(p7 + c + footlit, x),
{
    lemma_extend4(p1, c, l2, v2, nl, x);
    lemma_extend_from2(p2, p3, p4, cont, p5, p6, p7, c, footlit, l3, l4, l6, l7, v3, v4, v6, v7, nl, x);
}

proof fn lemma_prefix_extend1(u: Seq<char>, y: Seq<char>, h: Seq<char>)
    requires
        h.len() <= u.len(),
        u.take(h.len() as int) == h,
    ensures
        h.len() <= (u + y).len(),
        (u + y).take(h.len() as int) == h,
{
    assert((u + y).take(h.len() as int) =~= u.take(h.len() as int));
}

proof fn lemma_prefix_extend4(u: Seq<char>, a: Seq<char>, b: Seq<char>, c: Seq<char>, d: Seq<char>, h: Seq<char>)
    requires
        h.len() <= u.len(),
        u.take(h.len() as int) == h,
    ensures
        h.len() <= (u + a + b + c + d).len(),
        (u + a + b + c + d).take(h.len() as int) == h,
{
    lemma_prefix_extend1(u, a, h);
    lemma_prefix_extend1(u + a, b, h);
    lemma_prefix_extend1(u + a + b, c, h);
    lemma_prefix_extend1(u + a + b + c, d, h);
}

/// An `Info` event is printed as one line: its scope marker, its pid and uid
/// padded to 6 and 5 columns, its decoded command name padded to 12 columns,
/// for a container event the container id padded to 14 columns, then an arrow
/// and its decoded executed path.
pub proof fn lemma_info_line_fields(
    e: ExecEvent,
    docker: DockerIndex,
    probes: ProcView,
    self_pid: u32,
    container_only: bool,
    min_severity: Severity,
)
    requires
        report_spec(e, docker, probes, self_pid, container_only, min_severity) is Some,
        rules_spec(detect_view(e, docker, probes).0, e.uid, filename_text_spec(e)).0
            == Severity::Info,
    ensures
        ({
            let (is_container, cid) = detect_view(e, docker, probes);
            report_spec(e, docker, probes, self_pid, container_only, min_severity) == Some(
                (if is_container {
                    "\x1b[1;35m•\x1b[0m [\x1b[1;35mCONTAINER\x1b[0m] pid="@
                } else {
                    "\x1b[1;36m•\x1b[0m [\x1b[90mHOST\x1b[0m] pid="@
                }) + padded(decimal(e.tgid as nat), 6) + " uid="@ + padded(decimal(e.uid as nat), 5)
                    + " comm="@ + padded(comm_text_spec(e), 12) + (if is_container {
                    " cid="@ + padded(cid, 14)
                } else {
                    Seq::<char>::empty()
                }) + " \x1b[32m→\x1b[0m "@ + filename_text_spec(e) + "\n"@,
            )
        }),
{
    let (is_container, cid) = detect_view(e, docker, probes);
    let comm = comm_text_spec(e);
    let f = filename_text_spec(e);
    if is_container {
        assert(info_text(e, comm, f, cid, true) =~= "\x1b[1;35m•\x1b[0m [\x1b[1;35mCONTAINER\x1b[0m] pid="@
            + padded(decimal(e.tgid as nat), 6) + " uid="@ + padded(decimal(e.uid as nat), 5)
            + " comm="@ + padded(comm, 12) + (" cid="@ + padded(cid, 14)) + " \x1b[32m→\x1b[0m "@
            + f + "\n"@);
    } else {
        assert(info_text(e, comm, f, cid, false) =~= "\x1b[1;36m•\x1b[0m [\x1b[90mHOST\x1b[0m] pid="@
            + padded(decimal(e.tgid as nat), 6) + " uid="@ + padded(decimal(e.uid as nat), 5)
            + " comm="@ + padded(comm, 12) + Seq::<char>::empty() + " \x1b[32m→\x1b[0m "@ + f
            + "\n"@);
    }
}

/// A printed event rated above `Info` is an alert block that names the
/// event's decoded command name and executed path, its severity, the reason,
/// and, for a container event, the container id.
pub proof fn lemma_alert_fields(
    e: ExecEvent,
    docker: DockerIndex,
    probes: ProcView,
    self_pid: u32,
    container_only: bool,
    min_severity: Severity,
)
    requires
        report_spec(e, docker, probes, self_pid, container_only, min_severity) is Some,
        rules_spec(detect_view(e, docker, probes).0, e.uid, filename_text_spec(e)).0
            != Severity::Info,
    ensures
        ({
            let (is_container, cid) = detect_view(e, docker, probes);
            let (severity, reason) = rules_spec(is_container, e.uid, filename_text_spec(e));
            let t = report_spec(e, docker, probes, self_pid, container_only, min_severity)->0;
            let c = color_of(severity);
            &&& t.take((c + "┌─ ALERT ["@).len() as int) == c + "┌─ ALERT ["@
            &&& contains_seq(t, c + "│\x1b[0m  PID         : "@ + decimal(e.tgid as nat) + "\n"@)
            &&& contains_seq(t, c + "│\x1b[0m  UID         : "@ + decimal(e.uid as nat) + "\n"@)
            &&& contains_seq(t, c + "│\x1b[0m  COMM        : "@ + comm_text_spec(e) + "\n"@)
            &&& contains_seq(t, c + "│\x1b[0m  BINARY      : "@ + filename_text_spec(e) + "\n"@)
            &&& contains_seq(t, c + "│\x1b[0m  SEVERITY    : "@ + label_of(severity) + "\n"@)
            &&& contains_seq(t, c + "│\x1b[0m  REASON      : "@ + reason + "\n"@)
            &&& is_container ==> contains_seq(t, c + "│\x1b[0m  CONTAINER   : "@ + cid + "\n"@)
        }),
{
    let (is_container, cid) = detect_view(e, docker, probes);
    let (severity, reason) = rules_spec(is_container, e.uid, filename_text_spec(e));
    let c = color_of(severity);
    lemma_alert_lines(severity, e, comm_text_spec(e), filename_text_spec(e), cid, is_container, reason);
    let t = alert_text(severity, e, comm_text_spec(e), filename_text_spec(e), cid, is_container, reason);
    let head = c + "┌─ ALERT ["@ + (if is_container {
        "CONTAINER"@
    } else {
        "HOST"@
    }) + "/"@ + label_of(severity) + "] ──────────────────────────\x1b[0m\n"@;
    assert(t.take(head.len() as int) == head);
    assert(t.take((c + "┌─ ALERT ["@).len() as int) =~= head.take((c + "┌─ ALERT ["@).len() as int));
    assert(head.take((c + "┌─ ALERT ["@).len() as int) =~= c + "┌─ ALERT ["@);
}

/// With JSON logging on, every printed event rated above `Info` is logged,
/// whether or not every printed event is.
pub proof fn lemma_alerts_always_logged(
    e: ExecEvent,
    docker: DockerIndex,
    probes: ProcView,
    self_pid: u32,
    container_only: bool,
    min_severity: Severity,
    json_all: bool,
    ts_ms: u64,
)
    requires
        report_spec(e, docker, probes, self_pid, container_only, min_severity) is Some,
        rules_spec(detect_view(e, docker, probes).0, e.uid, filename_text_spec(e)).0
            != Severity::Info,
    ensures
        json_spec(e, docker, probes, self_pid, container_only, min_severity, true, json_all, ts_ms)
            is Some,
{
}

/// The logged JSON line of an event holds, in order, the time stamp, `alert`
/// for a rating above `Info` and `event` otherwise, the scope, the severity
/// label, the pid of the thread group, the uid, the decoded command name and
/// executed path, the container id, the cgroup id and the reason, the strings
/// escaped.
pub proof fn lemma_json_fields(
    e: ExecEvent,
    docker: DockerIndex,
    probes: ProcView,
    self_pid: u32,
    container_only: bool,
    min_severity: Severity,
    json_all: bool,
    ts_ms: u64,
)
    requires
        json_spec(e, docker, probes, self_pid, container_only, min_severity, true, json_all, ts_ms)
            is Some,
    ensures
        ({
            let (is_container, cid) = detect_view(e, docker, probes);
            let (severity, reason) = rules_spec(is_container, e.uid, filename_text_spec(e));
            json_spec(e, docker, probes, self_pid, container_only, min_severity, true, json_all, ts_ms)
                == Some(
                "{\"ts\":"@ + decimal(ts_ms as nat) + ",\"type\":\""@ + (if severity
                    != Severity::Info {
                    "alert"@
                } else {
                    "event"@
                }) + "\",\"scope\":\""@ + (if is_container {
                    "CONTAINER"@
                } else {
                    "HOST"@
                }) + "\",\"severity\":\""@ + label_of(severity) + "\",\"pid\":"@ + decimal(
                    e.tgid as nat,
                ) + ",\"uid\":"@ + decimal(e.uid as nat) + ",\"comm\":\""@ + json_escape(
                    comm_text_spec(e),
                ) + "\",\"binary\":\""@ + json_escape(filename_text_spec(e))
                    + "\",\"container\":\""@ + json_escape(cid) + "\",\"cgroup_id\":"@ + decimal(
                    e.cgroup_id as nat,
                ) + ",\"reason\":\""@ + json_escape(reason) + "\"}\n"@,
            )
        }),
{
}


/// An execution is the monitor's own activity exactly when its command name is
/// `altair-ebpf`, or it runs a binary whose path ends in `/docker` from the
/// monitor's own process.
pub proof fn lemma_self_noise_words(comm: Seq<char>, filename: Seq<char>, e: ExecEvent, self_pid: u32)
    ensures
        self_noise_spec(comm, filename, e, self_pid) <==> (comm == "altair-ebpf"@ || (e.tgid
            == self_pid && "/docker"@.len() <= filename.len() && filename.skip(
            filename.len() - "/docker"@.len(),
        ) == "/docker"@)),
{
}

/// An event that is not the monitor's own activity and passes the container
/// filter is printed exactly when its rating is at least the minimum; the
/// container filter drops exactly the host events when only containers are
/// watched.
pub proof fn lemma_print_filters(
    e: ExecEvent,
    docker: DockerIndex,
    probes: ProcView,
    self_pid: u32,
    container_only: bool,
    min_severity: Severity,
)
    requires
        !self_noise_spec(comm_text_spec(e), filename_text_spec(e), e, self_pid),
    ensures
        ({
            let is_container = detect_view(e, docker, probes).0;
            let severity = rules_spec(is_container, e.uid, filename_text_spec(e)).0;
            &&& (container_only && !is_container) ==> report_spec(
                e,
                docker,
                probes,
                self_pid,
                container_only,
                min_severity,
            ) is None
            &&& !(container_only && !is_container) ==> (report_spec(
                e,
                docker,
                probes,
                self_pid,
                container_only,
                min_severity,
            ) is Some <==> rank_of(severity) >= rank_of(min_severity))
        }),
{
}

} // verus!
