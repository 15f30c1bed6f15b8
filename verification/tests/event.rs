use altair_ebpf::event::{trim_trailing_nuls, ExecEvent};

fn event(comm: &[u8], filename: &[u8]) -> ExecEvent {
    let mut c = [0u8; 16];
    c[..comm.len()].copy_from_slice(comm);
    let mut f = [0u8; 256];
    f[..filename.len()].copy_from_slice(filename);
    ExecEvent { pid: 1, tgid: 1, uid: 0, cgroup_id: 0, comm: c, filename: f }
}

#[test]
fn from_kernel_splits_pid_tgid_and_uid_gid() {
    let e = ExecEvent::from_kernel((5u64 << 32) | 7, (1000u64 << 32) | 33, 99, None, [0u8; 256]);
    assert_eq!(e.pid, 7);
    assert_eq!(e.tgid, 5);
    assert_eq!(e.uid, 33);
    assert_eq!(e.cgroup_id, 99);
    assert_eq!(e.comm, [0u8; 16]);
    let mut comm = [0u8; 16];
    comm[0] = b's';
    comm[1] = b'h';
    let e = ExecEvent::from_kernel(u64::MAX, 0, 0, Some(comm), [7u8; 256]);
    assert_eq!(e.pid, u32::MAX);
    assert_eq!(e.tgid, u32::MAX);
    assert_eq!(e.comm, comm);
    assert_eq!(e.filename, [7u8; 256]);
}

#[test]
fn comm_text_drops_trailing_nuls() {
    assert_eq!(event(b"sh", b"").comm_text(), "sh");
    assert_eq!(event(b"", b"").comm_text(), "");
    assert_eq!(event(b"a\0b", b"").comm_text(), "a\0b");
    assert_eq!(event(b"0123456789abcdef", b"").comm_text(), "0123456789abcdef");
}

#[test]
fn filename_text_stops_at_first_nul() {
    assert_eq!(event(b"", b"/usr/bin/wget").filename_text(), "/usr/bin/wget");
    assert_eq!(event(b"", b"/bin/sh\0junk").filename_text(), "/bin/sh");
    let full = [b'a'; 256];
    let e = ExecEvent { pid: 0, tgid: 0, uid: 0, cgroup_id: 0, comm: [0u8; 16], filename: full };
    assert_eq!(e.filename_text(), "a".repeat(256));
}

#[test]
fn invalid_utf8_is_replaced() {
    assert_eq!(event(b"s\xffh", b"").comm_text(), "s\u{FFFD}h");
    assert_eq!(event(b"", b"/bin/\xc3\xa9\xc3").filename_text(), "/bin/\u{e9}\u{FFFD}");
}

#[test]
fn trailing_nuls_trimmed() {
    assert_eq!(trim_trailing_nuls("ab\0\0"), "ab");
    assert_eq!(trim_trailing_nuls("\0a\0"), "\0a");
    assert_eq!(trim_trailing_nuls("\0\0"), "");
    assert_eq!(trim_trailing_nuls("x"), "x");
}
