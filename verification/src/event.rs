use vstd::prelude::*;
use vstd::utf8::{decode_utf8, valid_utf8};
use crate::text::{chars_of, substring};

verus! {

/// One process execution as the kernel probe records it: process and thread
/// group ids, user id, cgroup id, the task's command name and the executed
/// path, both NUL-padded.
#[derive(Clone, Copy)]
pub struct ExecEvent {
    pub pid: u32,
    pub tgid: u32,
    pub uid: u32,
    pub cgroup_id: u64,
    pub comm: [u8; 16],
    pub filename: [u8; 256],
}

impl ExecEvent {
    /// Builds the event from the values that the kernel helpers returned: the
    /// low half of the pid/tgid word is the thread id, the high half the thread
    /// group id, the low half of the uid/gid word the user id; a command name
    /// that could not be read stays all zero.
    pub fn from_kernel(
        pid_tgid: u64,
        uid_gid: u64,
        cgroup_id: u64,
        comm: Option<[u8; 16]>,
        filename: [u8; 256],
    ) -> (e: ExecEvent)
        ensures
            e.pid == pid_tgid % 0x1_0000_0000,
            e.tgid == pid_tgid / 0x1_0000_0000,
            e.uid == uid_gid % 0x1_0000_0000,
            e.cgroup_id == cgroup_id,
            e.comm@ == match comm {
                Some(c) => c@,
                None => Seq::new(16, |i: int| 0u8),
            },
            e.filename@ == filename@,
    {
        let pid = (pid_tgid & 0xFFFF_FFFF) as u32;
        let tgid = (pid_tgid >> 32) as u32;
        let uid = (uid_gid & 0xFFFF_FFFF) as u32;
        assert(pid_tgid & 0xFFFF_FFFF == pid_tgid % 0x1_0000_0000) by (bit_vector);
        assert(pid_tgid >> 32 == pid_tgid / 0x1_0000_0000) by (bit_vector);
        assert(uid_gid & 0xFFFF_FFFF == uid_gid % 0x1_0000_0000) by (bit_vector);
        let c: [u8; 16] = match comm {
            Some(c) => c,
            None => [0u8; 16],
        };
        proof {
            if comm is None {
                assert(c@ =~= Seq::new(16, |i: int| 0u8));
            }
        }
        ExecEvent { pid, tgid, uid, cgroup_id, comm: c, filename }
    }
}


/// The text that `String::from_utf8_lossy` makes of a byte sequence: valid
/// UTF-8 decoded, each invalid sequence replaced by U+FFFD.
pub uninterp spec fn utf8_lossy(bytes: Seq<u8>) -> Seq<char>;

/// Calls `String::from_utf8_lossy`. Its result is named by `utf8_lossy`; its
/// documentation promises that valid UTF-8 comes back as the same text.
#[verifier::external_body]
pub(crate) fn decode_lossy(bytes: &[u8]) -> (r: String)
    ensures
        r@ == utf8_lossy(bytes@),
        valid_utf8(bytes@) ==> r@ == decode_utf8(bytes@),
{
    String::from_utf8_lossy(bytes).into_owned()
}

/// `s` without trailing NUL characters.
pub open spec fn trim_nuls_end(s: Seq<char>) -> Seq<char>
    decreases s.len(),
{
    if s.len() > 0 && s.last() == '\0' {
        trim_nuls_end(s.drop_last())
    } else {
        s
    }
}

/// `s` without its trailing NUL characters.
pub fn trim_trailing_nuls(s: &str) -> (r: String)
    ensures
        r@ == trim_nuls_end(s@),
{
    let v = chars_of(s);
    let mut j = v.len();
    assert(v@.take(j as int) =~= v@);
    while j > 0 && v[j - 1] == '\0'
        invariant
            j <= v.len(),
            v@ == s@,
            trim_nuls_end(v@) == trim_nuls_end(v@.take(j as int)),
        decreases j,
    {
        assert(v@.take(j as int).drop_last() =~= v@.take(j - 1));
        j = j - 1;
    }
    assert(v@.take(j as int) =~= v@.subrange(0, j as int));
    substring(s, 0, j)
}

/// The bytes of `b` before its first zero byte (all of `b` if none is zero).
pub open spec fn before_nul(b: Seq<u8>) -> Seq<u8>
    decreases b.len(),
{
    if b.len() == 0 || b[0] == 0 {
        seq![]
    } else {
        seq![b[0]] + before_nul(b.drop_first())
    }
}

/// The command name of the event: its bytes decoded leniently, trailing NUL
/// characters removed.
pub open spec fn comm_text_spec(e: ExecEvent) -> Seq<char> {
    trim_nuls_end(utf8_lossy(e.comm@))
}

/// The executed path of the event: its bytes up to the first NUL, decoded
/// leniently.
pub open spec fn filename_text_spec(e: ExecEvent) -> Seq<char> {
    utf8_lossy(before_nul(e.filename@))
}

impl ExecEvent {
    /// The command name, decoded leniently, without trailing NUL characters.
    pub fn comm_text(&self) -> (r: String)
        ensures
            r@ == comm_text_spec(*self),
    {
        let full = decode_lossy(self.comm.as_slice());
        trim_trailing_nuls(full.as_str())
    }

    /// The executed path: the bytes before the first NUL, decoded leniently.
    pub fn filename_text(&self) -> (r: String)
        ensures
            r@ == filename_text_spec(*self),
    {
        let ghost b = self.filename@;
        let mut prefix: Vec<u8> = Vec::new();
        let mut i: usize = 0;
        assert(b.skip(0) =~= b);
        while i < 256 && self.filename[i] != 0
            invariant
                i <= 256,
                b == self.filename@,
                b.len() == 256,
                before_nul(b) == prefix@ + before_nul(b.skip(i as int)),
            decreases 256 - i,
        {
            let ghost rest = b.skip(i as int);
            assert(rest.drop_first() =~= b.skip(i + 1));
            prefix.push(self.filename[i]);
            assert(before_nul(rest) == seq![rest[0]] + before_nul(rest.drop_first()));
            assert(prefix@ + before_nul(b.skip(i + 1)) =~= before_nul(b));
            i = i + 1;
        }
        assert(before_nul(b.skip(i as int)) =~= Seq::<u8>::empty());
        assert(prefix@ =~= before_nul(b));
        decode_lossy(prefix.as_slice())
    }
}


/// Removing trailing NULs keeps a prefix that does not end in NUL, and only
/// NULs are removed.
pub proof fn lemma_trim_nuls_end(s: Seq<char>)
    ensures
        trim_nuls_end(s).len() <= s.len(),
        trim_nuls_end(s) == s.take(trim_nuls_end(s).len() as int),
        trim_nuls_end(s).len() == 0 || trim_nuls_end(s).last() != '\0',
        forall|i: int| trim_nuls_end(s).len() <= i < s.len() ==> s[i] == '\0',
    decreases s.len(),
{
    if s.len() > 0 && s.last() == '\0' {
        let d = s.drop_last();
        lemma_trim_nuls_end(d);
        let t = trim_nuls_end(s);
        assert(t == trim_nuls_end(d));
        assert(d.take(t.len() as int) =~= s.take(t.len() as int));
        assert forall|i: int| t.len() <= i < s.len() implies s[i] == '\0' by {
            if i < d.len() {
                assert(s[i] == d[i]);
            }
        }
    } else {
        assert(s.take(s.len() as int) =~= s);
    }
}

/// The bytes before the first NUL are a prefix without any zero byte, followed
/// in the input by a zero byte or by nothing.
pub proof fn lemma_before_nul(b: Seq<u8>)
    ensures
        before_nul(b).len() <= b.len(),
        before_nul(b) == b.take(before_nul(b).len() as int),
        forall|i: int| 0 <= i < before_nul(b).len() ==> before_nul(b)[i] != 0,
        before_nul(b).len() == b.len() || b[before_nul(b).len() as int] == 0,
    decreases b.len(),
{
    if b.len() > 0 && b[0] != 0 {
        let d = b.drop_first();
        lemma_before_nul(d);
        let r = before_nul(d);
        assert(before_nul(b) == seq![b[0]] + r);
        assert(b.take((r.len() + 1) as int) =~= seq![b[0]] + d.take(r.len() as int));
        assert forall|i: int| 0 <= i < before_nul(b).len() implies before_nul(b)[i] != 0 by {
            if i > 0 {
                assert(before_nul(b)[i] == r[i - 1]);
            }
        }
        if r.len() < d.len() {
            assert(b[(r.len() + 1) as int] == d[r.len() as int]);
        }
    } else {
        assert(b.take(0) =~= Seq::<u8>::empty());
    }
}

} // verus!
