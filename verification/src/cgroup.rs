use vstd::prelude::*;
use vstd::string::*;
use crate::text::{chars_of, contains_seq, contains_str, decimal, push_decimal, substring, trim, trim_bounds};

verus! {

/// Whether `l` holds the separator `::`.
pub open spec fn has_sep(l: Seq<char>) -> bool
    decreases l.len(),
{
    if l.len() < 2 {
        false
    } else if l[0] == ':' && l[1] == ':' {
        true
    } else {
        has_sep(l.drop_first())
    }
}

/// What follows the first `::` of `l`.
pub open spec fn after_sep(l: Seq<char>) -> Seq<char>
    decreases l.len(),
{
    if l.len() < 2 {
        seq![]
    } else if l[0] == ':' && l[1] == ':' {
        l.skip(2)
    } else {
        after_sep(l.drop_first())
    }
}

/// What precedes the first `::` of `l` (all of `l` if it has none).
pub open spec fn before_sep(l: Seq<char>) -> Seq<char>
    decreases l.len(),
{
    if l.len() < 2 {
        l
    } else if l[0] == ':' && l[1] == ':' {
        seq![]
    } else {
        seq![l[0]] + before_sep(l.drop_first())
    }
}

/// The second `::`-separated field of a line that holds `::`, as
/// `l.split("::").nth(1)` gives it.
pub open spec fn second_field(l: Seq<char>) -> Seq<char> {
    before_sep(after_sep(l))
}

/// A line without the `\r` of a `\r\n` line ending.
pub open spec fn strip_cr(l: Seq<char>) -> Seq<char> {
    if l.len() > 0 && l.last() == '\r' {
        l.drop_last()
    } else {
        l
    }
}

/// The last line holding `::`, scanning `rest` with the current line begun in
/// `cur` and the last such line so far in `found`. Lines end at `\n`, and a
/// line ended by `\r\n` loses its `\r`, as `str::lines` yields them.
pub open spec fn last_sep_line_from(rest: Seq<char>, cur: Seq<char>, found: Option<Seq<char>>) -> Option<
    Seq<char>,
>
    decreases rest.len(),
{
    if rest.len() == 0 {
        if has_sep(cur) {
            Some(cur)
        } else {
            found
        }
    } else if rest[0] == '\n' {
        let line = strip_cr(cur);
        last_sep_line_from(
            rest.drop_first(),
            seq![],
            if has_sep(line) {
                Some(line)
            } else {
                found
            },
        )
    } else {
        last_sep_line_from(rest.drop_first(), cur.push(rest[0]), found)
    }
}

/// The cgroup path of a `/proc/<pid>/cgroup` text: the second `::` field of
/// its last line holding `::`, trimmed; `None` when no line holds `::` or that
/// field is blank.
pub open spec fn cgroup_rel_spec(text: Seq<char>) -> Option<Seq<char>> {
    match last_sep_line_from(text, seq![], None) {
        Some(l) => {
            let r = trim(second_field(l));
            if r.len() > 0 {
                Some(r)
            } else {
                None
            }
        },
        None => None,
    }
}

/// The path under the cgroup file system mount of a cgroup path.
pub open spec fn cgroup_fs_path(rel: Seq<char>) -> Seq<char> {
    if rel.len() > 0 && rel[0] == '/' {
        "/sys/fs/cgroup"@ + rel
    } else {
        "/sys/fs/cgroup/"@ + rel
    }
}

/// The first `::` in the characters `a .. b` of `v`.
fn find_sep(v: &Vec<char>, a: usize, b: usize) -> (r: Option<usize>)
    requires
        a <= b <= v.len(),
    ensures
        r is None <==> !has_sep(v@.subrange(a as int, b as int)),
        r is None ==> before_sep(v@.subrange(a as int, b as int)) == v@.subrange(a as int, b as int),
        r matches Some(j) ==> a <= j && j + 2 <= b && after_sep(v@.subrange(a as int, b as int))
            == v@.subrange(j + 2, b as int) && before_sep(v@.subrange(a as int, b as int))
            == v@.subrange(a as int, j as int),
{
    let ghost whole = v@.subrange(a as int, b as int);
    let mut i = a;
    assert(v@.subrange(a as int, a as int) =~= Seq::<char>::empty());
    assert(whole =~= v@.subrange(a as int, a as int) + v@.subrange(a as int, b as int));
    while i < b && b - i >= 2
        invariant
            a <= i <= b <= v.len(),
            whole == v@.subrange(a as int, b as int),
            has_sep(whole) == has_sep(v@.subrange(i as int, b as int)),
            after_sep(whole) == after_sep(v@.subrange(i as int, b as int)),
            before_sep(whole) == v@.subrange(a as int, i as int) + before_sep(
                v@.subrange(i as int, b as int),
            ),
        decreases b - i,
    {
        let ghost l = v@.subrange(i as int, b as int);
        if v[i] == ':' && v[i + 1] == ':' {
            assert(l.skip(2) =~= v@.subrange(i + 2, b as int));
            assert(v@.subrange(a as int, i as int) + Seq::<char>::empty() =~= v@.subrange(
                a as int,
                i as int,
            ));
            return Some(i);
        }
        assert(l.drop_first() =~= v@.subrange(i + 1, b as int));
        assert(v@.subrange(a as int, i as int) + (seq![l[0]] + before_sep(l.drop_first()))
            =~= v@.subrange(a as int, i + 1) + before_sep(l.drop_first()));
        i = i + 1;
    }
    let ghost l = v@.subrange(i as int, b as int);
    assert(v@.subrange(a as int, i as int) + l =~= whole);
    None
}

/// The cgroup path of a `/proc/<pid>/cgroup` text, trimmed; `None` when no line
/// holds `::` or the path is blank.
pub fn cgroup_rel_path(text: &str) -> (r: Option<String>)
    ensures
        match r {
            Some(s) => cgroup_rel_spec(text@) == Some(s@),
            None => cgroup_rel_spec(text@) is None,
        },
{
    let v = chars_of(text);
    let n = v.len();
    let mut ls: usize = 0;
    let mut found: Option<(usize, usize)> = None;
    let mut i: usize = 0;
    assert(v@.skip(0) =~= v@);
    assert(v@.subrange(0, 0) =~= Seq::<char>::empty());
    while i < n
        invariant
            n == v@.len(),
            v@ == text@,
            ls <= i <= n,
            found matches Some(p) ==> p.0 <= p.1 <= n && has_sep(v@.subrange(p.0 as int, p.1 as int)),
            last_sep_line_from(text@, seq![], None) == last_sep_line_from(
                v@.skip(i as int),
                v@.subrange(ls as int, i as int),
                match found {
                    Some(p) => Some(v@.subrange(p.0 as int, p.1 as int)),
                    None => None,
                },
            ),
        decreases n - i,
    {
        let ghost cur = v@.subrange(ls as int, i as int);
        let ghost fv = match found {
            Some(p) => Some(v@.subrange(p.0 as int, p.1 as int)),
            None => None,
        };
        assert(v@.skip(i as int).drop_first() =~= v@.skip(i + 1));
        assert(v@.skip(i as int)[0] == v@[i as int]);
        if v[i] == '\n' {
            let le = if i > ls && v[i - 1] == '\r' {
                i - 1
            } else {
                i
            };
            assert(strip_cr(cur) =~= v@.subrange(ls as int, le as int));
            if find_sep(&v, ls, le).is_some() {
                found = Some((ls, le));
            }
            i = i + 1;
            ls = i;
            assert(v@.subrange(ls as int, i as int) =~= Seq::<char>::empty());
        } else {
            assert(cur.push(v@[i as int]) =~= v@.subrange(ls as int, i + 1));
            i = i + 1;
        }
    }
    assert(v@.skip(n as int).len() == 0);
    if find_sep(&v, ls, n).is_some() {
        found = Some((ls, n));
    }
    match found {
        None => None,
        Some((a, b)) => {
            let j = find_sep(&v, a, b).unwrap();
            let end = match find_sep(&v, j + 2, b) {
                Some(k) => k,
                None => b,
            };
            assert(second_field(v@.subrange(a as int, b as int)) =~= v@.subrange(
                j + 2,
                end as int,
            ));
            let (x, y) = trim_bounds(&v, j + 2, end);
            if x == y {
                None
            } else {
                Some(substring(text, x, y))
            }
        },
    }
}

/// The path of the cgroup directory that a `/proc/<pid>/cgroup` text names,
/// under the cgroup file system mount.
pub fn cgroup_dir_from_text(text: &str) -> (r: Option<String>)
    ensures
        match r {
            Some(s) => cgroup_rel_spec(text@) matches Some(rel) && s@ == cgroup_fs_path(rel),
            None => cgroup_rel_spec(text@) is None,
        },
{
    match cgroup_rel_path(text) {
        None => None,
        Some(rel) => {
            let rv = chars_of(rel.as_str());
            let mut out = if rv.len() > 0 && rv[0] == '/' {
                String::from_str("/sys/fs/cgroup")
            } else {
                String::from_str("/sys/fs/cgroup/")
            };
            out.append(rel.as_str());
            Some(out)
        },
    }
}


/// The lower-case form of a text by the Unicode case mapping, as
/// `str::to_lowercase` computes it.
pub uninterp spec fn unicode_lowercase(s: Seq<char>) -> Seq<char>;

/// Calls `str::to_lowercase`, whose result is named by `unicode_lowercase`.
#[verifier::external_body]
fn to_lowercase(s: &str) -> (r: String)
    ensures
        r@ == unicode_lowercase(s@),
{
    s.to_lowercase()
}

/// Whether a lower-cased text names a container runtime: it holds `docker`,
/// `containerd`, `podman` or `libpod`.
pub open spec fn names_runtime(lowered: Seq<char>) -> bool {
    contains_seq(lowered, "docker"@) || contains_seq(lowered, "containerd"@) || contains_seq(
        lowered,
        "podman"@,
    ) || contains_seq(lowered, "libpod"@)
}

/// Whether a cgroup text names a container runtime: its lower-case form does.
pub open spec fn runtime_marked(text: Seq<char>) -> bool {
    names_runtime(unicode_lowercase(text))
}

pub open spec fn is_id_sep(c: char) -> bool {
    c == '/' || c == '-' || c == '.' || c == ':'
}

pub open spec fn is_hex_char(c: char) -> bool {
    ('0' <= c <= '9') || ('a' <= c <= 'f') || ('A' <= c <= 'F')
}

/// A container id candidate: 12 to 64 hexadecimal digits. (All such
/// characters are ASCII, so counting characters counts bytes.)
pub open spec fn is_id_piece(p: Seq<char>) -> bool {
    12 <= p.len() <= 64 && forall|i: int| 0 <= i < p.len() ==> is_hex_char(#[trigger] p[i])
}

/// The first piece of `rest`, split at `/`, `-`, `.` and `:`, that is a
/// container id candidate, the piece already begun being `cur`.
pub open spec fn first_id_piece_from(rest: Seq<char>, cur: Seq<char>) -> Option<Seq<char>>
    decreases rest.len(),
{
    if rest.len() == 0 {
        if is_id_piece(cur) {
            Some(cur)
        } else {
            None
        }
    } else if is_id_sep(rest[0]) {
        if is_id_piece(cur) {
            Some(cur)
        } else {
            first_id_piece_from(rest.drop_first(), seq![])
        }
    } else {
        first_id_piece_from(rest.drop_first(), cur.push(rest[0]))
    }
}

/// The container id that a cgroup text gives: the first 12 characters of its
/// first id candidate, or `cg:` and the cgroup id when it has none.
pub open spec fn cgroup_text_id(text: Seq<char>, cgroup_id: u64) -> Seq<char> {
    match first_id_piece_from(text, seq![]) {
        Some(p) => p.take(12),
        None => "cg:"@ + decimal(cgroup_id as nat),
    }
}

proof fn lemma_first_id_piece(rest: Seq<char>, cur: Seq<char>)
    ensures
        first_id_piece_from(rest, cur) matches Some(p) ==> is_id_piece(p),
    decreases rest.len(),
{
    if rest.len() > 0 {
        if is_id_sep(rest[0]) {
            lemma_first_id_piece(rest.drop_first(), seq![]);
        } else {
            lemma_first_id_piece(rest.drop_first(), cur.push(rest[0]));
        }
    }
}

/// The container id taken from a cgroup text is either 12 hexadecimal digits
/// or `cg:` followed by the event's cgroup id in decimal.
pub proof fn lemma_cgroup_text_id_shape(text: Seq<char>, cgroup_id: u64)
    ensures
        ({
            let id = cgroup_text_id(text, cgroup_id);
            ||| id.len() == 12 && forall|i: int| 0 <= i < 12 ==> is_hex_char(#[trigger] id[i])
            ||| id == "cg:"@ + decimal(cgroup_id as nat)
        }),
{
    lemma_first_id_piece(text, seq![]);
    if let Some(p) = first_id_piece_from(text, seq![]) {
        let id = p.take(12);
        assert forall|i: int| 0 <= i < 12 implies is_hex_char(#[trigger] id[i]) by {
            assert(id[i] == p[i]);
        }
    }
}

/// The container id that a cgroup text shows, if it names a container runtime.
pub open spec fn container_in_cgroup_text(text: Seq<char>, cgroup_id: u64) -> Option<Seq<char>> {
    if runtime_marked(text) {
        Some(cgroup_text_id(text, cgroup_id))
    } else {
        None
    }
}

fn is_hex(c: char) -> (r: bool)
    ensures
        r == is_hex_char(c),
{
    ('0' <= c && c <= '9') || ('a' <= c && c <= 'f') || ('A' <= c && c <= 'F')
}

fn id_piece_at(v: &Vec<char>, a: usize, b: usize) -> (r: bool)
    requires
        a <= b <= v.len(),
    ensures
        r == is_id_piece(v@.subrange(a as int, b as int)),
{
    if b - a < 12 || b - a > 64 {
        return false;
    }
    let mut i = a;
    while i < b
        invariant
            a <= i <= b <= v.len(),
            forall|k: int| a <= k < i ==> is_hex_char(#[trigger] v@[k]),
        decreases b - i,
    {
        if !is_hex(v[i]) {
            assert(!is_hex_char(v@.subrange(a as int, b as int)[i - a]));
            return false;
        }
        i = i + 1;
    }
    assert forall|k: int| 0 <= k < b - a implies is_hex_char(
        #[trigger] v@.subrange(a as int, b as int)[k],
    ) by {
        assert(v@.subrange(a as int, b as int)[k] == v@[a + k]);
    }
    true
}

/// The container id that a cgroup text gives (see `cgroup_text_id`).
fn id_from_cgroup_text(text: &str, cgroup_id: u64) -> (r: String)
    ensures
        r@ == cgroup_text_id(text@, cgroup_id),
{
    let v = chars_of(text);
    let n = v.len();
    let mut start: usize = 0;
    let mut i: usize = 0;
    assert(v@.skip(0) =~= v@);
    assert(v@.subrange(0, 0) =~= Seq::<char>::empty());
    while i < n
        invariant
            n == v@.len(),
            v@ == text@,
            start <= i <= n,
            first_id_piece_from(text@, seq![]) == first_id_piece_from(
                v@.skip(i as int),
                v@.subrange(start as int, i as int),
            ),
        decreases n - i,
    {
        let ghost cur = v@.subrange(start as int, i as int);
        assert(v@.skip(i as int).drop_first() =~= v@.skip(i + 1));
        assert(v@.skip(i as int)[0] == v@[i as int]);
        let c = v[i];
        if c == '/' || c == '-' || c == '.' || c == ':' {
            if id_piece_at(&v, start, i) {
                let r = substring(text, start, start + 12);
                assert(r@ =~= cur.take(12));
                return r;
            }
            i = i + 1;
            start = i;
            assert(v@.subrange(start as int, i as int) =~= Seq::<char>::empty());
        } else {
            assert(cur.push(c) =~= v@.subrange(start as int, i + 1));
            i = i + 1;
        }
    }
    assert(v@.skip(n as int).len() == 0);
    if id_piece_at(&v, start, n) {
        let r = substring(text, start, start + 12);
        assert(r@ =~= v@.subrange(start as int, n as int).take(12));
        return r;
    }
    let mut out = String::from_str("cg:");
    push_decimal(&mut out, cgroup_id);
    out
}

/// The container id that a `/proc/<pid>/cgroup` text shows, if the text names a
/// container runtime.
pub fn container_from_cgroup_text(text: &str, cgroup_id: u64) -> (r: Option<String>)
    ensures
        match r {
            Some(s) => container_in_cgroup_text(text@, cgroup_id) == Some(s@),
            None => container_in_cgroup_text(text@, cgroup_id) is None,
        },
{
    let lower = to_lowercase(text);
    container_from_lowered(text, lower.as_str(), cgroup_id)
}

/// The container id that a cgroup text shows when its lower-case form
/// `lowered` names a container runtime.
pub fn container_from_lowered(text: &str, lowered: &str, cgroup_id: u64) -> (r: Option<String>)
    ensures
        match r {
            Some(s) => names_runtime(lowered@) && s@ == cgroup_text_id(text@, cgroup_id),
            None => !names_runtime(lowered@),
        },
{
    let l = chars_of(lowered);
    if contains_str(&l, "docker") || contains_str(&l, "containerd") || contains_str(&l, "podman")
        || contains_str(&l, "libpod") {
        Some(id_from_cgroup_text(text, cgroup_id))
    } else {
        None
    }
}


/// A lower-cased cgroup text names a container runtime exactly when it
/// contains one of the words `docker`, `containerd`, `podman`, `libpod`.
pub proof fn lemma_runtime_words(lowered: Seq<char>)
    ensures
        names_runtime(lowered) <==> (contains_seq(lowered, "docker"@) || contains_seq(
            lowered,
            "containerd"@,
        ) || contains_seq(lowered, "podman"@) || contains_seq(lowered, "libpod"@)),
{
}

/// A cgroup text shows a container exactly when its lower-case form contains
/// `docker`, `containerd`, `podman` or `libpod`, and the container id is then
/// the one the text gives.
pub proof fn lemma_cgroup_text_container(text: Seq<char>, cgroup_id: u64)
    ensures
        container_in_cgroup_text(text, cgroup_id) is Some <==> ({
            let l = unicode_lowercase(text);
            contains_seq(l, "docker"@) || contains_seq(l, "containerd"@) || contains_seq(
                l,
                "podman"@,
            ) || contains_seq(l, "libpod"@)
        }),
        container_in_cgroup_text(text, cgroup_id) is Some ==> container_in_cgroup_text(
            text,
            cgroup_id,
        )->0 == cgroup_text_id(text, cgroup_id),
{
}

proof fn lemma_piece_from(p: Seq<char>, rest: Seq<char>, k: int)
    requires
        0 <= k <= p.len(),
        is_id_piece(p),
        forall|i: int| 0 <= i < p.len() ==> !is_id_sep(#[trigger] p[i]),
        rest.len() == 0 || is_id_sep(rest[0]),
    ensures
        first_id_piece_from(p.skip(k) + rest, p.take(k)) == Some(p),
    decreases p.len() - k,
{
    if k == p.len() {
        assert(p.skip(k) + rest =~= rest);
        assert(p.take(k) =~= p);
    } else {
        let r = p.skip(k) + rest;
        assert(r[0] == p[k]);
        assert(r.drop_first() =~= p.skip(k + 1) + rest);
        assert(p.take(k).push(p[k]) =~= p.take(k + 1));
        lemma_piece_from(p, rest, k + 1);
    }
}

/// A cgroup text that begins with 12 to 64 hexadecimal digits, ended by `/`,
/// `-`, `.`, `:` or the end of the text, gives the first 12 of them as the
/// container id.
pub proof fn lemma_leading_hex_id(p: Seq<char>, rest: Seq<char>, cgroup_id: u64)
    requires
        12 <= p.len() <= 64,
        forall|i: int| 0 <= i < p.len() ==> is_hex_char(#[trigger] p[i]),
        rest.len() == 0 || rest[0] == '/' || rest[0] == '-' || rest[0] == '.' || rest[0] == ':',
    ensures
        cgroup_text_id(p + rest, cgroup_id) == p.take(12),
{
    assert forall|i: int| 0 <= i < p.len() implies !is_id_sep(#[trigger] p[i]) by {
        assert(is_hex_char(p[i]));
    }
    lemma_piece_from(p, rest, 0);
    assert(p.skip(0) + rest =~= p + rest);
    assert(p.take(0) =~= Seq::<char>::empty());
}

proof fn lemma_no_hex_no_piece(rest: Seq<char>, cur: Seq<char>)
    requires
        forall|i: int| 0 <= i < rest.len() ==> !is_hex_char(#[trigger] rest[i]),
        forall|i: int| 0 <= i < cur.len() ==> !is_hex_char(#[trigger] cur[i]),
    ensures
        first_id_piece_from(rest, cur) is None,
    decreases rest.len(),
{
    if cur.len() > 0 {
        assert(!is_hex_char(cur[0]));
    }
    if rest.len() > 0 {
        let d = rest.drop_first();
        assert forall|i: int| 0 <= i < d.len() implies !is_hex_char(#[trigger] d[i]) by {
            assert(d[i] == rest[i + 1]);
        }
        if is_id_sep(rest[0]) {
            lemma_no_hex_no_piece(d, seq![]);
        } else {
            let c2 = cur.push(rest[0]);
            assert forall|i: int| 0 <= i < c2.len() implies !is_hex_char(#[trigger] c2[i]) by {
                if i < cur.len() {
                    assert(c2[i] == cur[i]);
                }
            }
            lemma_no_hex_no_piece(d, c2);
        }
    }
}

/// A cgroup text without any hexadecimal digit gives `cg:` and the cgroup id
/// in decimal as the container id.
pub proof fn lemma_no_hex_id(text: Seq<char>, cgroup_id: u64)
    requires
        forall|i: int| 0 <= i < text.len() ==> !is_hex_char(#[trigger] text[i]),
    ensures
        cgroup_text_id(text, cgroup_id) == "cg:"@ + decimal(cgroup_id as nat),
{
    lemma_no_hex_no_piece(text, seq![]);
}


proof fn lemma_one_line(rest: Seq<char>, cur: Seq<char>, found: Option<Seq<char>>)
    requires
        forall|i: int| 0 <= i < rest.len() ==> #[trigger] rest[i] != '\n',
    ensures
        last_sep_line_from(rest, cur, found) == if has_sep(cur + rest) {
            Some(cur + rest)
        } else {
            found
        },
    decreases rest.len(),
{
    if rest.len() == 0 {
        assert(cur + rest =~= cur);
    } else {
        let d = rest.drop_first();
        assert forall|i: int| 0 <= i < d.len() implies #[trigger] d[i] != '\n' by {
            assert(d[i] == rest[i + 1]);
        }
        assert(rest[0] != '\n');
        lemma_one_line(d, cur.push(rest[0]), found);
        assert(cur.push(rest[0]) + d =~= cur + rest);
    }
}

proof fn lemma_sep_after_colon_free(a: Seq<char>, r: Seq<char>)
    requires
        forall|i: int| 0 <= i < a.len() ==> #[trigger] a[i] != ':',
    ensures
        has_sep(a + "::"@ + r),
        after_sep(a + "::"@ + r) == r,
    decreases a.len(),
{
    reveal_strlit("::");
    let t = a + "::"@ + r;
    if a.len() == 0 {
        assert(t =~= seq![':', ':'] + r);
        assert(t.skip(2) =~= r);
    } else {
        let d = a.drop_first();
        assert forall|i: int| 0 <= i < d.len() implies #[trigger] d[i] != ':' by {
            assert(d[i] == a[i + 1]);
        }
        lemma_sep_after_colon_free(d, r);
        assert(t.drop_first() =~= d + "::"@ + r);
        assert(t[0] == a[0]);
    }
}

proof fn lemma_no_colon_before_sep(r: Seq<char>)
    requires
        forall|i: int| 0 <= i < r.len() ==> #[trigger] r[i] != ':',
    ensures
        before_sep(r) == r,
    decreases r.len(),
{
    if r.len() >= 2 {
        let d = r.drop_first();
        assert forall|i: int| 0 <= i < d.len() implies #[trigger] d[i] != ':' by {
            assert(d[i] == r[i + 1]);
        }
        lemma_no_colon_before_sep(d);
        assert(r[0] != ':');
        assert(seq![r[0]] + d =~= r);
    }
}

/// A one-line cgroup text `<hierarchy>::<path>` (no other `:`) gives the path,
/// trimmed, unless it is blank.
pub proof fn lemma_single_line_cgroup(a: Seq<char>, r: Seq<char>)
    requires
        forall|i: int| 0 <= i < a.len() ==> #[trigger] a[i] != ':' && a[i] != '\n',
        forall|i: int| 0 <= i < r.len() ==> #[trigger] r[i] != ':' && r[i] != '\n',
    ensures
        cgroup_rel_spec(a + "::"@ + r) == if trim(r).len() > 0 {
            Some(trim(r))
        } else {
            None
        },
{
    reveal_strlit("::");
    let t = a + "::"@ + r;
    assert forall|i: int| 0 <= i < t.len() implies #[trigger] t[i] != '\n' by {
        if i < a.len() {
            assert(t[i] == a[i]);
        } else if i >= a.len() + 2 {
            assert(t[i] == r[i - a.len() - 2]);
        }
    }
    assert forall|i: int| 0 <= i < a.len() implies #[trigger] a[i] != ':' by {
        assert(a[i] != ':' && a[i] != '\n');
    }
    assert forall|i: int| 0 <= i < r.len() implies #[trigger] r[i] != ':' by {
        assert(r[i] != ':' && r[i] != '\n');
    }
    lemma_one_line(t, seq![], None);
    assert(Seq::<char>::empty() + t =~= t);
    lemma_sep_after_colon_free(a, r);
    lemma_no_colon_before_sep(r);
}

} // verus!
