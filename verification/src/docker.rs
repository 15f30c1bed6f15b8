use vstd::prelude::*;
use vstd::string::*;
use std::collections::HashMap;
use crate::cgroup::{
    cgroup_text_id, container_from_cgroup_text, container_in_cgroup_text,
    lemma_cgroup_text_container,
    unicode_lowercase,
};
use crate::event::{decode_lossy, utf8_lossy, ExecEvent};
use crate::text::{chars_of, contains_seq, eq_str, parse_u32, parse_u32_spec, split_words, substring, views_of, words};

verus! {

broadcast use vstd::std_specs::hash::group_hash_axioms;

/// A running container: its short id and the pid of its main process.
#[derive(Clone, Debug)]
pub struct ContainerInfo {
    pub id: String,
    pub pid: u32,
}

/// The abstract value of a container: its short id and pid.
pub open spec fn info_view(c: ContainerInfo) -> (Seq<char>, u32) {
    (c.id@, c.pid)
}

/// The map that an association list stands for: the first entry for a key
/// gives its value.
pub open spec fn assoc(entries: Seq<(Seq<char>, (Seq<char>, u32))>) -> Map<Seq<char>, (Seq<char>, u32)>
    decreases entries.len(),
{
    if entries.len() == 0 {
        Map::empty()
    } else {
        assoc(entries.drop_first()).insert(entries[0].0, entries[0].1)
    }
}

pub open spec fn entry_views(v: Seq<(String, ContainerInfo)>) -> Seq<(Seq<char>, (Seq<char>, u32))> {
    v.map_values(|e: (String, ContainerInfo)| (e.0@, info_view(e.1)))
}

proof fn lemma_assoc_skip(e: Seq<(Seq<char>, (Seq<char>, u32))>, i: int, k: Seq<char>)
    requires
        0 <= i <= e.len(),
        forall|j: int| 0 <= j < i ==> #[trigger] e[j].0 != k,
    ensures
        assoc(e).contains_key(k) == assoc(e.skip(i)).contains_key(k),
        assoc(e).contains_key(k) ==> assoc(e)[k] == assoc(e.skip(i))[k],
    decreases i,
{
    if i > 0 {
        let d = e.drop_first();
        assert forall|j: int| 0 <= j < i - 1 implies #[trigger] d[j].0 != k by {
            assert(d[j] == e[j + 1]);
        }
        lemma_assoc_skip(d, i - 1, k);
        assert(d.skip(i - 1) =~= e.skip(i));
        assert(e[0].0 != k);
    } else {
        assert(e.skip(0) =~= e);
    }
}

proof fn lemma_assoc_update(
    e: Seq<(Seq<char>, (Seq<char>, u32))>,
    i: int,
    v: (Seq<char>, u32),
)
    requires
        0 <= i < e.len(),
        forall|j: int| 0 <= j < i ==> #[trigger] e[j].0 != e[i].0,
    ensures
        assoc(e.update(i, (e[i].0, v))) == assoc(e).insert(e[i].0, v),
    decreases i,
{
    let k = e[i].0;
    let u = e.update(i, (k, v));
    if i == 0 {
        assert(u.drop_first() =~= e.drop_first());
        assert(assoc(u) =~= assoc(e).insert(k, v));
    } else {
        let d = e.drop_first();
        assert forall|j: int| 0 <= j < i - 1 implies #[trigger] d[j].0 != d[i - 1].0 by {
            assert(d[j] == e[j + 1]);
        }
        lemma_assoc_update(d, i - 1, v);
        assert(u.drop_first() =~= d.update(i - 1, (d[i - 1].0, v)));
        assert(e[0].0 != k);
        assert(assoc(u) =~= assoc(e).insert(k, v));
    }
}

proof fn lemma_assoc_push(e: Seq<(Seq<char>, (Seq<char>, u32))>, x: (Seq<char>, (Seq<char>, u32)))
    requires
        forall|j: int| 0 <= j < e.len() ==> #[trigger] e[j].0 != x.0,
    ensures
        assoc(e.push(x)) == assoc(e).insert(x.0, x.1),
    decreases e.len(),
{
    if e.len() == 0 {
        assert(e.push(x).drop_first() =~= Seq::<(Seq<char>, (Seq<char>, u32))>::empty());
        assert(e.push(x)[0] == x);
        assert(assoc(e.push(x).drop_first()) == Map::<Seq<char>, (Seq<char>, u32)>::empty());
        assert(assoc(e.push(x)) =~= assoc(e).insert(x.0, x.1));
    } else {
        let d = e.drop_first();
        assert forall|j: int| 0 <= j < d.len() implies #[trigger] d[j].0 != x.0 by {
            assert(d[j] == e[j + 1]);
        }
        lemma_assoc_push(d, x);
        assert(e.push(x).drop_first() =~= d.push(x));
        assert(e.push(x)[0] == e[0]);
        assert(e[0].0 != x.0);
        assert(assoc(e.push(x)) =~= assoc(e).insert(x.0, x.1));
    }
}

/// The running containers, found by the link of their pid namespace and by
/// the inode of their cgroup directory.
#[derive(Clone)]
pub struct DockerIndex {
    by_ns: Vec<(String, ContainerInfo)>,
    by_cgroup: HashMap<u64, String>,
}

impl DockerIndex {
    /// Containers by the target of their `/proc/<pid>/ns/pid` link.
    pub closed spec fn ns_view(&self) -> Map<Seq<char>, (Seq<char>, u32)> {
        assoc(entry_views(self.by_ns@))
    }

    /// Container short ids by the inode of their cgroup directory.
    pub closed spec fn cgroup_view(&self) -> Map<u64, Seq<char>> {
        self.by_cgroup@.map_values(|s: String| s@)
    }

    /// An index that knows no container.
    pub fn new() -> (r: DockerIndex)
        ensures
            r.ns_view() == Map::<Seq<char>, (Seq<char>, u32)>::empty(),
            r.cgroup_view() == Map::<u64, Seq<char>>::empty(),
    {
        let r = DockerIndex { by_ns: Vec::new(), by_cgroup: HashMap::new() };
        assert(r.cgroup_view() =~= Map::<u64, Seq<char>>::empty());
        r
    }

    /// The short id of the container whose cgroup directory has inode `ino`.
    pub fn container_by_cgroup(&self, ino: u64) -> (r: Option<String>)
        ensures
            match r {
                Some(s) => self.cgroup_view().contains_key(ino) && s@ == self.cgroup_view()[ino],
                None => !self.cgroup_view().contains_key(ino),
            },
    {
        match self.by_cgroup.get(&ino) {
            Some(s) => Some(s.clone()),
            None => None,
        }
    }

    /// The container whose pid namespace link reads `ns`.
    pub fn container_by_ns(&self, ns: &str) -> (r: Option<ContainerInfo>)
        ensures
            match r {
                Some(c) => self.ns_view().contains_key(ns@) && info_view(c) == self.ns_view()[ns@],
                None => !self.ns_view().contains_key(ns@),
            },
    {
        let ghost e = entry_views(self.by_ns@);
        let key = chars_of(ns);
        let mut i: usize = 0;
        while i < self.by_ns.len()
            invariant
                i <= self.by_ns.len(),
                e == entry_views(self.by_ns@),
                key@ == ns@,
                forall|j: int| 0 <= j < i ==> #[trigger] e[j].0 != ns@,
            decreases self.by_ns.len() - i,
        {
            if eq_str(&key, self.by_ns[i].0.as_str()) {
                proof {
                    lemma_assoc_skip(e, i as int, ns@);
                    assert(e.skip(i as int).drop_first() =~= e.skip(i + 1));
                    assert(e.skip(i as int)[0] == e[i as int]);
                }
                return Some(self.by_ns[i].1.clone_info());
            }
            i = i + 1;
        }
        proof {
            lemma_assoc_skip(e, i as int, ns@);
            assert(e.skip(i as int).len() == 0);
        }
        None
    }

    /// Records a container under the link of its pid namespace and under the
    /// inode of its cgroup directory, where these could be read; an earlier
    /// entry under the same key is replaced.
    pub fn record(&mut self, info: ContainerInfo, ns: Option<String>, cgroup_ino: Option<u64>)
        ensures
            final(self).ns_view() == match ns {
                Some(l) => old(self).ns_view().insert(l@, info_view(info)),
                None => old(self).ns_view(),
            },
            final(self).cgroup_view() == match cgroup_ino {
                Some(ino) => old(self).cgroup_view().insert(ino, info.id@),
                None => old(self).cgroup_view(),
            },
    {
        let ghost old_cg = self.cgroup_view();
        if let Some(ino) = cgroup_ino {
            let id = info.id.clone();
            self.by_cgroup.insert(ino, id);
            assert(self.cgroup_view() =~= old_cg.insert(ino, info.id@));
        }
        let ghost cg_after = self.cgroup_view();
        if let Some(l) = ns {
            let ghost e = entry_views(self.by_ns@);
            let ghost x = (l@, info_view(info));
            let key = chars_of(l.as_str());
            let mut i: usize = 0;
            while i < self.by_ns.len()
                invariant
                    i <= self.by_ns.len(),
                    e == entry_views(self.by_ns@),
                    assoc(e) == old(self).ns_view(),
                    self.cgroup_view() == cg_after,
                    cg_after == match cgroup_ino {
                        Some(ino) => old(self).cgroup_view().insert(ino, info.id@),
                        None => old(self).cgroup_view(),
                    },
                    x == (l@, info_view(info)),
                    ns is Some && ns->0@ == l@,
                    key@ == l@,
                    forall|j: int| 0 <= j < i ==> #[trigger] e[j].0 != l@,
                decreases self.by_ns.len() - i,
            {
                if eq_str(&key, self.by_ns[i].0.as_str()) {
                    proof {
                        assert(e[i as int].0 == l@);
                        lemma_assoc_update(e, i as int, info_view(info));
                    }
                    let ghost before = self.by_ns@;
                    self.by_ns.set(i, (l, info));
                    assert(self.by_ns@ == before.update(i as int, self.by_ns@[i as int]));
                    assert(entry_views(self.by_ns@).len() == e.len());
                    assert forall|j: int| 0 <= j < e.len() implies entry_views(self.by_ns@)[j]
                        == e.update(i as int, x)[j] by {
                        if j != i {
                            assert(self.by_ns@[j] == before[j]);
                        }
                    }
                    assert(entry_views(self.by_ns@) =~= e.update(i as int, x));
                    assert(self.ns_view() == assoc(e).insert(l@, x.1));
                    return;
                }
                i = i + 1;
            }
            proof {
                lemma_assoc_push(e, x);
            }
            self.by_ns.push((l, info));
            assert(entry_views(self.by_ns@) =~= e.push(x));
        }
    }
}

impl ContainerInfo {
    /// A copy of the container record.
    pub fn clone_info(&self) -> (r: ContainerInfo)
        ensures
            info_view(r) == info_view(*self),
    {
        ContainerInfo { id: self.id.clone(), pid: self.pid }
    }
}

impl Default for DockerIndex {
    fn default() -> (r: DockerIndex)
        ensures
            r.ns_view() == Map::<Seq<char>, (Seq<char>, u32)>::empty(),
            r.cgroup_view() == Map::<u64, Seq<char>>::empty(),
    {
        DockerIndex::new()
    }
}


/// What `/proc` showed of the thread group and of the thread of an event: the
/// targets of their `ns/pid` links and the texts of their `cgroup` files,
/// `None` where these could not be read.
pub struct ProcView {
    pub tgid_ns: Option<String>,
    pub pid_ns: Option<String>,
    pub tgid_cgroup: Option<String>,
    pub pid_cgroup: Option<String>,
}

pub open spec fn opt_view(o: Option<String>) -> Option<Seq<char>> {
    match o {
        Some(s) => Some(s@),
        None => None,
    }
}

/// The container that a pid namespace link finds in the index.
pub open spec fn ns_hit(ns: Map<Seq<char>, (Seq<char>, u32)>, link: Option<Seq<char>>) -> Option<
    Seq<char>,
> {
    match link {
        Some(l) => if ns.contains_key(l) {
            Some(ns[l].0)
        } else {
            None
        },
        None => None,
    }
}

/// The container that a cgroup text shows.
pub open spec fn text_hit(text: Option<Seq<char>>, cgroup_id: u64) -> Option<Seq<char>> {
    match text {
        Some(t) => container_in_cgroup_text(t, cgroup_id),
        None => None,
    }
}

/// Whether an event runs in a container, and which: first by its cgroup id in
/// the index, then by the pid namespace of its thread group and of its thread,
/// then by the cgroup text of its thread group and of its thread; `(false,
/// "n/a")` when none of these finds one.
pub open spec fn detect_spec(
    e: ExecEvent,
    cgroups: Map<u64, Seq<char>>,
    ns: Map<Seq<char>, (Seq<char>, u32)>,
    tgid_ns: Option<Seq<char>>,
    pid_ns: Option<Seq<char>>,
    tgid_cgroup: Option<Seq<char>>,
    pid_cgroup: Option<Seq<char>>,
) -> (bool, Seq<char>) {
    if e.cgroup_id != 0 && cgroups.contains_key(e.cgroup_id) {
        (true, cgroups[e.cgroup_id])
    } else if ns_hit(ns, tgid_ns) is Some {
        (true, ns_hit(ns, tgid_ns)->0)
    } else if ns_hit(ns, pid_ns) is Some {
        (true, ns_hit(ns, pid_ns)->0)
    } else if text_hit(tgid_cgroup, e.cgroup_id) is Some {
        (true, text_hit(tgid_cgroup, e.cgroup_id)->0)
    } else if text_hit(pid_cgroup, e.cgroup_id) is Some {
        (true, text_hit(pid_cgroup, e.cgroup_id)->0)
    } else {
        (false, "n/a"@)
    }
}

/// `detect_spec` for an index and what `/proc` showed.
pub open spec fn detect_view(e: ExecEvent, docker: DockerIndex, p: ProcView) -> (bool, Seq<char>) {
    detect_spec(
        e,
        docker.cgroup_view(),
        docker.ns_view(),
        opt_view(p.tgid_ns),
        opt_view(p.pid_ns),
        opt_view(p.tgid_cgroup),
        opt_view(p.pid_cgroup),
    )
}

fn ns_lookup(docker: &DockerIndex, link: &Option<String>) -> (r: Option<String>)
    ensures
        opt_view(r) == ns_hit(docker.ns_view(), opt_view(*link)),
{
    match link {
        Some(l) => match docker.container_by_ns(l.as_str()) {
            Some(info) => Some(info.id),
            None => None,
        },
        None => None,
    }
}

fn text_lookup(text: &Option<String>, cgroup_id: u64) -> (r: Option<String>)
    ensures
        opt_view(r) == text_hit(opt_view(*text), cgroup_id),
{
    match text {
        Some(t) => container_from_cgroup_text(t.as_str(), cgroup_id),
        None => None,
    }
}

/// Decides whether the event runs in a container and which one (see
/// `detect_spec`).
pub fn detect_container(event: &ExecEvent, docker: &DockerIndex, probes: &ProcView) -> (r: (
    bool,
    String,
))
    ensures
        (r.0, r.1@) == detect_view(*event, *docker, *probes),
{
    if event.cgroup_id != 0 {
        if let Some(cid) = docker.container_by_cgroup(event.cgroup_id) {
            return (true, cid);
        }
    }
    if let Some(cid) = ns_lookup(docker, &probes.tgid_ns) {
        return (true, cid);
    }
    if let Some(cid) = ns_lookup(docker, &probes.pid_ns) {
        return (true, cid);
    }
    if let Some(cid) = text_lookup(&probes.tgid_cgroup, event.cgroup_id) {
        return (true, cid);
    }
    if let Some(cid) = text_lookup(&probes.pid_cgroup, event.cgroup_id) {
        return (true, cid);
    }
    (false, String::from_str("n/a"))
}

/// A container recorded under the cgroup inode that an event carries is the
/// container detected for that event, whatever `/proc` shows.
pub proof fn lemma_recorded_cgroup_detected(
    e: ExecEvent,
    before: DockerIndex,
    after: DockerIndex,
    id: Seq<char>,
    probes: ProcView,
)
    requires
        e.cgroup_id != 0,
        after.cgroup_view() == before.cgroup_view().insert(e.cgroup_id, id),
    ensures
        detect_view(e, after, probes) == (true, id),
{
}

/// When the cgroup inode of an event finds nothing, a container recorded under
/// the pid namespace link of the event's thread group is the one detected.
pub proof fn lemma_recorded_ns_detected(
    e: ExecEvent,
    before: DockerIndex,
    after: DockerIndex,
    link: Seq<char>,
    info: (Seq<char>, u32),
    probes: ProcView,
)
    requires
        after.ns_view() == before.ns_view().insert(link, info),
        !(e.cgroup_id != 0 && after.cgroup_view().contains_key(e.cgroup_id)),
        opt_view(probes.tgid_ns) == Some(link),
    ensures
        detect_view(e, after, probes) == (true, info.0),
{
}

/// An event is taken for a host event only when no source finds a container,
/// and then its container id is `n/a`.
pub proof fn lemma_host_means_nothing_found(e: ExecEvent, docker: DockerIndex, probes: ProcView)
    requires
        !detect_view(e, docker, probes).0,
    ensures
        detect_view(e, docker, probes).1 == "n/a"@,
        !(e.cgroup_id != 0 && docker.cgroup_view().contains_key(e.cgroup_id)),
        ns_hit(docker.ns_view(), opt_view(probes.tgid_ns)) is None,
        ns_hit(docker.ns_view(), opt_view(probes.pid_ns)) is None,
        text_hit(opt_view(probes.tgid_cgroup), e.cgroup_id) is None,
        text_hit(opt_view(probes.pid_cgroup), e.cgroup_id) is None,
{
}

/// An event that neither index finds, and whose cgroup texts (where read)
/// contain none of the words `docker`, `containerd`, `podman`, `libpod` once
/// lower-cased, is a host event with container id `n/a`.
pub proof fn lemma_no_runtime_word_is_host(e: ExecEvent, docker: DockerIndex, probes: ProcView)
    requires
        !(e.cgroup_id != 0 && docker.cgroup_view().contains_key(e.cgroup_id)),
        ns_hit(docker.ns_view(), opt_view(probes.tgid_ns)) is None,
        ns_hit(docker.ns_view(), opt_view(probes.pid_ns)) is None,
        forall|t: Seq<char>|
            (opt_view(probes.tgid_cgroup) == Some(t) || opt_view(probes.pid_cgroup) == Some(t)) ==> {
                let l = #[trigger] unicode_lowercase(t);
                !contains_seq(l, "docker"@) && !contains_seq(l, "containerd"@) && !contains_seq(
                    l,
                    "podman"@,
                ) && !contains_seq(l, "libpod"@)
            },
    ensures
        detect_view(e, docker, probes) == (false, "n/a"@),
{
    if let Some(t) = opt_view(probes.tgid_cgroup) {
        lemma_cgroup_text_container(t, e.cgroup_id);
    }
    if let Some(t) = opt_view(probes.pid_cgroup) {
        lemma_cgroup_text_container(t, e.cgroup_id);
    }
}

/// The sources are tried in order: the cgroup inode, the thread group's pid
/// namespace, the thread's pid namespace, the thread group's cgroup text, the
/// thread's cgroup text; the first that finds a container decides.
pub proof fn lemma_detect_order(e: ExecEvent, docker: DockerIndex, probes: ProcView)
    ensures
        ({
            let cg = docker.cgroup_view();
            let ns = docker.ns_view();
            let cg_hit = e.cgroup_id != 0 && cg.contains_key(e.cgroup_id);
            let tn = opt_view(probes.tgid_ns);
            let pn = opt_view(probes.pid_ns);
            let tn_hit = tn is Some && ns.contains_key(tn->0);
            let pn_hit = pn is Some && ns.contains_key(pn->0);
            let tc = opt_view(probes.tgid_cgroup);
            let pc = opt_view(probes.pid_cgroup);
            let tc_hit = tc is Some && container_in_cgroup_text(tc->0, e.cgroup_id) is Some;
            let pc_hit = pc is Some && container_in_cgroup_text(pc->0, e.cgroup_id) is Some;
            let r = detect_view(e, docker, probes);
            &&& cg_hit ==> r == (true, cg[e.cgroup_id])
            &&& !cg_hit && tn_hit ==> r == (true, ns[tn->0].0)
            &&& !cg_hit && !tn_hit && pn_hit ==> r == (true, ns[pn->0].0)
            &&& !cg_hit && !tn_hit && !pn_hit && tc_hit ==> r == (true, cgroup_text_id(
                tc->0,
                e.cgroup_id,
            ))
            &&& !cg_hit && !tn_hit && !pn_hit && !tc_hit && pc_hit ==> r == (true, cgroup_text_id(
                pc->0,
                e.cgroup_id,
            ))
            &&& !cg_hit && !tn_hit && !pn_hit && !tc_hit && !pc_hit ==> r == (false, "n/a"@)
        }),
{
    if let Some(t) = opt_view(probes.tgid_cgroup) {
        lemma_cgroup_text_container(t, e.cgroup_id);
    }
    if let Some(t) = opt_view(probes.pid_cgroup) {
        lemma_cgroup_text_container(t, e.cgroup_id);
    }
}

/// `docker inspect` output gives the container whose pid is its first word
/// (read as a `u32`, and not 0) and whose short id is the first 12 characters
/// (or fewer, if shorter) of its second word.
pub proof fn lemma_inspect_words(text: Seq<char>)
    ensures
        ({
            let w = words(text);
            &&& inspect_spec(text) is Some <==> (w.len() >= 2 && parse_u32_spec(w[0]) is Some
                && parse_u32_spec(w[0])->0 != 0)
            &&& inspect_spec(text) is Some ==> (inspect_spec(text)->0).1 == parse_u32_spec(w[0])->0
                && (inspect_spec(text)->0).0.len() == (if w[1].len() < 12 {
                w[1].len()
            } else {
                12
            }) && (inspect_spec(text)->0).0 == w[1].take((inspect_spec(text)->0).0.len() as int)
        }),
{
    let w = words(text);
    if inspect_spec(text) is Some && w[1].len() <= 12 {
        assert(w[1].take(w[1].len() as int) =~= w[1]);
    }
}

/// The ids that `docker ps -q` printed: the words of its output.
pub fn container_ids(ps_output: &[u8]) -> (r: Vec<String>)
    ensures
        views_of(r@) == words(utf8_lossy(ps_output@)),
{
    let text = decode_lossy(ps_output);
    split_words(text.as_str())
}

/// The first 12 characters of `s` (all of `s` if it is shorter).
pub open spec fn prefix12(s: Seq<char>) -> Seq<char> {
    if s.len() <= 12 {
        s
    } else {
        s.take(12)
    }
}

/// What the output of `docker inspect -f '{{.State.Pid}} {{.Id}}'` says of a
/// container: its first word is the pid, its second the full id. `None` when
/// either word is missing, the pid is no `u32` or is 0; the short id is the
/// first 12 characters of the full id.
pub open spec fn inspect_spec(text: Seq<char>) -> Option<(Seq<char>, u32)> {
    let w = words(text);
    if w.len() >= 2 && parse_u32_spec(w[0]) is Some && parse_u32_spec(w[0])->0 != 0 {
        Some((prefix12(w[1]), parse_u32_spec(w[0])->0))
    } else {
        None
    }
}

/// Reads the container that `docker inspect` described (see `inspect_spec`).
pub fn parse_inspect(inspect_output: &[u8]) -> (r: Option<ContainerInfo>)
    ensures
        match r {
            Some(c) => inspect_spec(utf8_lossy(inspect_output@)) == Some(info_view(c)),
            None => inspect_spec(utf8_lossy(inspect_output@)) is None,
        },
{
    let text = decode_lossy(inspect_output);
    parse_inspect_text(text.as_str())
}

/// Reads the container that the text of `docker inspect` describes (see
/// `inspect_spec`).
pub fn parse_inspect_text(text: &str) -> (r: Option<ContainerInfo>)
    ensures
        match r {
            Some(c) => inspect_spec(text@) == Some(info_view(c)),
            None => inspect_spec(text@) is None,
        },
{
    let w = split_words(text);
    assert(views_of(w@).len() == w@.len());
    if w.len() < 2 {
        return None;
    }
    assert(views_of(w@)[0] == w@[0]@);
    assert(views_of(w@)[1] == w@[1]@);
    let pid = match parse_u32(w[0].as_str()) {
        Some(p) => p,
        None => return None,
    };
    if pid == 0 {
        return None;
    }
    let full = chars_of(w[1].as_str());
    let n = if full.len() < 12 {
        full.len()
    } else {
        12
    };
    let id = substring(w[1].as_str(), 0, n);
    assert(id@ =~= prefix12(w@[1]@));
    Some(ContainerInfo { id, pid })
}

} // verus!
