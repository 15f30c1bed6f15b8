use vstd::prelude::*;
use vstd::string::*;
use crate::severity::{Severity, rank_of};
use crate::text::chars_of;

verus! {

/// The index just past the last `/` of `p`, or 0 when `p` has none.
pub open spec fn after_last_slash(p: Seq<char>) -> int
    decreases p.len(),
{
    if p.len() == 0 {
        0
    } else if p.last() == '/' {
        p.len() as int
    } else {
        after_last_slash(p.drop_last())
    }
}

/// The last `/`-separated component of a path (the whole path if it has no
/// `/`, empty if it ends with one), as `path.rsplit('/').next()` gives it.
pub open spec fn basename_spec(p: Seq<char>) -> Seq<char> {
    p.skip(after_last_slash(p))
}

proof fn lemma_after_last_slash(p: Seq<char>)
    ensures
        0 <= after_last_slash(p) <= p.len(),
        after_last_slash(p) == 0 || p[after_last_slash(p) - 1] == '/',
        forall|j: int| after_last_slash(p) <= j < p.len() ==> p[j] != '/',
    decreases p.len(),
{
    if p.len() > 0 && p.last() != '/' {
        let q = p.drop_last();
        lemma_after_last_slash(q);
        assert forall|j: int| after_last_slash(p) <= j < p.len() implies p[j] != '/' by {
            if j < q.len() {
                assert(p[j] == q[j]);
            }
        }
    }
}

/// The last `/`-separated component of `path`.
pub fn basename(path: &str) -> (r: &str)
    ensures
        r@ == basename_spec(path@),
        !r@.contains('/'),
        path@ == path@.take(path@.len() - r@.len()) + r@,
        r@.len() == path@.len() || path@[path@.len() - r@.len() - 1] == '/',
{
    let v = chars_of(path);
    let mut k: usize = 0;
    let mut i: usize = 0;
    assert(v@.take(0) =~= Seq::<char>::empty());
    while i < v.len()
        invariant
            i <= v.len(),
            v@ == path@,
            k <= i,
            k == after_last_slash(v@.take(i as int)),
        decreases v.len() - i,
    {
        assert(v@.take(i + 1).drop_last() =~= v@.take(i as int));
        if v[i] == '/' {
            k = i + 1;
        }
        i = i + 1;
    }
    assert(v@.take(i as int) =~= v@);
    proof {
        lemma_after_last_slash(v@);
    }
    let r = path.substring_char(k, v.len());
    assert(r@ =~= v@.skip(k as int));
    assert(path@ =~= path@.take(k as int) + r@);
    r
}

/// The views of a list of names.
pub open spec fn name_views(v: Seq<&'static str>) -> Seq<Seq<char>> {
    v.map_values(|s: &'static str| s@)
}

/// Whether `name` is one of `names`.
fn name_in(name: &Vec<char>, names: &Vec<&'static str>) -> (r: bool)
    ensures
        r == name_views(names@).contains(name@),
{
    let mut i: usize = 0;
    while i < names.len()
        invariant
            i <= names.len(),
            forall|j: int| 0 <= j < i ==> name_views(names@)[j] != name@,
        decreases names.len() - i,
    {
        if crate::text::eq_str(name, names[i]) {
            assert(name_views(names@)[i as int] == name@);
            return true;
        }
        i = i + 1;
    }
    proof {
        if name_views(names@).contains(name@) {
            let j = choose|j: int| 0 <= j < name_views(names@).len() && name_views(names@)[j] == name@;
            assert(false);
        }
    }
    false
}

/// Binaries that are common and benign: their executions are always `Info`.
pub open spec fn whitelist_names() -> Seq<Seq<char>> {
    seq![
        "ls"@, "whoami"@, "id"@, "pwd"@, "cat"@, "echo"@, "true"@, "false"@, "basename"@,
        "dirname"@, "head"@, "tail"@, "tr"@, "grep"@, "sed"@, "awk"@, "sort"@, "find"@,
        "uname"@, "date"@, "which"@, "tput"@, "dircolors"@, "lesspipe"@, "env"@, "printenv"@,
        "ps"@, "sleep"@,
    ]
}

/// Interactive shells.
pub open spec fn shell_names() -> Seq<Seq<char>> {
    seq!["sh"@, "bash"@, "ash"@, "zsh"@, "dash"@, "busybox"@]
}

/// Network tools.
pub open spec fn net_tool_names() -> Seq<Seq<char>> {
    seq!["curl"@, "wget"@, "nc"@, "ncat"@, "netcat"@, "nmap"@, "dig"@, "socat"@]
}

/// Mounting tools.
pub open spec fn mount_names() -> Seq<Seq<char>> {
    seq!["mount"@, "umount"@]
}

/// Namespace and chroot tools.
pub open spec fn ns_tool_names() -> Seq<Seq<char>> {
    seq!["nsenter"@, "unshare"@, "chroot"@]
}

/// Package managers.
pub open spec fn pkg_mgr_names() -> Seq<Seq<char>> {
    seq!["apk"@, "apt"@, "apt-get"@, "dpkg"@, "yum"@, "dnf"@, "microdnf"@, "pip"@, "pip3"@]
}

/// Compilers and language runtimes.
pub open spec fn compiler_names() -> Seq<Seq<char>> {
    seq!["gcc"@, "g++"@, "make"@, "cc"@, "python"@, "python3"@, "perl"@]
}

/// Privilege-related binaries.
pub open spec fn privesc_names() -> Seq<Seq<char>> {
    seq!["sudo"@, "su"@, "chmod"@, "chown"@, "setcap"@]
}

fn whitelist() -> (v: Vec<&'static str>)
    ensures
        name_views(v@) == whitelist_names(),
{
    let v = vec![
        "ls", "whoami", "id", "pwd", "cat", "echo", "true", "false", "basename", "dirname",
        "head", "tail", "tr", "grep", "sed", "awk", "sort", "find", "uname", "date", "which",
        "tput", "dircolors", "lesspipe", "env", "printenv", "ps", "sleep",
    ];
    assert(name_views(v@) =~= whitelist_names());
    v
}

fn shells() -> (v: Vec<&'static str>)
    ensures
        name_views(v@) == shell_names(),
{
    let v = vec!["sh", "bash", "ash", "zsh", "dash", "busybox"];
    assert(name_views(v@) =~= shell_names());
    v
}

fn net_tools() -> (v: Vec<&'static str>)
    ensures
        name_views(v@) == net_tool_names(),
{
    let v = vec!["curl", "wget", "nc", "ncat", "netcat", "nmap", "dig", "socat"];
    assert(name_views(v@) =~= net_tool_names());
    v
}

fn mount_tools() -> (v: Vec<&'static str>)
    ensures
        name_views(v@) == mount_names(),
{
    let v = vec!["mount", "umount"];
    assert(name_views(v@) =~= mount_names());
    v
}

fn ns_tools() -> (v: Vec<&'static str>)
    ensures
        name_views(v@) == ns_tool_names(),
{
    let v = vec!["nsenter", "unshare", "chroot"];
    assert(name_views(v@) =~= ns_tool_names());
    v
}

fn pkg_mgrs() -> (v: Vec<&'static str>)
    ensures
        name_views(v@) == pkg_mgr_names(),
{
    let v = vec!["apk", "apt", "apt-get", "dpkg", "yum", "dnf", "microdnf", "pip", "pip3"];
    assert(name_views(v@) =~= pkg_mgr_names());
    v
}

fn compilers() -> (v: Vec<&'static str>)
    ensures
        name_views(v@) == compiler_names(),
{
    let v = vec!["gcc", "g++", "make", "cc", "python", "python3", "perl"];
    assert(name_views(v@) =~= compiler_names());
    v
}

fn privesc_tools() -> (v: Vec<&'static str>)
    ensures
        name_views(v@) == privesc_names(),
{
    let v = vec!["sudo", "su", "chmod", "chown", "setcap"];
    assert(name_views(v@) =~= privesc_names());
    v
}

/// Whether the executed binary, by its last path component, is whitelisted.
pub open spec fn is_whitelisted_spec(filename: Seq<char>) -> bool {
    whitelist_names().contains(basename_spec(filename))
}

/// Whether the last path component of `filename` is a whitelisted binary.
pub fn is_whitelisted(filename: &str) -> (r: bool)
    ensures
        r == is_whitelisted_spec(filename@),
{
    let bin = chars_of(basename(filename));
    name_in(&bin, &whitelist())
}

/// The verdict of the rules on one execution.
pub struct Findings {
    pub severity: Severity,
    pub reason: &'static str,
}

/// The severity and reason that the rules give an execution, from whether it
/// runs in a container, its user id and the executed path.
pub open spec fn rules_spec(is_container: bool, uid: u32, filename: Seq<char>) -> (
    Severity,
    Seq<char>,
) {
    let bin = basename_spec(filename);
    let is_root = uid == 0;
    let is_shell = shell_names().contains(bin);
    let is_net_tool = net_tool_names().contains(bin);
    let is_mount = mount_names().contains(bin);
    let is_ns_tool = ns_tool_names().contains(bin);
    let is_pkg_mgr = pkg_mgr_names().contains(bin);
    let is_compiler = compiler_names().contains(bin);
    let is_privesc = privesc_names().contains(bin);
    if whitelist_names().contains(bin) {
        (
            Severity::Info,
            if is_container {
                "container process execution (whitelisted)"@
            } else {
                "host process execution (whitelisted)"@
            },
        )
    } else if is_container {
        if is_root && is_shell {
            (Severity::High, "root interactive shell inside container"@)
        } else if is_root && is_net_tool {
            (Severity::High, "root network tool inside container"@)
        } else if is_mount {
            (Severity::High, "mount/umount executed inside container"@)
        } else if is_ns_tool {
            (Severity::High, "namespace/chroot tool executed inside container"@)
        } else if is_root && is_pkg_mgr {
            (Severity::Medium, "package manager executed as root in container"@)
        } else if is_root && is_compiler {
            (Severity::Medium, "compiler/runtime toolchain used as root in container"@)
        } else if is_root && is_privesc {
            (Severity::Medium, "privilege-related binary in container"@)
        } else if is_shell {
            (Severity::Low, "shell executed inside container"@)
        } else {
            (Severity::Info, "container process execution"@)
        }
    } else if is_root && is_net_tool {
        (Severity::Low, "root network tool on host"@)
    } else {
        (Severity::Info, "host process execution"@)
    }
}

/// Applies the whitelist and the severity rules to one execution.
pub fn evaluate_rules(is_container: bool, uid: u32, filename: &str) -> (f: Findings)
    ensures
        f.severity == rules_spec(is_container, uid, filename@).0,
        f.reason@ == rules_spec(is_container, uid, filename@).1,
{
    if is_whitelisted(filename) {
        return Findings {
            severity: Severity::Info,
            reason: if is_container {
                "container process execution (whitelisted)"
            } else {
                "host process execution (whitelisted)"
            },
        };
    }
    let bin = chars_of(basename(filename));
    let is_root = uid == 0;
    let is_shell = name_in(&bin, &shells());
    let is_net_tool = name_in(&bin, &net_tools());
    let is_mount = name_in(&bin, &mount_tools());
    let is_ns_tool = name_in(&bin, &ns_tools());
    let is_pkg_mgr = name_in(&bin, &pkg_mgrs());
    let is_compiler = name_in(&bin, &compilers());
    let is_privesc_tool = name_in(&bin, &privesc_tools());

    if is_container {
        if is_root && is_shell {
            return Findings {
                severity: Severity::High,
                reason: "root interactive shell inside container",
            };
        }
        if is_root && is_net_tool {
            return Findings { severity: Severity::High, reason: "root network tool inside container" };
        }
        if is_mount {
            return Findings {
                severity: Severity::High,
                reason: "mount/umount executed inside container",
            };
        }
        if is_ns_tool {
            return Findings {
                severity: Severity::High,
                reason: "namespace/chroot tool executed inside container",
            };
        }
        if is_root && is_pkg_mgr {
            return Findings {
                severity: Severity::Medium,
                reason: "package manager executed as root in container",
            };
        }
        if is_root && is_compiler {
            return Findings {
                severity: Severity::Medium,
                reason: "compiler/runtime toolchain used as root in container",
            };
        }
        if is_root && is_privesc_tool {
            return Findings {
                severity: Severity::Medium,
                reason: "privilege-related binary in container",
            };
        }
        if is_shell {
            return Findings { severity: Severity::Low, reason: "shell executed inside container" };
        }
        return Findings { severity: Severity::Info, reason: "container process execution" };
    }
    if is_root && is_net_tool {
        return Findings { severity: Severity::Low, reason: "root network tool on host" };
    }
    Findings { severity: Severity::Info, reason: "host process execution" }
}

/// A whitelisted binary is always rated `Info`, in a container or on the host,
/// whoever runs it.
pub proof fn lemma_whitelisted_is_info(is_container: bool, uid: u32, filename: Seq<char>)
    requires
        is_whitelisted_spec(filename),
    ensures
        rules_spec(is_container, uid, filename).0 == Severity::Info,
{
}

/// An execution on the host is never rated above `Low`, and is rated `Low`
/// only for a network tool run by root.
pub proof fn lemma_host_at_most_low(uid: u32, filename: Seq<char>)
    ensures
        rank_of(rules_spec(false, uid, filename).0) <= 1,
        rules_spec(false, uid, filename).0 == Severity::Low ==> uid == 0 && net_tool_names().contains(
            basename_spec(filename),
        ),
{
}

/// An execution by a user other than root is never rated above `Low`, but for
/// a mounting, namespace or chroot tool run in a container.
pub proof fn lemma_non_root_at_most_low(is_container: bool, uid: u32, filename: Seq<char>)
    requires
        uid != 0,
        !(is_container && mount_names().contains(basename_spec(filename))),
        !(is_container && ns_tool_names().contains(basename_spec(filename))),
    ensures
        rank_of(rules_spec(is_container, uid, filename).0) <= 1,
{
}

/// The same execution is rated at least as severe inside a container as on
/// the host.
pub proof fn lemma_container_not_milder(uid: u32, filename: Seq<char>)
    ensures
        rank_of(rules_spec(true, uid, filename).0) >= rank_of(rules_spec(false, uid, filename).0),
{
}


/// The characters of every binary name that the rules know.
proof fn lemma_name_chars()
    ensures
        "ls"@ == seq!['l', 's'],
        "whoami"@ == seq!['w', 'h', 'o', 'a', 'm', 'i'],
        "id"@ == seq!['i', 'd'],
        "pwd"@ == seq!['p', 'w', 'd'],
        "cat"@ == seq!['c', 'a', 't'],
        "echo"@ == seq!['e', 'c', 'h', 'o'],
        "true"@ == seq!['t', 'r', 'u', 'e'],
        "false"@ == seq!['f', 'a', 'l', 's', 'e'],
        "basename"@ == seq!['b', 'a', 's', 'e', 'n', 'a', 'm', 'e'],
        "dirname"@ == seq!['d', 'i', 'r', 'n', 'a', 'm', 'e'],
        "head"@ == seq!['h', 'e', 'a', 'd'],
        "tail"@ == seq!['t', 'a', 'i', 'l'],
        "tr"@ == seq!['t', 'r'],
        "grep"@ == seq!['g', 'r', 'e', 'p'],
        "sed"@ == seq!['s', 'e', 'd'],
        "awk"@ == seq!['a', 'w', 'k'],
        "sort"@ == seq!['s', 'o', 'r', 't'],
        "find"@ == seq!['f', 'i', 'n', 'd'],
        "uname"@ == seq!['u', 'n', 'a', 'm', 'e'],
        "date"@ == seq!['d', 'a', 't', 'e'],
        "which"@ == seq!['w', 'h', 'i', 'c', 'h'],
        "tput"@ == seq!['t', 'p', 'u', 't'],
        "dircolors"@ == seq!['d', 'i', 'r', 'c', 'o', 'l', 'o', 'r', 's'],
        "lesspipe"@ == seq!['l', 'e', 's', 's', 'p', 'i', 'p', 'e'],
        "env"@ == seq!['e', 'n', 'v'],
        "printenv"@ == seq!['p', 'r', 'i', 'n', 't', 'e', 'n', 'v'],
        "ps"@ == seq!['p', 's'],
        "sleep"@ == seq!['s', 'l', 'e', 'e', 'p'],
        "sh"@ == seq!['s', 'h'],
        "bash"@ == seq!['b', 'a', 's', 'h'],
        "ash"@ == seq!['a', 's', 'h'],
        "zsh"@ == seq!['z', 's', 'h'],
        "dash"@ == seq!['d', 'a', 's', 'h'],
        "busybox"@ == seq!['b', 'u', 's', 'y', 'b', 'o', 'x'],
        "curl"@ == seq!['c', 'u', 'r', 'l'],
        "wget"@ == seq!['w', 'g', 'e', 't'],
        "nc"@ == seq!['n', 'c'],
        "ncat"@ == seq!['n', 'c', 'a', 't'],
        "netcat"@ == seq!['n', 'e', 't', 'c', 'a', 't'],
        "nmap"@ == seq!['n', 'm', 'a', 'p'],
        "dig"@ == seq!['d', 'i', 'g'],
        "socat"@ == seq!['s', 'o', 'c', 'a', 't'],
        "mount"@ == seq!['m', 'o', 'u', 'n', 't'],
        "umount"@ == seq!['u', 'm', 'o', 'u', 'n', 't'],
        "nsenter"@ == seq!['n', 's', 'e', 'n', 't', 'e', 'r'],
        "unshare"@ == seq!['u', 'n', 's', 'h', 'a', 'r', 'e'],
        "chroot"@ == seq!['c', 'h', 'r', 'o', 'o', 't'],
        "apk"@ == seq!['a', 'p', 'k'],
        "apt"@ == seq!['a', 'p', 't'],
        "apt-get"@ == seq!['a', 'p', 't', '-', 'g', 'e', 't'],
        "dpkg"@ == seq!['d', 'p', 'k', 'g'],
        "yum"@ == seq!['y', 'u', 'm'],
        "dnf"@ == seq!['d', 'n', 'f'],
        "microdnf"@ == seq!['m', 'i', 'c', 'r', 'o', 'd', 'n', 'f'],
        "pip"@ == seq!['p', 'i', 'p'],
        "pip3"@ == seq!['p', 'i', 'p', '3'],
        "gcc"@ == seq!['g', 'c', 'c'],
        "g++"@ == seq!['g', '+', '+'],
        "make"@ == seq!['m', 'a', 'k', 'e'],
        "cc"@ == seq!['c', 'c'],
        "python"@ == seq!['p', 'y', 't', 'h', 'o', 'n'],
        "python3"@ == seq!['p', 'y', 't', 'h', 'o', 'n', '3'],
        "perl"@ == seq!['p', 'e', 'r', 'l'],
        "sudo"@ == seq!['s', 'u', 'd', 'o'],
        "su"@ == seq!['s', 'u'],
        "chmod"@ == seq!['c', 'h', 'm', 'o', 'd'],
        "chown"@ == seq!['c', 'h', 'o', 'w', 'n'],
        "setcap"@ == seq!['s', 'e', 't', 'c', 'a', 'p'],
{
    reveal_strlit("ls");
    assert("ls"@ =~= seq!['l', 's']);
    reveal_strlit("whoami");
    assert("whoami"@ =~= seq!['w', 'h', 'o', 'a', 'm', 'i']);
    reveal_strlit("id");
    assert("id"@ =~= seq!['i', 'd']);
    reveal_strlit("pwd");
    assert("pwd"@ =~= seq!['p', 'w', 'd']);
    reveal_strlit("cat");
    assert("cat"@ =~= seq!['c', 'a', 't']);
    reveal_strlit("echo");
    assert("echo"@ =~= seq!['e', 'c', 'h', 'o']);
    reveal_strlit("true");
    assert("true"@ =~= seq!['t', 'r', 'u', 'e']);
    reveal_strlit("false");
    assert("false"@ =~= seq!['f', 'a', 'l', 's', 'e']);
    reveal_strlit("basename");
    assert("basename"@ =~= seq!['b', 'a', 's', 'e', 'n', 'a', 'm', 'e']);
    reveal_strlit("dirname");
    assert("dirname"@ =~= seq!['d', 'i', 'r', 'n', 'a', 'm', 'e']);
    reveal_strlit("head");
    assert("head"@ =~= seq!['h', 'e', 'a', 'd']);
    reveal_strlit("tail");
    assert("tail"@ =~= seq!['t', 'a', 'i', 'l']);
    reveal_strlit("tr");
    assert("tr"@ =~= seq!['t', 'r']);
    reveal_strlit("grep");
    assert("grep"@ =~= seq!['g', 'r', 'e', 'p']);
    reveal_strlit("sed");
    assert("sed"@ =~= seq!['s', 'e', 'd']);
    reveal_strlit("awk");
    assert("awk"@ =~= seq!['a', 'w', 'k']);
    reveal_strlit("sort");
    assert("sort"@ =~= seq!['s', 'o', 'r', 't']);
    reveal_strlit("find");
    assert("find"@ =~= seq!['f', 'i', 'n', 'd']);
    reveal_strlit("uname");
    assert("uname"@ =~= seq!['u', 'n', 'a', 'm', 'e']);
    reveal_strlit("date");
    assert("date"@ =~= seq!['d', 'a', 't', 'e']);
    reveal_strlit("which");
    assert("which"@ =~= seq!['w', 'h', 'i', 'c', 'h']);
    reveal_strlit("tput");
    assert("tput"@ =~= seq!['t', 'p', 'u', 't']);
    reveal_strlit("dircolors");
    assert("dircolors"@ =~= seq!['d', 'i', 'r', 'c', 'o', 'l', 'o', 'r', 's']);
    reveal_strlit("lesspipe");
    assert("lesspipe"@ =~= seq!['l', 'e', 's', 's', 'p', 'i', 'p', 'e']);
    reveal_strlit("env");
    assert("env"@ =~= seq!['e', 'n', 'v']);
    reveal_strlit("printenv");
    assert("printenv"@ =~= seq!['p', 'r', 'i', 'n', 't', 'e', 'n', 'v']);
    reveal_strlit("ps");
    assert("ps"@ =~= seq!['p', 's']);
    reveal_strlit("sleep");
    assert("sleep"@ =~= seq!['s', 'l', 'e', 'e', 'p']);
    reveal_strlit("sh");
    assert("sh"@ =~= seq!['s', 'h']);
    reveal_strlit("bash");
    assert("bash"@ =~= seq!['b', 'a', 's', 'h']);
    reveal_strlit("ash");
    assert("ash"@ =~= seq!['a', 's', 'h']);
    reveal_strlit("zsh");
    assert("zsh"@ =~= seq!['z', 's', 'h']);
    reveal_strlit("dash");
    assert("dash"@ =~= seq!['d', 'a', 's', 'h']);
    reveal_strlit("busybox");
    assert("busybox"@ =~= seq!['b', 'u', 's', 'y', 'b', 'o', 'x']);
    reveal_strlit("curl");
    assert("curl"@ =~= seq!['c', 'u', 'r', 'l']);
    reveal_strlit("wget");
    assert("wget"@ =~= seq!['w', 'g', 'e', 't']);
    reveal_strlit("nc");
    assert("nc"@ =~= seq!['n', 'c']);
    reveal_strlit("ncat");
    assert("ncat"@ =~= seq!['n', 'c', 'a', 't']);
    reveal_strlit("netcat");
    assert("netcat"@ =~= seq!['n', 'e', 't', 'c', 'a', 't']);
    reveal_strlit("nmap");
    assert("nmap"@ =~= seq!['n', 'm', 'a', 'p']);
    reveal_strlit("dig");
    assert("dig"@ =~= seq!['d', 'i', 'g']);
    reveal_strlit("socat");
    assert("socat"@ =~= seq!['s', 'o', 'c', 'a', 't']);
    reveal_strlit("mount");
    assert("mount"@ =~= seq!['m', 'o', 'u', 'n', 't']);
    reveal_strlit("umount");
    assert("umount"@ =~= seq!['u', 'm', 'o', 'u', 'n', 't']);
    reveal_strlit("nsenter");
    assert("nsenter"@ =~= seq!['n', 's', 'e', 'n', 't', 'e', 'r']);
    reveal_strlit("unshare");
    assert("unshare"@ =~= seq!['u', 'n', 's', 'h', 'a', 'r', 'e']);
    reveal_strlit("chroot");
    assert("chroot"@ =~= seq!['c', 'h', 'r', 'o', 'o', 't']);
    reveal_strlit("apk");
    assert("apk"@ =~= seq!['a', 'p', 'k']);
    reveal_strlit("apt");
    assert("apt"@ =~= seq!['a', 'p', 't']);
    reveal_strlit("apt-get");
    assert("apt-get"@ =~= seq!['a', 'p', 't', '-', 'g', 'e', 't']);
    reveal_strlit("dpkg");
    assert("dpkg"@ =~= seq!['d', 'p', 'k', 'g']);
    reveal_strlit("yum");
    assert("yum"@ =~= seq!['y', 'u', 'm']);
    reveal_strlit("dnf");
    assert("dnf"@ =~= seq!['d', 'n', 'f']);
    reveal_strlit("microdnf");
    assert("microdnf"@ =~= seq!['m', 'i', 'c', 'r', 'o', 'd', 'n', 'f']);
    reveal_strlit("pip");
    assert("pip"@ =~= seq!['p', 'i', 'p']);
    reveal_strlit("pip3");
    assert("pip3"@ =~= seq!['p', 'i', 'p', '3']);
    reveal_strlit("gcc");
    assert("gcc"@ =~= seq!['g', 'c', 'c']);
    reveal_strlit("g++");
    assert("g++"@ =~= seq!['g', '+', '+']);
    reveal_strlit("make");
    assert("make"@ =~= seq!['m', 'a', 'k', 'e']);
    reveal_strlit("cc");
    assert("cc"@ =~= seq!['c', 'c']);
    reveal_strlit("python");
    assert("python"@ =~= seq!['p', 'y', 't', 'h', 'o', 'n']);
    reveal_strlit("python3");
    assert("python3"@ =~= seq!['p', 'y', 't', 'h', 'o', 'n', '3']);
    reveal_strlit("perl");
    assert("perl"@ =~= seq!['p', 'e', 'r', 'l']);
    reveal_strlit("sudo");
    assert("sudo"@ =~= seq!['s', 'u', 'd', 'o']);
    reveal_strlit("su");
    assert("su"@ =~= seq!['s', 'u']);
    reveal_strlit("chmod");
    assert("chmod"@ =~= seq!['c', 'h', 'm', 'o', 'd']);
    reveal_strlit("chown");
    assert("chown"@ =~= seq!['c', 'h', 'o', 'w', 'n']);
    reveal_strlit("setcap");
    assert("setcap"@ =~= seq!['s', 'e', 't', 'c', 'a', 'p']);
}

/// Executions of `ls`, `whoami`, `id`, `pwd`, `cat`, `echo`, `true`, `false`, `basename`,
/// `dirname`, `head`, `tail`, `tr`, `grep`, `sed`, `awk`, `sort`, `find`, `uname`, `date`,
/// `which`, `tput`, `dircolors`, `lesspipe`, `env`, `printenv`, `ps` and `sleep` are `Info`,
/// whoever runs them and wherever.
pub proof fn lemma_whitelisted_names_info(is_container: bool, uid: u32, filename: Seq<char>)
    requires
        ({
            let b = basename_spec(filename);
            b == "ls"@ || b == "whoami"@ || b == "id"@ || b == "pwd"@ || b == "cat"@ ||
                b == "echo"@ || b == "true"@ || b == "false"@ || b == "basename"@ ||
                b == "dirname"@ || b == "head"@ || b == "tail"@ || b == "tr"@ || b == "grep"@ ||
                b == "sed"@ || b == "awk"@ || b == "sort"@ || b == "find"@ || b == "uname"@ ||
                b == "date"@ || b == "which"@ || b == "tput"@ || b == "dircolors"@ ||
                b == "lesspipe"@ || b == "env"@ || b == "printenv"@ || b == "ps"@ || b == "sleep"@
        }),
    ensures
        rules_spec(is_container, uid, filename) == (
            Severity::Info,
            if is_container {
                "container process execution (whitelisted)"@
            } else {
                "host process execution (whitelisted)"@
            },
        ),
{
    lemma_name_chars();
}

/// Root running `sh`, `bash`, `ash`, `zsh`, `dash` or `busybox` in a container is `High`.
pub proof fn lemma_root_shell_in_container(uid: u32, filename: Seq<char>)
    requires
        uid == 0,
        ({
            let b = basename_spec(filename);
            b == "sh"@ || b == "bash"@ || b == "ash"@ || b == "zsh"@ || b == "dash"@ ||
                b == "busybox"@
        }),
    ensures
        rules_spec(true, uid, filename) == (Severity::High, "root interactive shell inside container"@),
{
    lemma_name_chars();
}

/// Root running `curl`, `wget`, `nc`, `ncat`, `netcat`, `nmap`, `dig` or `socat` in a
/// container is `High`.
pub proof fn lemma_root_net_tool_in_container(uid: u32, filename: Seq<char>)
    requires
        uid == 0,
        ({
            let b = basename_spec(filename);
            b == "curl"@ || b == "wget"@ || b == "nc"@ || b == "ncat"@ || b == "netcat"@ ||
                b == "nmap"@ || b == "dig"@ || b == "socat"@
        }),
    ensures
        rules_spec(true, uid, filename) == (Severity::High, "root network tool inside container"@),
{
    lemma_name_chars();
}

/// Anyone running `mount` or `umount` in a container is `High`.
pub proof fn lemma_mount_in_container(uid: u32, filename: Seq<char>)
    requires
        ({
            let b = basename_spec(filename);
            b == "mount"@ || b == "umount"@
        }),
    ensures
        rules_spec(true, uid, filename) == (Severity::High, "mount/umount executed inside container"@),
{
    lemma_name_chars();
}

/// Anyone running `nsenter`, `unshare` or `chroot` in a container is `High`.
pub proof fn lemma_ns_tool_in_container(uid: u32, filename: Seq<char>)
    requires
        ({
            let b = basename_spec(filename);
            b == "nsenter"@ || b == "unshare"@ || b == "chroot"@
        }),
    ensures
        rules_spec(true, uid, filename) == (Severity::High, "namespace/chroot tool executed inside container"@),
{
    lemma_name_chars();
}

/// Root running `apk`, `apt`, `apt-get`, `dpkg`, `yum`, `dnf`, `microdnf`, `pip` or `pip3`
/// in a container is `Medium`.
pub proof fn lemma_root_pkg_mgr_in_container(uid: u32, filename: Seq<char>)
    requires
        uid == 0,
        ({
            let b = basename_spec(filename);
            b == "apk"@ || b == "apt"@ || b == "apt-get"@ || b == "dpkg"@ || b == "yum"@ ||
                b == "dnf"@ || b == "microdnf"@ || b == "pip"@ || b == "pip3"@
        }),
    ensures
        rules_spec(true, uid, filename) == (Severity::Medium, "package manager executed as root in container"@),
{
    lemma_name_chars();
}

/// Root running `gcc`, `g++`, `make`, `cc`, `python`, `python3` or `perl` in a container is
/// `Medium`.
pub proof fn lemma_root_compiler_in_container(uid: u32, filename: Seq<char>)
    requires
        uid == 0,
        ({
            let b = basename_spec(filename);
            b == "gcc"@ || b == "g++"@ || b == "make"@ || b == "cc"@ || b == "python"@ ||
                b == "python3"@ || b == "perl"@
        }),
    ensures
        rules_spec(true, uid, filename) == (Severity::Medium, "compiler/runtime toolchain used as root in container"@),
{
    lemma_name_chars();
}

/// Root running `sudo`, `su`, `chmod`, `chown` or `setcap` in a container is `Medium`.
pub proof fn lemma_root_privesc_in_container(uid: u32, filename: Seq<char>)
    requires
        uid == 0,
        ({
            let b = basename_spec(filename);
            b == "sudo"@ || b == "su"@ || b == "chmod"@ || b == "chown"@ || b == "setcap"@
        }),
    ensures
        rules_spec(true, uid, filename) == (Severity::Medium, "privilege-related binary in container"@),
{
    lemma_name_chars();
}

/// A user other than root running `sh`, `bash`, `ash`, `zsh`, `dash` or `busybox` in a
/// container is `Low`.
pub proof fn lemma_user_shell_in_container(uid: u32, filename: Seq<char>)
    requires
        uid != 0,
        ({
            let b = basename_spec(filename);
            b == "sh"@ || b == "bash"@ || b == "ash"@ || b == "zsh"@ || b == "dash"@ ||
                b == "busybox"@
        }),
    ensures
        rules_spec(true, uid, filename) == (Severity::Low, "shell executed inside container"@),
{
    lemma_name_chars();
}

/// A user other than root running a network tool, package manager, compiler or
/// privilege-related binary in a container is `Info`.
pub proof fn lemma_user_tool_in_container(uid: u32, filename: Seq<char>)
    requires
        uid != 0,
        ({
            let b = basename_spec(filename);
            b == "curl"@ || b == "wget"@ || b == "nc"@ || b == "ncat"@ || b == "netcat"@ ||
                b == "nmap"@ || b == "dig"@ || b == "socat"@ || b == "apk"@ || b == "apt"@ ||
                b == "apt-get"@ || b == "dpkg"@ || b == "yum"@ || b == "dnf"@ ||
                b == "microdnf"@ || b == "pip"@ || b == "pip3"@ || b == "gcc"@ || b == "g++"@ ||
                b == "make"@ || b == "cc"@ || b == "python"@ || b == "python3"@ || b == "perl"@ ||
                b == "sudo"@ || b == "su"@ || b == "chmod"@ || b == "chown"@ || b == "setcap"@
        }),
    ensures
        rules_spec(true, uid, filename) == (Severity::Info, "container process execution"@),
{
    lemma_name_chars();
}

/// Root running `curl`, `wget`, `nc`, `ncat`, `netcat`, `nmap`, `dig` or `socat` on the host
/// is `Low`.
pub proof fn lemma_root_net_tool_on_host(uid: u32, filename: Seq<char>)
    requires
        uid == 0,
        ({
            let b = basename_spec(filename);
            b == "curl"@ || b == "wget"@ || b == "nc"@ || b == "ncat"@ || b == "netcat"@ ||
                b == "nmap"@ || b == "dig"@ || b == "socat"@
        }),
    ensures
        rules_spec(false, uid, filename) == (Severity::Low, "root network tool on host"@),
{
    lemma_name_chars();
}

/// On the host, every execution but a whitelisted one and a network tool run by root is
/// `Info`.
pub proof fn lemma_other_host_executions(uid: u32, filename: Seq<char>)
    requires
        !({
            let b = basename_spec(filename);
            b == "ls"@ || b == "whoami"@ || b == "id"@ || b == "pwd"@ || b == "cat"@ ||
                b == "echo"@ || b == "true"@ || b == "false"@ || b == "basename"@ ||
                b == "dirname"@ || b == "head"@ || b == "tail"@ || b == "tr"@ || b == "grep"@ ||
                b == "sed"@ || b == "awk"@ || b == "sort"@ || b == "find"@ || b == "uname"@ ||
                b == "date"@ || b == "which"@ || b == "tput"@ || b == "dircolors"@ ||
                b == "lesspipe"@ || b == "env"@ || b == "printenv"@ || b == "ps"@ || b == "sleep"@
        }),
        uid != 0 || !({
            let b = basename_spec(filename);
            b == "curl"@ || b == "wget"@ || b == "nc"@ || b == "ncat"@ || b == "netcat"@ ||
                b == "nmap"@ || b == "dig"@ || b == "socat"@
        }),
    ensures
        rules_spec(false, uid, filename) == (Severity::Info, "host process execution"@),
{
    lemma_name_chars();
}

/// In a container, a binary that no rule names is `Info`.
pub proof fn lemma_unknown_binary_in_container(uid: u32, filename: Seq<char>)
    requires
        !({
            let b = basename_spec(filename);
            b == "ls"@ || b == "whoami"@ || b == "id"@ || b == "pwd"@ || b == "cat"@ ||
                b == "echo"@ || b == "true"@ || b == "false"@ || b == "basename"@ ||
                b == "dirname"@ || b == "head"@ || b == "tail"@ || b == "tr"@ || b == "grep"@ ||
                b == "sed"@ || b == "awk"@ || b == "sort"@ || b == "find"@ || b == "uname"@ ||
                b == "date"@ || b == "which"@ || b == "tput"@ || b == "dircolors"@ ||
                b == "lesspipe"@ || b == "env"@ || b == "printenv"@ || b == "ps"@ ||
                b == "sleep"@ || b == "sh"@ || b == "bash"@ || b == "ash"@ || b == "zsh"@ ||
                b == "dash"@ || b == "busybox"@ || b == "curl"@ || b == "wget"@ || b == "nc"@ ||
                b == "ncat"@ || b == "netcat"@ || b == "nmap"@ || b == "dig"@ || b == "socat"@ ||
                b == "mount"@ || b == "umount"@ || b == "nsenter"@ || b == "unshare"@ ||
                b == "chroot"@ || b == "apk"@ || b == "apt"@ || b == "apt-get"@ || b == "dpkg"@ ||
                b == "yum"@ || b == "dnf"@ || b == "microdnf"@ || b == "pip"@ || b == "pip3"@ ||
                b == "gcc"@ || b == "g++"@ || b == "make"@ || b == "cc"@ || b == "python"@ ||
                b == "python3"@ || b == "perl"@ || b == "sudo"@ || b == "su"@ || b == "chmod"@ ||
                b == "chown"@ || b == "setcap"@
        }),
    ensures
        rules_spec(true, uid, filename) == (Severity::Info, "container process execution"@),
{
    lemma_name_chars();
}

} // verus!
