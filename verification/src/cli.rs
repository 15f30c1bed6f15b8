use vstd::prelude::*;
use crate::severity::{parse_spec, Severity};
use crate::docker::opt_view;
use crate::text::{chars_of, eq_str, views_of};

verus! {

/// What the command line asks for: only container events or all, the
/// minimum severity printed, the file that JSON lines are appended to, and
/// whether every printed event is logged or only alerts.
pub struct Options {
    pub container_only: bool,
    pub min_severity: Severity,
    pub json_log: Option<String>,
    pub json_all: bool,
}

/// Why the command line was refused.
#[derive(Debug)]
pub enum ArgError {
    /// `--min-severity` is the last argument.
    MissingSeverity,
    /// The value after `--min-severity` names no severity.
    InvalidSeverity(String),
    /// `--json-log` is the last argument.
    MissingJsonPath,
}

/// The index of the first argument equal to `a`, or the number of arguments
/// when none is.
pub open spec fn first_index(args: Seq<Seq<char>>, a: Seq<char>) -> int
    decreases args.len(),
{
    if args.len() == 0 {
        0
    } else if args[0] == a {
        0
    } else {
        1 + first_index(args.drop_first(), a)
    }
}

/// The minimum severity that the arguments ask for: the severity named by the
/// argument after the first `--min-severity`, `Info` when there is no
/// `--min-severity`. `Err(None)` when `--min-severity` is last, `Err(Some(v))`
/// when its value `v` names no severity.
pub open spec fn severity_arg_spec(args: Seq<Seq<char>>) -> Result<Severity, Option<Seq<char>>> {
    let i = first_index(args, "--min-severity"@);
    if i >= args.len() {
        Ok(Severity::Info)
    } else if i + 1 < args.len() {
        match parse_spec(args[i + 1]) {
            Some(s) => Ok(s),
            None => Err(Some(args[i + 1])),
        }
    } else {
        Err(None)
    }
}

/// The JSON log file that the arguments ask for: the argument after the first
/// `--json-log`, `None` when there is no `--json-log`; `Err` when
/// `--json-log` is last.
pub open spec fn json_arg_spec(args: Seq<Seq<char>>) -> Result<Option<Seq<char>>, ()> {
    let i = first_index(args, "--json-log"@);
    if i >= args.len() {
        Ok(None)
    } else if i + 1 < args.len() {
        Ok(Some(args[i + 1]))
    } else {
        Err(())
    }
}

/// Whether the arguments ask for help: `-h` or `--help` is among them.
pub open spec fn wants_help_spec(args: Seq<Seq<char>>) -> bool {
    args.contains("-h"@) || args.contains("--help"@)
}

proof fn lemma_first_index(args: Seq<Seq<char>>, a: Seq<char>, i: int)
    requires
        0 <= i <= args.len(),
        forall|j: int| 0 <= j < i ==> #[trigger] args[j] != a,
        i == args.len() || args[i] == a,
    ensures
        first_index(args, a) == i,
    decreases i,
{
    if i > 0 {
        let d = args.drop_first();
        assert forall|j: int| 0 <= j < i - 1 implies #[trigger] d[j] != a by {
            assert(d[j] == args[j + 1]);
        }
        lemma_first_index(d, a, i - 1);
    }
}

/// The index of the first argument equal to `a` (the number of arguments when
/// none is).
fn find_arg(args: &Vec<String>, a: &str) -> (r: usize)
    ensures
        r == first_index(views_of(args@), a@),
        r <= args.len(),
{
    let ghost v = views_of(args@);
    let av = chars_of(a);
    let mut i: usize = 0;
    while i < args.len()
        invariant
            i <= args.len(),
            v == views_of(args@),
            av@ == a@,
            forall|j: int| 0 <= j < i ==> #[trigger] v[j] != a@,
        decreases args.len() - i,
    {
        if eq_str(&av, args[i].as_str()) {
            proof {
                lemma_first_index(v, a@, i as int);
            }
            return i;
        }
        i = i + 1;
    }
    proof {
        lemma_first_index(v, a@, i as int);
    }
    i
}

fn has_arg(args: &Vec<String>, a: &str) -> (r: bool)
    ensures
        r == views_of(args@).contains(a@),
{
    let i = find_arg(args, a);
    proof {
        let v = views_of(args@);
        lemma_first_index_bound(v, a@);
        if v.contains(a@) {
            let j = choose|j: int| 0 <= j < v.len() && v[j] == a@;
            lemma_first_index_le(v, a@, j);
        }
    }
    i < args.len()
}

proof fn lemma_first_index_bound(args: Seq<Seq<char>>, a: Seq<char>)
    ensures
        0 <= first_index(args, a) <= args.len(),
        first_index(args, a) < args.len() ==> args[first_index(args, a)] == a,
    decreases args.len(),
{
    if args.len() > 0 && args[0] != a {
        lemma_first_index_bound(args.drop_first(), a);
    }
}

proof fn lemma_first_index_le(args: Seq<Seq<char>>, a: Seq<char>, j: int)
    requires
        0 <= j < args.len(),
        args[j] == a,
    ensures
        first_index(args, a) <= j,
    decreases j,
{
    if j > 0 && args[0] != a {
        lemma_first_index_le(args.drop_first(), a, j - 1);
    }
}

/// Reads the options from the command line: containers only when
/// `--container-only` is given, every printed event logged when `--json-all`
/// is given, the minimum severity as `severity_arg_spec` and the log file as
/// `json_arg_spec` say; a bad severity is reported before a missing log file.
pub fn parse_args(args: &Vec<String>) -> (r: Result<Options, ArgError>)
    ensures
        match r {
            Ok(o) => {
                &&& o.container_only == views_of(args@).contains("--container-only"@)
                &&& o.json_all == views_of(args@).contains("--json-all"@)
                &&& severity_arg_spec(views_of(args@)) == Ok::<Severity, Option<Seq<char>>>(
                    o.min_severity,
                )
                &&& json_arg_spec(views_of(args@)) == Ok::<Option<Seq<char>>, ()>(
                    opt_view(o.json_log),
                )
            },
            Err(ArgError::MissingSeverity) => severity_arg_spec(views_of(args@)) == Err::<
                Severity,
                Option<Seq<char>>,
            >(None),
            Err(ArgError::InvalidSeverity(v)) => severity_arg_spec(views_of(args@)) == Err::<
                Severity,
                Option<Seq<char>>,
            >(Some(v@)),
            Err(ArgError::MissingJsonPath) => severity_arg_spec(views_of(args@)) is Ok
                && json_arg_spec(views_of(args@)) is Err,
        },
{
    let container_only = has_arg(args, "--container-only");
    let json_all = has_arg(args, "--json-all");
    let i = find_arg(args, "--min-severity");
    let min_severity = if i >= args.len() {
        Severity::Info
    } else if i + 1 < args.len() {
        assert(views_of(args@)[i + 1] == args@[i + 1]@);
        match Severity::parse(args[i + 1].as_str()) {
            Some(s) => s,
            None => {
                return Err(ArgError::InvalidSeverity(args[i + 1].clone()));
            },
        }
    } else {
        return Err(ArgError::MissingSeverity);
    };
    let j = find_arg(args, "--json-log");
    let json_log = if j >= args.len() {
        None
    } else if j + 1 < args.len() {
        assert(views_of(args@)[j + 1] == args@[j + 1]@);
        Some(args[j + 1].clone())
    } else {
        return Err(ArgError::MissingJsonPath);
    };
    Ok(Options { container_only, min_severity, json_log, json_all })
}

/// Whether `-h` or `--help` is among the arguments.
pub fn wants_help(args: &Vec<String>) -> (r: bool)
    ensures
        r == wants_help_spec(views_of(args@)),
{
    has_arg(args, "-h") || has_arg(args, "--help")
}


/// The minimum severity is `Info` without `--min-severity`, and otherwise the
/// severity named by the word after its first occurrence; a value naming none
/// is refused with that value, a missing value refused as missing.
pub proof fn lemma_min_severity_flag(pre: Seq<Seq<char>>, v: Seq<char>, post: Seq<Seq<char>>)
    requires
        !pre.contains("--min-severity"@),
    ensures
        severity_arg_spec(pre) == Ok::<Severity, Option<Seq<char>>>(Severity::Info),
        severity_arg_spec(pre + seq!["--min-severity"@]) == Err::<Severity, Option<Seq<char>>>(None),
        severity_arg_spec(pre + seq!["--min-severity"@, v] + post) == match parse_spec(v) {
            Some(s) => Ok::<Severity, Option<Seq<char>>>(s),
            None => Err(Some(v)),
        },
{
    let k = "--min-severity"@;
    assert forall|j: int| 0 <= j < pre.len() implies #[trigger] pre[j] != k by {
        if pre[j] == k {
            assert(pre.contains(k));
        }
    }
    lemma_first_index(pre, k, pre.len() as int);
    let a1 = pre + seq![k];
    assert forall|j: int| 0 <= j < pre.len() implies #[trigger] a1[j] != k by {
        assert(a1[j] == pre[j]);
    }
    lemma_first_index(a1, k, pre.len() as int);
    let a2 = pre + seq![k, v] + post;
    assert forall|j: int| 0 <= j < pre.len() implies #[trigger] a2[j] != k by {
        assert(a2[j] == pre[j]);
    }
    lemma_first_index(a2, k, pre.len() as int);
    assert(a2[(pre.len() + 1) as int] == v);
}

/// The JSON log file is absent without `--json-log`, and otherwise the word
/// after its first occurrence; a missing value is refused.
pub proof fn lemma_json_log_flag(pre: Seq<Seq<char>>, v: Seq<char>, post: Seq<Seq<char>>)
    requires
        !pre.contains("--json-log"@),
    ensures
        json_arg_spec(pre) == Ok::<Option<Seq<char>>, ()>(None),
        json_arg_spec(pre + seq!["--json-log"@]) is Err,
        json_arg_spec(pre + seq!["--json-log"@, v] + post) == Ok::<Option<Seq<char>>, ()>(Some(v)),
{
    let k = "--json-log"@;
    assert forall|j: int| 0 <= j < pre.len() implies #[trigger] pre[j] != k by {
        if pre[j] == k {
            assert(pre.contains(k));
        }
    }
    lemma_first_index(pre, k, pre.len() as int);
    let a1 = pre + seq![k];
    assert forall|j: int| 0 <= j < pre.len() implies #[trigger] a1[j] != k by {
        assert(a1[j] == pre[j]);
    }
    lemma_first_index(a1, k, pre.len() as int);
    let a2 = pre + seq![k, v] + post;
    assert forall|j: int| 0 <= j < pre.len() implies #[trigger] a2[j] != k by {
        assert(a2[j] == pre[j]);
    }
    lemma_first_index(a2, k, pre.len() as int);
    assert(a2[(pre.len() + 1) as int] == v);
}

} // verus!
