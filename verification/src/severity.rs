use vstd::prelude::*;
use crate::text::{ascii_lower, eq_str, lower_chars};

verus! {

/// How suspicious a process execution is, from least to most.
#[derive(Clone, Copy, Debug, PartialEq, Eq, Structural, PartialOrd, Ord)]
pub enum Severity {
    Info,
    Low,
    Medium,
    High,
}

/// The position of a severity in the order `Info < Low < Medium < High`.
pub open spec fn rank_of(s: Severity) -> nat {
    match s {
        Severity::Info => 0,
        Severity::Low => 1,
        Severity::Medium => 2,
        Severity::High => 3,
    }
}

/// The upper-case label of a severity.
pub open spec fn label_of(s: Severity) -> Seq<char> {
    match s {
        Severity::Info => "INFO"@,
        Severity::Low => "LOW"@,
        Severity::Medium => "MEDIUM"@,
        Severity::High => "HIGH"@,
    }
}

/// The terminal escape sequence that colours output of a severity.
pub open spec fn color_of(s: Severity) -> Seq<char> {
    match s {
        Severity::Info => "\x1b[1;36m"@,
        Severity::Low => "\x1b[1;33m"@,
        Severity::Medium => "\x1b[1;35m"@,
        Severity::High => "\x1b[1;31m"@,
    }
}

/// The severity named by a level word, compared without regard to ASCII case:
/// `info`, `low`, `medium` or `med`, `high`.
pub open spec fn parse_spec(s: Seq<char>) -> Option<Severity> {
    let l = ascii_lower(s);
    if l == "info"@ {
        Some(Severity::Info)
    } else if l == "low"@ {
        Some(Severity::Low)
    } else if l == "medium"@ || l == "med"@ {
        Some(Severity::Medium)
    } else if l == "high"@ {
        Some(Severity::High)
    } else {
        None
    }
}

impl Severity {
    /// The upper-case label: `INFO`, `LOW`, `MEDIUM` or `HIGH`.
    pub fn as_str(self) -> (r: &'static str)
        ensures
            r@ == label_of(self),
    {
        match self {
            Severity::Info => "INFO",
            Severity::Low => "LOW",
            Severity::Medium => "MEDIUM",
            Severity::High => "HIGH",
        }
    }

    /// The bold terminal colour of the severity: cyan, yellow, magenta or red.
    pub fn color(self) -> (r: &'static str)
        ensures
            r@ == color_of(self),
    {
        match self {
            Severity::Info => "\x1b[1;36m",
            Severity::Low => "\x1b[1;33m",
            Severity::Medium => "\x1b[1;35m",
            Severity::High => "\x1b[1;31m",
        }
    }

    /// Reads a level word, ignoring ASCII case; `None` for any other word.
    pub fn parse(s: &str) -> (r: Option<Severity>)
        ensures
            r == parse_spec(s@),
    {
        let l = lower_chars(s);
        if eq_str(&l, "info") {
            Some(Severity::Info)
        } else if eq_str(&l, "low") {
            Some(Severity::Low)
        } else if eq_str(&l, "medium") || eq_str(&l, "med") {
            Some(Severity::Medium)
        } else if eq_str(&l, "high") {
            Some(Severity::High)
        } else {
            None
        }
    }

    /// The position of the severity in the order `Info < Low < Medium < High`.
    pub fn rank(self) -> (r: u8)
        ensures
            r == rank_of(self),
    {
        match self {
            Severity::Info => 0,
            Severity::Low => 1,
            Severity::Medium => 2,
            Severity::High => 3,
        }
    }
}

/// The label of every severity reads back as that severity.
pub proof fn lemma_parse_label(s: Severity)
    ensures
        parse_spec(label_of(s)) == Some(s),
{
    reveal_strlit("INFO");
    reveal_strlit("LOW");
    reveal_strlit("MEDIUM");
    reveal_strlit("HIGH");
    reveal_strlit("info");
    reveal_strlit("low");
    reveal_strlit("medium");
    reveal_strlit("med");
    reveal_strlit("high");
    assert("info"@.len() == 4 && "low"@.len() == 3 && "medium"@.len() == 6);
    assert("med"@.len() == 3 && "high"@.len() == 4);
    assert("medium"@[0] != "high"@[0] && "med"@[0] != "high"@[0] && "info"@[0] != "high"@[0]);
    match s {
        Severity::Info => assert(ascii_lower(label_of(s)) =~= "info"@),
        Severity::Low => {
            assert(ascii_lower(label_of(s)) =~= "low"@);
            assert(ascii_lower(label_of(s)) != "info"@);
        },
        Severity::Medium => {
            assert(ascii_lower(label_of(s)) =~= "medium"@);
            assert(ascii_lower(label_of(s)) != "info"@);
            assert(ascii_lower(label_of(s)) != "low"@);
        },
        Severity::High => {
            assert(ascii_lower(label_of(s)) =~= "high"@);
            assert(ascii_lower(label_of(s)) != "info"@);
            assert(ascii_lower(label_of(s)) != "low"@);
            assert(ascii_lower(label_of(s)) != "medium"@);
            assert(ascii_lower(label_of(s)) != "med"@);
        },
    }
}

/// Level words that differ only in ASCII case name the same severity.
pub proof fn lemma_parse_ignores_case(a: Seq<char>, b: Seq<char>)
    requires
        ascii_lower(a) == ascii_lower(b),
    ensures
        parse_spec(a) == parse_spec(b),
{
}

/// Distinct severities have distinct ranks, labels and colours.
pub proof fn lemma_severity_distinct(a: Severity, b: Severity)
    requires
        a != b,
    ensures
        rank_of(a) != rank_of(b),
        label_of(a) != label_of(b),
        color_of(a) != color_of(b),
{
    reveal_strlit("INFO");
    reveal_strlit("LOW");
    reveal_strlit("MEDIUM");
    reveal_strlit("HIGH");
    reveal_strlit("\x1b[1;36m");
    reveal_strlit("\x1b[1;33m");
    reveal_strlit("\x1b[1;35m");
    reveal_strlit("\x1b[1;31m");
    if label_of(a) == label_of(b) {
        assert(label_of(a)[0] == label_of(b)[0]);
        assert(label_of(a).len() == label_of(b).len());
    }
    if color_of(a) == color_of(b) {
        assert(color_of(a)[5] == color_of(b)[5]);
    }
}


/// The labels are `INFO`, `LOW`, `MEDIUM`, `HIGH`; the colours bold cyan,
/// yellow, magenta and red; the ranks 0 to 3.
pub proof fn lemma_labels_colors_ranks()
    ensures
        label_of(Severity::Info) == "INFO"@ && label_of(Severity::Low) == "LOW"@ && label_of(
            Severity::Medium,
        ) == "MEDIUM"@ && label_of(Severity::High) == "HIGH"@,
        color_of(Severity::Info) == "\x1b[1;36m"@ && color_of(Severity::Low) == "\x1b[1;33m"@
            && color_of(Severity::Medium) == "\x1b[1;35m"@ && color_of(Severity::High)
            == "\x1b[1;31m"@,
        rank_of(Severity::Info) == 0 && rank_of(Severity::Low) == 1 && rank_of(Severity::Medium)
            == 2 && rank_of(Severity::High) == 3,
{
}

/// A level word names a severity exactly when, lower-cased in ASCII, it is
/// `info`, `low`, `medium`, `med` or `high`.
pub proof fn lemma_parse_words(s: Seq<char>)
    ensures
        ascii_lower(s) == "info"@ ==> parse_spec(s) == Some(Severity::Info),
        ascii_lower(s) == "low"@ ==> parse_spec(s) == Some(Severity::Low),
        ascii_lower(s) == "medium"@ || ascii_lower(s) == "med"@ ==> parse_spec(s) == Some(
            Severity::Medium,
        ),
        ascii_lower(s) == "high"@ ==> parse_spec(s) == Some(Severity::High),
        parse_spec(s) is None <==> !(ascii_lower(s) == "info"@ || ascii_lower(s) == "low"@
            || ascii_lower(s) == "medium"@ || ascii_lower(s) == "med"@ || ascii_lower(s)
            == "high"@),
{
    reveal_strlit("info");
    reveal_strlit("low");
    reveal_strlit("medium");
    reveal_strlit("med");
    reveal_strlit("high");
    assert("info"@ =~= seq!['i', 'n', 'f', 'o']);
    assert("low"@ =~= seq!['l', 'o', 'w']);
    assert("medium"@ =~= seq!['m', 'e', 'd', 'i', 'u', 'm']);
    assert("med"@ =~= seq!['m', 'e', 'd']);
    assert("high"@ =~= seq!['h', 'i', 'g', 'h']);
}

} // verus!
