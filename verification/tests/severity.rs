use altair_ebpf::severity::Severity;

#[test]
fn labels_are_upper_case_names() {
    assert_eq!(Severity::Info.as_str(), "INFO");
    assert_eq!(Severity::Low.as_str(), "LOW");
    assert_eq!(Severity::Medium.as_str(), "MEDIUM");
    assert_eq!(Severity::High.as_str(), "HIGH");
}

#[test]
fn colors_are_bold_ansi_escapes() {
    assert_eq!(Severity::Info.color(), "\x1b[1;36m");
    assert_eq!(Severity::Low.color(), "\x1b[1;33m");
    assert_eq!(Severity::Medium.color(), "\x1b[1;35m");
    assert_eq!(Severity::High.color(), "\x1b[1;31m");
}

#[test]
fn parse_accepts_level_words_in_any_case() {
    assert_eq!(Severity::parse("info"), Some(Severity::Info));
    assert_eq!(Severity::parse("INFO"), Some(Severity::Info));
    assert_eq!(Severity::parse("Low"), Some(Severity::Low));
    assert_eq!(Severity::parse("medium"), Some(Severity::Medium));
    assert_eq!(Severity::parse("MED"), Some(Severity::Medium));
    assert_eq!(Severity::parse("hIgH"), Some(Severity::High));
}

#[test]
fn parse_rejects_other_words() {
    assert_eq!(Severity::parse(""), None);
    assert_eq!(Severity::parse("critical"), None);
    assert_eq!(Severity::parse("hi"), None);
    assert_eq!(Severity::parse(" high"), None);
    assert_eq!(Severity::parse("medi"), None);
}

#[test]
fn parse_reads_back_every_label() {
    for s in [Severity::Info, Severity::Low, Severity::Medium, Severity::High] {
        assert_eq!(Severity::parse(s.as_str()), Some(s));
    }
}

#[test]
fn ranks_follow_the_severity_order() {
    assert_eq!(Severity::Info.rank(), 0);
    assert_eq!(Severity::Low.rank(), 1);
    assert_eq!(Severity::Medium.rank(), 2);
    assert_eq!(Severity::High.rank(), 3);
    assert!(Severity::Info < Severity::Low && Severity::Low < Severity::Medium);
    assert!(Severity::Medium < Severity::High);
}
