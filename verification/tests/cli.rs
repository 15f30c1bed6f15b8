use altair_ebpf::cli::{parse_args, wants_help, ArgError};
use altair_ebpf::severity::Severity;

fn args(a: &[&str]) -> Vec<String> {
    a.iter().map(|s| s.to_string()).collect()
}

#[test]
fn defaults() {
    let o = parse_args(&args(&["altair-ebpf"])).unwrap();
    assert!(!o.container_only);
    assert_eq!(o.min_severity, Severity::Info);
    assert!(o.json_log.is_none());
    assert!(!o.json_all);
}

#[test]
fn documented_options() {
    let o = parse_args(&args(&[
        "altair-ebpf",
        "--container-only",
        "--min-severity",
        "medium",
        "--json-log",
        "/tmp/altair.jsonl",
        "--json-all",
    ]))
    .unwrap();
    assert!(o.container_only);
    assert_eq!(o.min_severity, Severity::Medium);
    assert_eq!(o.json_log.as_deref(), Some("/tmp/altair.jsonl"));
    assert!(o.json_all);
    let o = parse_args(&args(&["x", "--min-severity", "HIGH", "--min-severity", "low"])).unwrap();
    assert_eq!(o.min_severity, Severity::High);
}

#[test]
fn bad_severity_values() {
    match parse_args(&args(&["x", "--min-severity", "severe"])) {
        Err(ArgError::InvalidSeverity(v)) => assert_eq!(v, "severe"),
        _ => panic!("expected an invalid severity"),
    }
    assert!(matches!(parse_args(&args(&["x", "--min-severity"])), Err(ArgError::MissingSeverity)));
    assert!(matches!(
        parse_args(&args(&["x", "--json-log", "--min-severity"])),
        Err(ArgError::MissingSeverity)
    ));
    assert!(matches!(parse_args(&args(&["x", "--json-log"])), Err(ArgError::MissingJsonPath)));
}

#[test]
fn help_flags() {
    assert!(wants_help(&args(&["x", "-h"])));
    assert!(wants_help(&args(&["x", "--container-only", "--help"])));
    assert!(!wants_help(&args(&["x", "--helpme"])));
}
