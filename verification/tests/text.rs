use altair_ebpf::cgroup::cgroup_rel_path;
use altair_ebpf::text::{parse_u32, split_words};

#[test]
fn words_split_on_unicode_whitespace() {
    assert_eq!(split_words("  a bb\tc\n\u{3000}d  "), vec!["a", "bb", "c", "d"]);
    assert!(split_words("").is_empty());
    assert_eq!(split_words("x"), vec!["x"]);
}

#[test]
fn u32_parsing_like_std() {
    assert_eq!(parse_u32("0"), Some(0));
    assert_eq!(parse_u32("+17"), Some(17));
    assert_eq!(parse_u32("4294967295"), Some(u32::MAX));
    assert_eq!(parse_u32("4294967296"), None);
    assert_eq!(parse_u32("-1"), None);
    assert_eq!(parse_u32("+"), None);
    assert_eq!(parse_u32(""), None);
    assert_eq!(parse_u32("12a"), None);
    assert_eq!(parse_u32("00012"), Some(12));
    for s in ["0", "+9", "99999999999", "1 2", "٣"] {
        assert_eq!(parse_u32(s), s.parse::<u32>().ok());
    }
}

#[test]
fn cgroup_path_trimming_like_std() {
    for field in [" x ", "\u{2028}y\u{85}", "z", "  a b \u{a0}", "\t/p\r"] {
        let text = format!("0::{}", field);
        assert_eq!(cgroup_rel_path(&text), Some(field.trim().to_string()));
    }
}
