use dshl::flow::args::split_args;
use dshl::process::command::Cmd;
use dshl::process::windows::{build_cmdline, build_env_block, merged_env, quote_arg, wide};
use dshl::text::{
    decimal, find_in, join_all, lines, parse_u32, split, trim, trim_end, trim_end_of, trim_start,
    trim_start_of,
};
use dshl::version::{FullVersion, Version};

#[test]
fn texts_are_trimmed_and_split() {
    assert_eq!(trim("\u{3000} a b\t\n"), "a b");
    assert_eq!(trim_start("  a "), "a ");
    assert_eq!(trim_end("  a \r\n"), "  a");
    assert_eq!(trim_end_of("a//", '/'), "a");
    assert_eq!(trim_start_of("//a/", '/'), "a/");
    assert_eq!(split("a,,b", ','), vec!["a", "", "b"]);
    assert_eq!(split("", ','), vec![""]);
    assert_eq!(lines("a\r\nb\n"), vec!["a", "b"]);
    assert_eq!(lines("\n"), vec![""]);
    assert_eq!(lines(""), Vec::<String>::new());
    let list = vec!["a".to_string(), "b".to_string()];
    assert_eq!(join_all(&list, "::"), "a::b");
    let chars: Vec<char> = "a=b".chars().collect();
    assert_eq!(find_in(&chars, '=', 0), 1);
}

#[test]
fn numbers_are_written_and_read() {
    assert_eq!(decimal(0), "0");
    assert_eq!(decimal(u64::MAX), "18446744073709551615");
    assert_eq!(parse_u32("4294967295"), Some(u32::MAX));
    assert_eq!(parse_u32("4294967296"), None);
    assert_eq!(parse_u32("+7"), Some(7));
    assert_eq!(parse_u32("-7"), None);
    assert_eq!(parse_u32(""), None);
    assert_eq!(parse_u32("+"), None);
    assert_eq!(parse_u32("1 "), None);
}

#[test]
fn words_survive_quoting() {
    assert_eq!(split_args("a\\ b \"c \\\" d\" 'e\\f' \"\""), vec!["a b", "c \" d", "e\\f", ""]);
    assert_eq!(split_args("\"\\x\" tail\\"), vec!["\\x", "tail\\"]);
    assert_eq!(split_args("a\tb\nc\rd"), vec!["a", "b", "c", "d"]);
    assert_eq!(split_args("a'b'\"c\""), vec!["abc"]);
}

#[test]
fn versions_are_read() {
    assert_eq!(Version::parse("v20.11.1").map(|v| v.to_text()), Some("20.11.1".to_string()));
    assert_eq!(Version::parse("none"), None);
    assert!(Version::new(1, 2, 3).at_least(&Version::new(1, 2, 3)));
    assert!(!Version::new(1, 2, 3).at_least(&Version::new(1, 3, 0)));
    assert!(Version::new(2, 0, 0).at_least(&Version::new(1, 9, 9)));
}

#[test]
fn versions_are_ordered() {
    let v = |s: &str| FullVersion::parse(s).unwrap();
    let order = [
        "1.0.0-alpha",
        "1.0.0-alpha.1",
        "1.0.0-alpha.beta",
        "1.0.0-beta",
        "1.0.0-beta.2",
        "1.0.0-beta.11",
        "1.0.0-rc.1",
        "1.0.0",
    ];
    for pair in order.windows(2) {
        assert!(v(pair[0]) < v(pair[1]), "{} < {}", pair[0], pair[1]);
        assert!(!(v(pair[1]) < v(pair[0])));
    }
    for text in order {
        assert_eq!(v(text).to_text(), text);
        assert!(v(text) == v(text));
    }
    assert_eq!(FullVersion::parse("garbage"), None);
}

#[test]
fn arguments_are_quoted_for_windows() {
    assert_eq!(quote_arg("plain"), "plain");
    assert_eq!(quote_arg(""), "\"\"");
    assert_eq!(quote_arg("a b"), "\"a b\"");
    assert_eq!(quote_arg("a\"b"), "\"a\\\"b\"");
    assert_eq!(quote_arg("a b\\"), "\"a b\\\\\"");
    let mut cmd = Cmd::new("C:\\p q\\x.exe");
    cmd.arg("--n");
    let units: Vec<u16> = "\"C:\\p q\\x.exe\" --n\0".encode_utf16().collect();
    assert_eq!(build_cmdline(&cmd), units);
    assert_eq!(wide("a😀"), vec![97, 0xd83d, 0xde00, 0]);
}

#[test]
fn set_variables_win_over_inherited_ones() {
    let inherited = vec![
        ("A".to_string(), "1".to_string()),
        ("B".to_string(), "2".to_string()),
    ];
    let mut cmd = Cmd::new("x");
    cmd.env("B", "3");
    cmd.env("C", "4");
    let merged = merged_env(inherited.clone(), &cmd);
    let get = |key: &str| merged.iter().find(|p| p.0 == key).map(|p| p.1.as_str());
    assert_eq!(get("A"), Some("1"));
    assert_eq!(get("B"), Some("3"));
    assert_eq!(get("C"), Some("4"));
    let block = build_env_block(inherited, &cmd);
    assert_eq!(block[block.len() - 2..], [0, 0]);
}
