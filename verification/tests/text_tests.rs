use vscode_latency_monitor::text::{copy_optional_text, decimal, join, same_text};

#[test]
fn decimal_notation() {
    assert_eq!(decimal(0), "0");
    assert_eq!(decimal(7), "7");
    assert_eq!(decimal(10), "10");
    assert_eq!(decimal(1234567890), "1234567890");
    assert_eq!(decimal(1_000_000), "1000000");
    assert_eq!(decimal(u64::MAX), "18446744073709551615");
}

#[test]
fn join_puts_the_separator_between_neighbours() {
    let none: Vec<String> = Vec::new();
    assert_eq!(join(&none, " "), "");
    assert_eq!(join(&vec!["solo".to_string()], ", "), "solo");
    assert_eq!(
        join(&vec!["a".to_string(), "".to_string(), "c".to_string()], "-"),
        "a--c"
    );
    assert_eq!(
        join(&vec!["node".to_string(), "--flag".to_string(), "x y".to_string()], " "),
        "node --flag x y"
    );
}

#[test]
fn same_text_compares_characters() {
    assert!(same_text("bash", "bash"));
    assert!(!same_text("bash", "Bash"));
    assert!(!same_text("bash", "bash "));
    assert!(same_text("", ""));
}

#[test]
fn optional_text_is_copied() {
    assert_eq!(copy_optional_text(&None), None);
    assert_eq!(copy_optional_text(&Some("x".to_string())), Some("x".to_string()));
}

use vscode_latency_monitor::network::{lan_address, line_address};

fn words(line: &str) -> Vec<String> {
    line.split_whitespace().map(|word| word.to_string()).collect()
}

#[test]
fn the_source_address_follows_the_word_src() {
    assert_eq!(
        line_address(&words("8.8.8.8 via 192.168.1.1 dev eth0 src 192.168.1.23 uid 1000")),
        Some("192.168.1.23".to_string())
    );
    assert_eq!(line_address(&words("8.8.8.8 via 192.168.1.1 dev eth0")), None);
    assert_eq!(line_address(&words("dev eth0 src")), None);
    assert_eq!(line_address(&words("src src 10.0.0.1")), Some("src".to_string()));
    assert_eq!(line_address(&words("")), None);
    assert_eq!(line_address(&words("SRC 10.0.0.1")), None);
}

#[test]
fn the_first_line_with_an_address_wins() {
    let answer = vec![
        words("8.8.8.8 via 10.0.0.1 dev wlan0"),
        words("    cache src 10.0.0.7"),
        words("other src 10.0.0.8 uid 0"),
    ];
    assert_eq!(lan_address(&answer), "10.0.0.7");
    assert_eq!(lan_address(&vec![words("nothing here"), words("")]), "127.0.0.1");
    assert_eq!(lan_address(&Vec::new()), "127.0.0.1");
}
