use tunnlto::text::{str_contains, str_eq, str_lex_lt, str_starts_with};

#[test]
fn contains_finds_the_started_marker() {
    assert!(str_contains("2024-01-01 Tunnel has started ok", "Tunnel has started"));
    assert!(str_contains("Tunnel has started", "Tunnel has started"));
    assert!(!str_contains("Tunnel has stopped", "Tunnel has started"));
    assert!(str_contains("anything", ""));
    assert!(!str_contains("", "x"));
}

#[test]
fn starts_with_checks_prefixes_only() {
    assert!(str_starts_with("WireSock VPN Client x64", "WireSock VPN Client"));
    assert!(!str_starts_with("A WireSock VPN Client", "WireSock VPN Client"));
    assert!(str_starts_with("abc", ""));
    assert!(!str_starts_with("ab", "abc"));
}

#[test]
fn lexicographic_order_is_by_code_point() {
    assert!(str_lex_lt("a", "b"));
    assert!(str_lex_lt("a", "ab"));
    assert!(!str_lex_lt("ab", "a"));
    assert!(!str_lex_lt("a", "a"));
    assert!(str_lex_lt("Z", "a"));
}

#[test]
fn string_equality_is_by_characters() {
    assert!(str_eq("abc", "abc"));
    assert!(!str_eq("abc", "abd"));
    assert!(!str_eq("abc", "abcd"));
    assert!(str_eq("", ""));
}
