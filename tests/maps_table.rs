use procmem::error::SessionError;
use procmem::maps::{base_address_of_line, parse_hex_usize, resolve_base, split_maps_line};

fn table(lines: &[&str]) -> Vec<String> {
    lines.iter().map(|l| l.to_string()).collect()
}

#[test]
fn split_full_line_gives_six_fields() {
    let parts = split_maps_line("7f0000-7f1000 r-xp 00000000 08:01 1234 /usr/bin/firefox");
    assert_eq!(parts, vec!["7f0000-7f1000", "r-xp", "00000000", "08:01", "1234", "/usr/bin/firefox"]);
}

#[test]
fn split_keeps_spaces_inside_pathname() {
    let parts = split_maps_line("1000-2000 r--p 00000000 08:01 77     /opt/my app/bin run");
    assert_eq!(parts.len(), 6);
    assert_eq!(parts[4], "77");
    assert_eq!(parts[5], "/opt/my app/bin run");
}

#[test]
fn split_collapses_runs_of_spaces() {
    let parts = split_maps_line("  1000-2000  r--p 0  08:01   5 x");
    assert_eq!(parts, vec!["1000-2000", "r--p", "0", "08:01", "5", "x"]);
}

#[test]
fn split_line_without_pathname_has_five_fields() {
    let parts = split_maps_line("7ffd0000-7ffd1000 rw-p 00000000 00:00 0   ");
    assert_eq!(parts, vec!["7ffd0000-7ffd1000", "rw-p", "00000000", "00:00", "0"]);
    assert_eq!(base_address_of_line("7ffd0000-7ffd1000 rw-p 00000000 00:00 0   ", ""), None);
}

#[test]
fn split_empty_line() {
    assert!(split_maps_line("").is_empty());
    assert!(split_maps_line("    ").is_empty());
}

#[test]
fn resolve_skips_other_executables() {
    let lines = table(&[
        "600000-601000 r-xp 00000000 08:01 99 /usr/bin/other",
        "7f0000-7f1000 r-xp 00000000 08:01 1234 /usr/bin/firefox",
    ]);
    assert_eq!(resolve_base(&lines, "/usr/bin/firefox"), Ok(0x7f0000));
}

#[test]
fn resolve_takes_the_first_matching_line() {
    let lines = table(&[
        "7f0000-7f1000 r--p 00000000 08:01 1234 /usr/bin/firefox",
        "7f1000-7f5000 r-xp 00001000 08:01 1234 /usr/bin/firefox",
    ]);
    assert_eq!(resolve_base(&lines, "/usr/bin/firefox"), Ok(0x7f0000));
}

#[test]
fn resolve_skips_malformed_range_on_matching_line() {
    let lines = table(&[
        "zz0000-7f1000 r--p 00000000 08:01 1234 /usr/bin/firefox",
        "7f1000-7f5000 r-xp 00001000 08:01 1234 /usr/bin/firefox",
    ]);
    assert_eq!(resolve_base(&lines, "/usr/bin/firefox"), Ok(0x7f1000));
}

#[test]
fn resolve_requires_exact_pathname() {
    let lines = table(&[
        "100000-101000 r-xp 00000000 08:01 1 /usr/bin/firefox-bin",
        "200000-201000 r-xp 00000000 08:01 2 /usr/lib/firefox/libxul.so",
        "300000-301000 r-xp 00000000 08:01 3 [heap]",
    ]);
    assert_eq!(resolve_base(&lines, "/usr/bin/firefox"), Err(SessionError::BaseAddressNotFound));
}

#[test]
fn resolve_empty_table_is_not_found() {
    assert_eq!(resolve_base(&Vec::new(), "/usr/bin/firefox"), Err(SessionError::BaseAddressNotFound));
}

#[test]
fn resolve_trims_the_pathname_column() {
    let lines = table(&["55d0a000-55d0b000 r--p 00000000 fd:01 42    /usr/bin/firefox \t"]);
    assert_eq!(resolve_base(&lines, "/usr/bin/firefox"), Ok(0x55d0a000));
}

#[test]
fn line_base_of_matching_line() {
    assert_eq!(
        base_address_of_line("7f0000-7f1000 r-xp 00000000 08:01 1234 /usr/bin/firefox", "/usr/bin/firefox"),
        Some(0x7f0000)
    );
    assert_eq!(
        base_address_of_line("7f0000-7f1000 r-xp 00000000 08:01 1234 /usr/bin/firefox", "/usr/bin/other"),
        None
    );
}

#[test]
fn parse_hex_values() {
    assert_eq!(parse_hex_usize("7f0000"), Some(0x7f0000));
    assert_eq!(parse_hex_usize("0"), Some(0));
    assert_eq!(parse_hex_usize("DeadBeef"), Some(0xdeadbeef));
    assert_eq!(parse_hex_usize("+ff"), Some(255));
    assert_eq!(parse_hex_usize("ffffffffffffffff"), Some(usize::MAX));
}

#[test]
fn parse_hex_rejects() {
    assert_eq!(parse_hex_usize(""), None);
    assert_eq!(parse_hex_usize("+"), None);
    assert_eq!(parse_hex_usize("-1"), None);
    assert_eq!(parse_hex_usize("0x10"), None);
    assert_eq!(parse_hex_usize(" 10"), None);
    assert_eq!(parse_hex_usize("10000000000000000"), None);
}

#[test]
fn parse_hex_agrees_with_std() {
    for t in ["7f0000", "+1", "", "+", "g", "FFFFFFFFFFFFFFFF", "1FFFFFFFFFFFFFFFF", "00ab"] {
        assert_eq!(parse_hex_usize(t), usize::from_str_radix(t, 16).ok(), "{}", t);
    }
}
