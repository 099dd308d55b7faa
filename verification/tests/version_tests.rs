use xmake_analysis::version::{strip_ansi_codes, XmakeVersion};

#[test]
fn test_parse_full_xmake_output() {
    let input = "xmake v3.0.0+HEAD.0db4fe610, A cross-platform build utility based on Lua";
    let version = XmakeVersion::parse(input).unwrap();

    assert_eq!(version.major, 3);
    assert_eq!(version.minor, 0);
    assert_eq!(version.patch, 0);
    assert_eq!(version.extra, Some("HEAD.0db4fe610".to_string()));
    assert_eq!(version.to_version_string(), "3.0.0+HEAD.0db4fe610");
}

#[test]
fn test_parse_simple_version() {
    let input = "3.0.0";
    let version = XmakeVersion::parse(input).unwrap();

    assert_eq!(version.major, 3);
    assert_eq!(version.minor, 0);
    assert_eq!(version.patch, 0);
    assert_eq!(version.extra, None);
    assert_eq!(version.to_version_string(), "3.0.0");
}

#[test]
fn test_parse_version_with_extra() {
    let input = "3.0.0+HEAD.0db4fe610";
    let version = XmakeVersion::parse(input).unwrap();

    assert_eq!(version.major, 3);
    assert_eq!(version.minor, 0);
    assert_eq!(version.patch, 0);
    assert_eq!(version.extra, Some("HEAD.0db4fe610".to_string()));
}

#[test]
fn test_parse_invalid_version() {
    assert!(XmakeVersion::parse("invalid").is_none());
    assert!(XmakeVersion::parse("1.2").is_none());
    assert!(XmakeVersion::parse("").is_none());
}

#[test]
fn test_parse_xmake_prefix_without_comma() {
    let input = "xmake v2.5.1+dev.abc123";
    let version = XmakeVersion::parse(input).unwrap();

    assert_eq!(version.major, 2);
    assert_eq!(version.minor, 5);
    assert_eq!(version.patch, 1);
    assert_eq!(version.extra, Some("dev.abc123".to_string()));
}

#[test]
fn test_parse_multi_plus_extra_keeps_rest() {
    let version = XmakeVersion::parse("1.2.3+a+b").unwrap();
    assert_eq!(version.major, 1);
    assert_eq!(version.minor, 2);
    assert_eq!(version.patch, 3);
    assert_eq!(version.extra, Some("a+b".to_string()));
}

#[test]
fn test_parse_overflowing_number_fails() {
    assert!(XmakeVersion::parse("4294967296.0.0").is_none());
    assert!(XmakeVersion::parse("4294967295.0.0").is_some());
}

#[test]
fn test_default_version_is_zero() {
    let version = XmakeVersion::default();
    assert_eq!(version.major, 0);
    assert_eq!(version.minor, 0);
    assert_eq!(version.patch, 0);
    assert_eq!(version.extra, None);
    assert_eq!(version.to_version_string(), "0.0.0");
}

#[test]
fn test_strip_ansi_color_codes() {
    let colored = "\u{1b}[32mxmake\u{1b}[0m v3.0.0";
    assert_eq!(strip_ansi_codes(colored), "xmake v3.0.0");
}

#[test]
fn test_strip_ansi_osc_sequence() {
    let input = "a\u{1b}]0;title\u{7}b";
    assert_eq!(strip_ansi_codes(input), "ab");
    let with_st = "a\u{1b}]0;title\u{1b}\\b";
    assert_eq!(strip_ansi_codes(with_st), "ab");
}

#[test]
fn test_strip_ansi_plain_text_unchanged() {
    assert_eq!(strip_ansi_codes("plain text"), "plain text");
    assert_eq!(strip_ansi_codes(""), "");
}

#[test]
fn test_strip_ansi_other_escape_skips_one() {
    // only the escape and the single byte after it are dropped
    let input = "a\u{1b}(Bb";
    assert_eq!(strip_ansi_codes(input), "aBb");
}

#[test]
fn test_parse_version_then_strip_is_stable() {
    let raw = "\u{1b}[1mxmake v3.0.0+HEAD.0db4fe610, A cross-platform build utility based on Lua\u{1b}[0m";
    let clean = strip_ansi_codes(raw);
    let version = XmakeVersion::parse(&clean).unwrap();
    assert_eq!(version.to_version_string(), "3.0.0+HEAD.0db4fe610");
}
