use cosa_rojig_repoize::marker::{parse_marker, render_marker};

#[test]
fn renders_compact_json() {
    let bytes = render_marker(&String::from("32.20201018.1.0"));
    assert_eq!(bytes, b"{\"build\":\"32.20201018.1.0\"}".to_vec());
}

#[test]
fn round_trips_plain_id() {
    let bytes = render_marker(&String::from("B7"));
    assert_eq!(parse_marker(&bytes), Some(b"B7".to_vec()));
}

#[test]
fn round_trips_escaped_bytes() {
    let odd = String::from("a\"b\\c\nd");
    let bytes = render_marker(&odd);
    assert_eq!(bytes, b"{\"build\":\"a\\\"b\\\\c\\u000ad\"}".to_vec());
    assert_eq!(parse_marker(&bytes), Some(odd.as_bytes().to_vec()));
}

#[test]
fn accepts_short_escapes() {
    // An earlier writer may have used the short control escapes.
    assert_eq!(parse_marker(b"{\"build\":\"a\\nb\\tc\"}"), Some(b"a\nb\tc".to_vec()));
    assert_eq!(parse_marker(b"{\"build\":\"x\\/y\"}"), Some(b"x/y".to_vec()));
}

#[test]
fn rejects_non_markers() {
    assert_eq!(parse_marker(b""), None);
    assert_eq!(parse_marker(b"{}"), None);
    assert_eq!(parse_marker(b"{\"build\":42}"), None);
    assert_eq!(parse_marker(b"{\"build\":\"unterminated"), None);
    assert_eq!(parse_marker(b"{\"build\":\"B1\"} "), None);
    assert_eq!(parse_marker(b"{\"other\":\"B1\"}"), None);
    assert_eq!(parse_marker(b"{\"build\":\"bad\\u0100esc\"}"), None);
}
