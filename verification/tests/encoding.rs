//! Tests for the URL model: encoding, parsing, and rendering.

use wp_api::text::u32_string;
use wp_api::urls::{encode_form_component, encode_path_segment, parse_url};

#[test]
fn form_component_encoding() {
    assert_eq!(encode_form_component("abc-XYZ_0.9*"), "abc-XYZ_0.9*");
    assert_eq!(encode_form_component("a b"), "a+b");
    assert_eq!(encode_form_component("/w?&="), "%2Fw%3F%26%3D");
    assert_eq!(encode_form_component("caf\u{e9}"), "caf%C3%A9");
}

#[test]
fn path_segment_encoding() {
    assert_eq!(encode_path_segment(true, "plain"), "plain");
    assert_eq!(encode_path_segment(true, "a b"), "a%20b");
    assert_eq!(encode_path_segment(true, "a/b%c"), "a%2Fb%25c");
    assert_eq!(encode_path_segment(true, "a\\b"), "a%5Cb");
    assert_eq!(encode_path_segment(false, "a\\b"), "a\\b");
    assert_eq!(encode_path_segment(true, "a\tb\nc"), "abc");
    assert_eq!(encode_path_segment(true, "caf\u{e9}"), "caf%C3%A9");
}

#[test]
fn decimal_rendering() {
    assert_eq!(u32_string(0), "0");
    assert_eq!(u32_string(7), "7");
    assert_eq!(u32_string(123), "123");
    assert_eq!(u32_string(4294967295), "4294967295");
}

#[test]
fn parse_and_render_round_trip() {
    let u = parse_url("http://example.com/a/b?x=1&y#frag").unwrap();
    assert_eq!(u.as_str(), "http://example.com/a/b?x=1&y#frag");
}

#[test]
fn parse_normalizes() {
    let u = parse_url("HTTP://EXAMPLE.com").unwrap();
    assert_eq!(u.as_str(), "http://example.com/");
}

#[test]
fn parse_rejects_what_is_not_a_url() {
    assert!(parse_url("not a url").is_err());
    assert!(parse_url("mailto:someone@example.com").is_err());
}

#[test]
fn parse_decodes_query_pairs() {
    let u = parse_url("http://example.com/?a=x%20y&b").unwrap();
    assert_eq!(u.pairs.len(), 2);
    assert_eq!(u.pairs[0].0, "a");
    assert_eq!(u.pairs[0].1, "x y");
    assert_eq!(u.pairs[1].0, "b");
    assert_eq!(u.pairs[1].1, "");
}
