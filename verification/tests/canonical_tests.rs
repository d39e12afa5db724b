use s3_core::canonical::{canonical_headers, canonical_query_string};
use s3_core::encode::{percent_encode_path, percent_encode_query};
use s3_core::text::to_hex_lower;

fn pairs(v: &[(&str, &str)]) -> Vec<(String, String)> {
    v.iter().map(|(a, b)| (a.to_string(), b.to_string())).collect()
}

#[test]
fn canonical_query_is_order_independent() {
    let q1 = pairs(&[("b", "2"), ("a", "1")]);
    let q2 = pairs(&[("a", "1"), ("b", "2")]);
    assert_eq!(canonical_query_string(&q1), "a=1&b=2");
    assert_eq!(canonical_query_string(&q2), "a=1&b=2");
}

#[test]
fn canonical_query_sorts_by_key_then_value() {
    let q = pairs(&[("k", "2"), ("k", "1"), ("a", "9")]);
    assert_eq!(canonical_query_string(&q), "a=9&k=1&k=2");
}

#[test]
fn empty_query_list_canonicalizes_to_empty_string() {
    let q: Vec<(String, String)> = Vec::new();
    assert_eq!(canonical_query_string(&q), "");
}

#[test]
fn empty_header_list_gives_only_the_three_mandatory_lines() {
    let xamz: Vec<(String, String)> = Vec::new();
    let (block, signed) = canonical_headers(&xamz, "example.com", "HASH", "20130524T000000Z");
    assert_eq!(
        block,
        "host:example.com\nx-amz-content-sha256:HASH\nx-amz-date:20130524T000000Z\n"
    );
    assert_eq!(signed, "host;x-amz-content-sha256;x-amz-date");
}

#[test]
fn header_names_are_lower_cased_and_sorted() {
    let xamz = pairs(&[("X-AMZ-Meta-B", "2"), ("x-amz-meta-a", "1")]);
    let (block, signed) = canonical_headers(&xamz, "h", "P", "D");
    assert_eq!(
        block,
        "host:h\nx-amz-content-sha256:P\nx-amz-date:D\nx-amz-meta-a:1\nx-amz-meta-b:2\n"
    );
    assert_eq!(signed, "host;x-amz-content-sha256;x-amz-date;x-amz-meta-a;x-amz-meta-b");
}

#[test]
fn query_encoding_escapes_the_reserved_set() {
    assert_eq!(percent_encode_query("a b"), "a%20b");
    assert_eq!(percent_encode_query("a/b"), "a%2Fb");
    assert_eq!(percent_encode_query("a:b,c"), "a%3Ab%2Cc");
    assert_eq!(percent_encode_query("100%"), "100%25");
    assert_eq!(percent_encode_query("safe-._~"), "safe-._~");
    // non-ASCII text is escaped byte by byte
    assert_eq!(percent_encode_query("\u{00e9}"), "%C3%A9");
}

#[test]
fn path_encoding_keeps_the_slash() {
    assert_eq!(percent_encode_path("a/b c"), "a/b%20c");
    assert_eq!(percent_encode_path("/"), "/");
}

#[test]
fn hex_encoding_matches_the_reference() {
    let data: Vec<u8> = vec![0xde, 0xad, 0xbe, 0xef, 0x00, 0x7f];
    assert_eq!(to_hex_lower(&data), hex::encode(&data));
    assert_eq!(to_hex_lower(&data), "deadbeef007f");
}
