use s3_core::api::conditional_headers::ConditionalHeaders;
use s3_core::api::content_headers::{CacheControl, ContentHeaders};
use s3_core::api::get_object::GetObjectRequest;
use s3_core::api::head_object::HeadObjectRequest;
use s3_core::api::list_buckets::ListBucketsRequest;
use s3_core::api::list_objects_v2::ListObjectsV2Request;
use s3_core::api::put_object::PutObjectRequest;
use s3_core::api::x_amz_headers::{XAmzHeadersBuilder, XAmzStorageClass};
use s3_core::error::S3Error;
use s3_core::time::Timestamp;

const AK: &str = "AKIDEXAMPLE";
const SK: &str = "SECRET-REDACTED";
const REGION: &str = "us-east-1";
const ENDPOINT: &str = "examplebucket.s3.amazonaws.com";

fn fixed_ts() -> Timestamp {
    Timestamp { year: 2013, month: 5, day: 24, hour: 0, minute: 0, second: 0, nanosecond: 0 }
}

fn header_value(headers: &[(String, String)], name: &str) -> Option<String> {
    headers.iter().find(|(k, _)| k == name).map(|(_, v)| v.clone())
}

#[test]
fn part_number_bounds_are_validated() {
    for bad in [0i32, 10001] {
        let mut req = GetObjectRequest::from_key("k");
        req.part_number = Some(bad);
        let r = req.into_builder(AK, SK, REGION, ENDPOINT);
        assert!(matches!(r, Err(S3Error::ValidationError)));
    }
    for good in [1i32, 10000] {
        let mut req = GetObjectRequest::from_key("k");
        req.part_number = Some(good);
        assert!(req.into_builder(AK, SK, REGION, ENDPOINT).is_ok());
    }
}

#[test]
fn head_part_number_bounds_are_validated() {
    let mut req = HeadObjectRequest::from_key("k");
    req.part_number = Some(0);
    assert!(matches!(
        req.into_builder(AK, SK, REGION, ENDPOINT),
        Err(S3Error::ValidationError)
    ));
    req.part_number = Some(10000);
    assert!(req.into_builder(AK, SK, REGION, ENDPOINT).is_ok());
}

#[test]
fn max_buckets_bounds_are_validated() {
    let mut req = ListBucketsRequest::default();
    req.max_buckets = Some(10001);
    assert!(matches!(
        req.into_builder(AK, SK, REGION, ENDPOINT),
        Err(S3Error::ValidationError)
    ));
    req.max_buckets = Some(1);
    assert!(req.into_builder(AK, SK, REGION, ENDPOINT).is_ok());
}

#[test]
fn a_get_request_signs_and_assembles() {
    let req = GetObjectRequest::from_key("test.txt");
    let mut builder = req.into_builder(AK, SK, REGION, ENDPOINT).unwrap();
    let signed = builder.build_with(fixed_ts(), "https", ENDPOINT).unwrap();
    let r = &signed.request;
    assert_eq!(r.method, "GET");
    assert_eq!(r.uri, "https://examplebucket.s3.amazonaws.com/test.txt");
    assert_eq!(
        header_value(&r.headers, "x-amz-date").unwrap(),
        "20130524T000000Z"
    );
    assert_eq!(header_value(&r.headers, "content-length").unwrap(), "0");
    let auth = header_value(&r.headers, "authorization").unwrap();
    assert!(auth.starts_with(
        "AWS4-HMAC-SHA256 Credential=AKIDEXAMPLE/20130524/us-east-1/s3/aws4_request, \
         SignedHeaders=host;x-amz-content-sha256;x-amz-date, Signature="
    ));
    // the unsigned-payload sentinel hash
    assert_eq!(
        header_value(&r.headers, "x-amz-content-sha256").unwrap(),
        s3_core::sign::hex_sha256("UNSIGNED-PAYLOAD")
    );
}

#[test]
fn identical_builds_sign_identically() {
    let req = GetObjectRequest::from_key("a b.txt");
    let s1 = req
        .into_builder(AK, SK, REGION, ENDPOINT)
        .unwrap()
        .build_with(fixed_ts(), "https", ENDPOINT)
        .unwrap();
    let s2 = req
        .into_builder(AK, SK, REGION, ENDPOINT)
        .unwrap()
        .build_with(fixed_ts(), "https", ENDPOINT)
        .unwrap();
    assert_eq!(s1.request.uri, s2.request.uri);
    assert_eq!(s1.request.headers, s2.request.headers);
    // the key is percent-encoded in the final uri
    assert_eq!(s1.request.uri, "https://examplebucket.s3.amazonaws.com/a%20b.txt");
}

#[test]
fn query_order_does_not_change_the_signature() {
    let mut b1 = GetObjectRequest::from_key("k").into_builder(AK, SK, REGION, ENDPOINT).unwrap();
    b1.query("b", Some("2"));
    b1.query("a", Some("1"));
    let mut b2 = GetObjectRequest::from_key("k").into_builder(AK, SK, REGION, ENDPOINT).unwrap();
    b2.query("a", Some("1"));
    b2.query("b", Some("2"));
    let s1 = b1.build_with(fixed_ts(), "https", ENDPOINT).unwrap();
    let s2 = b2.build_with(fixed_ts(), "https", ENDPOINT).unwrap();
    assert_eq!(
        header_value(&s1.request.headers, "authorization"),
        header_value(&s2.request.headers, "authorization")
    );
    assert_eq!(s1.request.uri, "https://examplebucket.s3.amazonaws.com/k?a=1&b=2");
}

#[test]
fn a_put_request_carries_its_body() {
    let req = PutObjectRequest { key: "k".to_string(), body: vec![1, 2, 3] };
    let mut builder = req.into_builder(AK, SK, REGION, ENDPOINT).unwrap();
    let signed = builder.build_with(fixed_ts(), "https", ENDPOINT).unwrap();
    assert_eq!(signed.request.method, "PUT");
    assert_eq!(signed.request.body, vec![1, 2, 3]);
    assert_eq!(
        header_value(&signed.request.headers, "content-length").unwrap(),
        "3"
    );
}

#[test]
fn an_invalid_header_is_an_encoding_error() {
    let mut builder = GetObjectRequest::from_key("k").into_builder(AK, SK, REGION, ENDPOINT).unwrap();
    builder.header("bad name", "v");
    assert!(matches!(
        builder.build_with(fixed_ts(), "https", ENDPOINT),
        Err(S3Error::EncodingError)
    ));
    let mut builder2 = GetObjectRequest::from_key("k").into_builder(AK, SK, REGION, ENDPOINT).unwrap();
    builder2.header("name", "bad\u{0007}value");
    assert!(matches!(
        builder2.build_with(fixed_ts(), "https", ENDPOINT),
        Err(S3Error::EncodingError)
    ));
}

#[test]
fn list_objects_carries_the_protocol_selector() {
    let req = ListObjectsV2Request::default();
    let mut builder = req.into_builder(AK, SK, REGION, ENDPOINT).unwrap();
    let signed = builder.build_with(fixed_ts(), "https", ENDPOINT).unwrap();
    assert_eq!(
        signed.request.uri,
        "https://examplebucket.s3.amazonaws.com//?list-type=2"
    );
}

#[test]
fn x_amz_headers_join_the_signed_set() {
    let xamz = XAmzHeadersBuilder::default()
        .enable_checksum_mode()
        .storage_class(XAmzStorageClass::GlacierIR)
        .add_tag("k", "v")
        .add_tag("k2", "v2")
        .build();
    let headers = xamz.headers();
    assert_eq!(
        headers,
        vec![
            ("x-amz-checksum-mode".to_string(), "ENABLED".to_string()),
            ("x-amz-storage-class".to_string(), "GLACIER_IR".to_string()),
            ("x-amz-tagging".to_string(), "k=v&k2=v2".to_string()),
        ]
    );
    let mut builder = GetObjectRequest::from_key("k").into_builder(AK, SK, REGION, ENDPOINT).unwrap();
    builder.set_x_amz_headers(&xamz);
    let signed = builder.build_with(fixed_ts(), "https", ENDPOINT).unwrap();
    let auth = header_value(&signed.request.headers, "authorization").unwrap();
    assert!(auth.contains(
        "SignedHeaders=host;x-amz-checksum-mode;x-amz-content-sha256;x-amz-date;\
         x-amz-storage-class;x-amz-tagging,"
    ));
}

#[test]
fn content_and_conditional_headers_reach_the_request() {
    let mut content = ContentHeaders::default();
    content.add_cache_control(CacheControl::MaxAge(3600));
    content.add_cache_control(CacheControl::Public);
    content.content_type("text/plain".to_string());
    let mut conds = ConditionalHeaders::default();
    conds.if_match("etag-1");
    conds.if_modified_since(Timestamp {
        year: 2015,
        month: 10,
        day: 21,
        hour: 7,
        minute: 28,
        second: 0,
        nanosecond: 0,
    });
    let mut builder = GetObjectRequest::from_key("k").into_builder(AK, SK, REGION, ENDPOINT).unwrap();
    builder.set_content_headers(&content);
    builder.set_conditional_headers(&conds);
    let signed = builder.build_with(fixed_ts(), "https", ENDPOINT).unwrap();
    let hs = &signed.request.headers;
    assert_eq!(header_value(hs, "Cache-Control").unwrap(), "max-age=3600, public");
    assert_eq!(header_value(hs, "Content-Type").unwrap(), "text/plain");
    assert_eq!(header_value(hs, "If-Match").unwrap(), "etag-1");
    assert_eq!(
        header_value(hs, "If-Modified-Since").unwrap(),
        "Wednesday, 21 Oct 2015 07:28:00 GMT"
    );
}

#[test]
fn content_query_parameters_are_encoded() {
    let mut content = ContentHeaders::default();
    content.content_type("text/plain".to_string());
    let mut builder = GetObjectRequest::from_key("k").into_builder(AK, SK, REGION, ENDPOINT).unwrap();
    builder.set_content_query(&content);
    let signed = builder.build_with(fixed_ts(), "https", ENDPOINT).unwrap();
    assert_eq!(
        signed.request.uri,
        "https://examplebucket.s3.amazonaws.com/k?response-content-type=text%2Fplain"
    );
}
