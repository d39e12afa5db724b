use s3_core::sign::{
    compute_signature, credential_scope, get_signature_key, hex_sha256, string_to_sign,
};
use s3_core::text::to_hex_lower;

// The published key-derivation example: secret, date 20150830, us-east-1,
// service iam.
const EXAMPLE_SECRET: &str = "wJalrXUtnFEMI/K7MDENG+bPxRfiCYEXAMPLEKEY";

#[test]
fn derived_signing_key_matches_the_published_example() {
    let key = get_signature_key(EXAMPLE_SECRET, "20150830", "us-east-1", "iam").unwrap();
    assert_eq!(
        to_hex_lower(&key),
        "c4afb1cc5771d871763a393e44b703571b55cc28424d1a5e86da6ed3c154a4b9"
    );
}

#[test]
fn derived_signing_key_is_deterministic() {
    let k1 = get_signature_key(EXAMPLE_SECRET, "20150830", "us-east-1", "s3").unwrap();
    let k2 = get_signature_key(EXAMPLE_SECRET, "20150830", "us-east-1", "s3").unwrap();
    assert_eq!(k1, k2);
}

#[test]
fn sha256_of_empty_text_matches_the_published_digest() {
    assert_eq!(
        hex_sha256(""),
        "e3b0c44298fc1c149afbf4c8996fb92427ae41e4649b934ca495991b7852b855"
    );
}

// The published object-retrieval example: a GET of /test.txt with a signed
// range header, examplebucket, 20130524, us-east-1.
#[test]
fn signature_matches_the_published_example() {
    let canonical_request = "GET\n\
         /test.txt\n\
         \n\
         host:examplebucket.s3.amazonaws.com\n\
         range:bytes=0-9\n\
         x-amz-content-sha256:e3b0c44298fc1c149afbf4c8996fb92427ae41e4649b934ca495991b7852b855\n\
         x-amz-date:20130524T000000Z\n\
         \n\
         host;range;x-amz-content-sha256;x-amz-date\n\
         e3b0c44298fc1c149afbf4c8996fb92427ae41e4649b934ca495991b7852b855";
    assert_eq!(
        hex_sha256(canonical_request),
        "7344ae5b7ee6c3e7e6b0fe0640412a37625d1fbfff95c48bbb2dc43964946972"
    );
    let scope = credential_scope("20130524", "us-east-1");
    assert_eq!(scope, "20130524/us-east-1/s3/aws4_request");
    let sts = string_to_sign("20130524T000000Z", &scope, canonical_request);
    assert_eq!(
        sts,
        "AWS4-HMAC-SHA256\n\
         20130524T000000Z\n\
         20130524/us-east-1/s3/aws4_request\n\
         7344ae5b7ee6c3e7e6b0fe0640412a37625d1fbfff95c48bbb2dc43964946972"
    );
    let secret = "wJalrXUtnFEMI/K7MDENG/bPxRfiCYEXAMPLEKEY";
    let sig = compute_signature(secret, "20130524", "us-east-1", &sts).unwrap();
    assert_eq!(sig, "f0e8bdb87c964420e857bd35b5d6ed310bd44f0170aba48dd91039c6036bdb41");
}
