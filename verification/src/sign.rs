use vstd::prelude::*;
use vstd::utf8::encode_utf8;
use crate::error::S3Error;
use crate::text::{spec_hex_lower, to_hex_lower};
use hmac::Mac;
use sha2::Digest;

verus! {

// ----------------------------------------------------------------------------
// The two cryptographic primitives, named but not written out
// ----------------------------------------------------------------------------

/// The SHA-256 digest of a byte sequence.
pub uninterp spec fn sha256_of(data: Seq<u8>) -> Seq<u8>;

/// The HMAC-SHA256 tag of a message under a key.
pub uninterp spec fn hmac_sha256_of(key: Seq<u8>, data: Seq<u8>) -> Seq<u8>;

/// Relies on sha2's Sha256: the digest is 32 bytes and a function of the
/// input bytes alone.
#[verifier::external_body]
pub(crate) fn sha256(data: &[u8]) -> (r: Vec<u8>)
    ensures
        r@ == sha256_of(data@),
        r@.len() == 32,
{
    sha2::Sha256::digest(data).to_vec()
}

/// Relies on hmac's Hmac over sha2's Sha256: the tag is 32 bytes and a
/// function of key and message alone.  Key construction accepts keys of any
/// length, so the call always succeeds; the error arm only converts the
/// primitive's error type, and is never taken.
#[verifier::external_body]
pub(crate) fn hmac_sha256(key: &[u8], data: &[u8]) -> (r: Result<Vec<u8>, S3Error>)
    ensures
        r is Ok,
        r matches Ok(v) ==> v@ == hmac_sha256_of(key@, data@) && v@.len() == 32,
{
    let mut mac = match <hmac::Hmac<sha2::Sha256> as hmac::KeyInit>::new_from_slice(key) {
        Ok(m) => m,
        Err(_) => {
            return Err(S3Error::CryptoError);
        },
    };
    mac.update(data);
    Ok(mac.finalize().into_bytes().to_vec())
}

// ----------------------------------------------------------------------------
// Key derivation
// ----------------------------------------------------------------------------

/// The SigV4 signing key: a four-stage HMAC-SHA256 chain over the secret
/// key, the date stamp, the region, the service name and the literal
/// `aws4_request`.
pub open spec fn spec_signature_key(
    secret: Seq<char>,
    date: Seq<char>,
    region: Seq<char>,
    service: Seq<char>,
) -> Seq<u8> {
    hmac_sha256_of(
        hmac_sha256_of(
            hmac_sha256_of(
                hmac_sha256_of(encode_utf8("AWS4"@ + secret), encode_utf8(date)),
                encode_utf8(region),
            ),
            encode_utf8(service),
        ),
        encode_utf8("aws4_request"@),
    )
}

/// Derive the signing key for one (secret key, date stamp, region, service)
/// tuple.
pub fn get_signature_key(secret_key: &str, date: &str, region: &str, service: &str) -> (r: Result<
    Vec<u8>,
    S3Error,
>)
    ensures
        r is Ok,
        r matches Ok(v) ==> v@ == spec_signature_key(secret_key@, date@, region@, service@),
{
    let mut k_secret = String::new();
    k_secret.append("AWS4");
    k_secret.append(secret_key);
    let k_date = match hmac_sha256(k_secret.as_str().as_bytes(), date.as_bytes()) {
        Ok(v) => v,
        Err(e) => {
            return Err(e);
        },
    };
    let k_region = match hmac_sha256(k_date.as_slice(), region.as_bytes()) {
        Ok(v) => v,
        Err(e) => {
            return Err(e);
        },
    };
    let k_service = match hmac_sha256(k_region.as_slice(), service.as_bytes()) {
        Ok(v) => v,
        Err(e) => {
            return Err(e);
        },
    };
    hmac_sha256(k_service.as_slice(), "aws4_request".as_bytes())
}

/// The derived signing key is one fixed byte sequence per input tuple: any
/// two derivations from equal inputs are byte-identical.
pub proof fn lemma_signing_key_deterministic(
    v1: Seq<u8>,
    v2: Seq<u8>,
    secret: Seq<char>,
    date: Seq<char>,
    region: Seq<char>,
    service: Seq<char>,
)
    requires
        v1 == spec_signature_key(secret, date, region, service),
        v2 == spec_signature_key(secret, date, region, service),
    ensures
        v1 == v2,
{
}

// ----------------------------------------------------------------------------
// String to sign and final signature
// ----------------------------------------------------------------------------

/// The credential scope: `date/region/s3/aws4_request`.
pub open spec fn spec_credential_scope(date: Seq<char>, region: Seq<char>) -> Seq<char> {
    date + "/"@ + region + "/s3/aws4_request"@
}

pub fn credential_scope(date: &str, region: &str) -> (r: String)
    ensures
        r@ == spec_credential_scope(date@, region@),
{
    let mut r = String::new();
    r.append(date);
    r.append("/");
    r.append(region);
    r.append("/s3/aws4_request");
    r
}

/// The hex-encoded SHA-256 of a string's UTF-8 bytes.
pub open spec fn spec_hex_sha256(text: Seq<char>) -> Seq<char> {
    spec_hex_lower(sha256_of(encode_utf8(text)))
}

pub fn hex_sha256(text: &str) -> (r: String)
    ensures
        r@ == spec_hex_sha256(text@),
{
    let digest = sha256(text.as_bytes());
    to_hex_lower(digest.as_slice())
}

/// The string to sign: algorithm, timestamp, credential scope and the hex
/// SHA-256 of the canonical request, on four lines.
pub open spec fn spec_string_to_sign(
    amz_date: Seq<char>,
    scope: Seq<char>,
    canonical_request: Seq<char>,
) -> Seq<char> {
    "AWS4-HMAC-SHA256\n"@ + amz_date + "\n"@ + scope + "\n"@ + spec_hex_sha256(canonical_request)
}

pub fn string_to_sign(amz_date: &str, scope: &str, canonical_request: &str) -> (r: String)
    ensures
        r@ == spec_string_to_sign(amz_date@, scope@, canonical_request@),
{
    let mut r = String::new();
    r.append("AWS4-HMAC-SHA256\n");
    r.append(amz_date);
    r.append("\n");
    r.append(scope);
    r.append("\n");
    let hash = hex_sha256(canonical_request);
    r.append(hash.as_str());
    r
}

/// The final signature: hex HMAC-SHA256 of the string to sign under the
/// derived signing key.
pub open spec fn spec_signature(
    secret: Seq<char>,
    date: Seq<char>,
    region: Seq<char>,
    string_to_sign: Seq<char>,
) -> Seq<char> {
    spec_hex_lower(
        hmac_sha256_of(
            spec_signature_key(secret, date, region, "s3"@),
            encode_utf8(string_to_sign),
        ),
    )
}

pub fn compute_signature(secret_key: &str, date: &str, region: &str, sts: &str) -> (r: Result<
    String,
    S3Error,
>)
    ensures
        r is Ok,
        r matches Ok(s) ==> s@ == spec_signature(secret_key@, date@, region@, sts@),
{
    let key = match get_signature_key(secret_key, date, region, "s3") {
        Ok(v) => v,
        Err(e) => {
            return Err(e);
        },
    };
    let tag = match hmac_sha256(key.as_slice(), sts.as_bytes()) {
        Ok(v) => v,
        Err(e) => {
            return Err(e);
        },
    };
    proof {
        reveal_strlit("s3");
    }
    Ok(to_hex_lower(tag.as_slice()))
}

/// The Authorization header value for a signed request.
pub open spec fn spec_authorization(
    access_key: Seq<char>,
    scope: Seq<char>,
    signed_headers: Seq<char>,
    signature: Seq<char>,
) -> Seq<char> {
    "AWS4-HMAC-SHA256 Credential="@ + access_key + "/"@ + scope + ", SignedHeaders="@
        + signed_headers + ", Signature="@ + signature
}

pub fn authorization_header(
    access_key: &str,
    scope: &str,
    signed_headers: &str,
    signature: &str,
) -> (r: String)
    ensures
        r@ == spec_authorization(access_key@, scope@, signed_headers@, signature@),
{
    let mut r = String::new();
    r.append("AWS4-HMAC-SHA256 Credential=");
    r.append(access_key);
    r.append("/");
    r.append(scope);
    r.append(", SignedHeaders=");
    r.append(signed_headers);
    r.append(", Signature=");
    r.append(signature);
    r
}

/// The payload hash: hex SHA-256 of the body, or of the fixed sentinel
/// `UNSIGNED-PAYLOAD` when there is no body.
pub open spec fn spec_payload_hash(body: Option<Seq<u8>>) -> Seq<char> {
    match body {
        Option::Some(b) => spec_hex_lower(sha256_of(b)),
        Option::None => spec_hex_lower(sha256_of(encode_utf8("UNSIGNED-PAYLOAD"@))),
    }
}

pub fn payload_hash(body: &Option<Vec<u8>>) -> (r: String)
    ensures
        body matches Some(b) ==> r@ == spec_payload_hash(Some(b@)),
        body is None ==> r@ == spec_payload_hash(None),
{
    match body {
        Option::Some(b) => {
            let digest = sha256(b.as_slice());
            to_hex_lower(digest.as_slice())
        },
        Option::None => {
            let digest = sha256("UNSIGNED-PAYLOAD".as_bytes());
            to_hex_lower(digest.as_slice())
        },
    }
}

} // verus!
