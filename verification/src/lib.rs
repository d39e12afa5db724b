use vstd::prelude::*;

pub mod api;
pub mod canonical;
pub mod encode;
pub mod error;
pub mod order;
pub mod sign;
pub mod text;
pub mod time;
pub mod xml_tokens;

verus! {

/// Service name used in every credential scope this crate produces.
pub const AWS_SERVICE: &'static str = "s3";

/// Hostname of a bucket endpoint in the standard form
/// `{bucket}.s3.{region}.amazonaws.com`.
pub fn default_endpoint(bucket: &str, region: &str) -> (r: String)
    ensures
        r@ == bucket@ + ".s3."@ + region@ + ".amazonaws.com"@,
{
    let mut r = bucket.to_owned();
    r.append(".s3.");
    r.append(region);
    r.append(".amazonaws.com");
    r
}

} // verus!
