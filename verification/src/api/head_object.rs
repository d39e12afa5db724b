use vstd::prelude::*;
use crate::api::{Method, S3RequestBuilder, S3RequestBuilderV, S3RequestData, S3ResponseData, Scheme};
use crate::encode::{spec_percent_encode_path, spec_percent_encode_query};
use crate::error::S3Error;
use crate::text::{spec_udec, u64_to_string};

verus! {

/// Metadata probe of one object, optionally one part or one version of it.
pub struct HeadObjectRequest {
    pub key: String,
    pub part_number: Option<u32>,
    pub version_id: Option<String>,
}

pub struct HeadObjectRequestV {
    pub key: Seq<char>,
    pub part_number: Option<u32>,
    pub version_id: Option<Seq<char>>,
}

impl View for HeadObjectRequest {
    type V = HeadObjectRequestV;

    open spec fn view(&self) -> HeadObjectRequestV {
        HeadObjectRequestV {
            key: self.key@,
            part_number: self.part_number,
            version_id: match self.version_id {
                Some(ref s) => Some(s@),
                None => None,
            },
        }
    }
}

/// The query list of a probe: the part number when one was given, then the
/// version id when one was given, each percent-encoded.
pub open spec fn spec_head_object_query(v: HeadObjectRequestV) -> Seq<(Seq<char>, Seq<char>)> {
    (match v.part_number {
        Some(n) => seq![
            (spec_percent_encode_query("partNumber"@), spec_percent_encode_query(spec_udec(n as nat))),
        ],
        None => Seq::empty(),
    }) + (match v.version_id {
        Some(id) => seq![(spec_percent_encode_query("VersionId"@), spec_percent_encode_query(id))],
        None => Seq::empty(),
    })
}

/// The builder state a probe describes.
pub open spec fn spec_head_object_builder(
    v: HeadObjectRequestV,
    access_key: Seq<char>,
    secret_key: Seq<char>,
    region: Seq<char>,
    endpoint: Seq<char>,
) -> S3RequestBuilderV {
    S3RequestBuilderV {
        method: Method::GET,
        action: spec_percent_encode_path(v.key),
        query: spec_head_object_query(v),
        headers: Seq::empty(),
        x_amz_headers: Seq::empty(),
        access_key: access_key,
        secret_key: secret_key,
        region: region,
        endpoint: endpoint,
        scheme: Scheme::HTTPS,
        body: None,
    }
}

impl HeadObjectRequest {
    /// A probe of the whole, current object.
    pub fn from_key(key: &str) -> (r: HeadObjectRequest)
        ensures
            r@ == (HeadObjectRequestV { key: key@, part_number: None, version_id: None }),
    {
        HeadObjectRequest { key: key.to_owned(), part_number: None, version_id: None }
    }

    /// Describe the request to the builder.  A part number outside 1..=10000
    /// is a validation error.
    pub fn into_builder(
        &self,
        access_key: &str,
        secret_key: &str,
        region: &str,
        endpoint: &str,
    ) -> (r: Result<S3RequestBuilder<HeadObjectResponse>, S3Error>)
        ensures
            r is Err <==> (self@.part_number matches Some(n) && !(1 <= n <= 10000)),
            r matches Err(e) ==> e == S3Error::ValidationError,
            r matches Ok(b) ==> b@ == spec_head_object_builder(
                self@,
                access_key@,
                secret_key@,
                region@,
                endpoint@,
            ),
    {
        let mut builder = S3RequestBuilder::<HeadObjectResponse>::new(
            Method::GET,
            self.key.as_str(),
            access_key,
            secret_key,
            region,
            endpoint,
        );
        if let Some(part_number) = self.part_number {
            if 1 <= part_number && part_number <= 10000 {
                let pn = u64_to_string(part_number as u64);
                builder.query("partNumber", Some(pn.as_str()));
            } else {
                return Err(S3Error::ValidationError);
            }
        }
        if let Some(version_id) = &self.version_id {
            builder.query("VersionId", Some(version_id.as_str()));
        }
        proof {
            assert(builder@.query =~= spec_head_object_query(self@));
        }
        Ok(builder)
    }
}

impl S3RequestData for HeadObjectRequest {
    type ResponseType = HeadObjectResponse;

    fn into_builder(
        &self,
        access_key: &str,
        secret_key: &str,
        region: &str,
        endpoint: &str,
    ) -> Result<S3RequestBuilder<HeadObjectResponse>, S3Error> {
        HeadObjectRequest::into_builder(self, access_key, secret_key, region, endpoint)
    }
}

/// A probe carries everything in its headers; the body stays empty.
pub struct HeadObjectResponse {}

impl HeadObjectResponse {
    pub fn parse_body(data: &[u8]) -> (r: Result<HeadObjectResponse, S3Error>)
        ensures
            r is Ok,
    {
        Ok(HeadObjectResponse {  })
    }
}

impl S3ResponseData for HeadObjectResponse {
    fn parse_body(data: &[u8]) -> Result<HeadObjectResponse, S3Error> {
        HeadObjectResponse::parse_body(data)
    }
}

} // verus!
