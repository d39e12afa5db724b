use vstd::prelude::*;
use crate::api::{Method, S3RequestBuilder, S3RequestBuilderV, S3RequestData, S3ResponseData, Scheme};
use crate::encode::{spec_percent_encode_path, spec_percent_encode_query};
use crate::error::S3Error;
use crate::text::{i32_to_string, spec_idec};

verus! {

/// Retrieval of one object, optionally one part or one version of it.
pub struct GetObjectRequest {
    pub key: String,
    pub part_number: Option<i32>,
    pub version_id: Option<String>,
}

pub struct GetObjectRequestV {
    pub key: Seq<char>,
    pub part_number: Option<i32>,
    pub version_id: Option<Seq<char>>,
}

impl View for GetObjectRequest {
    type V = GetObjectRequestV;

    open spec fn view(&self) -> GetObjectRequestV {
        GetObjectRequestV {
            key: self.key@,
            part_number: self.part_number,
            version_id: match self.version_id {
                Some(ref s) => Some(s@),
                None => None,
            },
        }
    }
}

/// The query list of a retrieval: the part number when one was given, then
/// the version id when one was given, each percent-encoded.
pub open spec fn spec_get_object_query(v: GetObjectRequestV) -> Seq<(Seq<char>, Seq<char>)> {
    (match v.part_number {
        Some(n) => seq![
            (spec_percent_encode_query("partNumber"@), spec_percent_encode_query(spec_idec(n as int))),
        ],
        None => Seq::empty(),
    }) + (match v.version_id {
        Some(id) => seq![(spec_percent_encode_query("versionId"@), spec_percent_encode_query(id))],
        None => Seq::empty(),
    })
}

/// The builder state a retrieval request describes.
pub open spec fn spec_get_object_builder(
    v: GetObjectRequestV,
    access_key: Seq<char>,
    secret_key: Seq<char>,
    region: Seq<char>,
    endpoint: Seq<char>,
) -> S3RequestBuilderV {
    S3RequestBuilderV {
        method: Method::GET,
        action: spec_percent_encode_path(v.key),
        query: spec_get_object_query(v),
        headers: Seq::empty(),
        x_amz_headers: Seq::empty(),
        access_key: access_key,
        secret_key: secret_key,
        region: region,
        endpoint: endpoint,
        scheme: Scheme::HTTPS,
        body: None,
    }
}

impl GetObjectRequest {
    /// A retrieval of the whole, current object.
    pub fn from_key(key: &str) -> (r: GetObjectRequest)
        ensures
            r@ == (GetObjectRequestV { key: key@, part_number: None, version_id: None }),
    {
        GetObjectRequest { key: key.to_owned(), part_number: None, version_id: None }
    }

    /// Describe the request to the builder.  A part number outside 1..=10000
    /// is a validation error.
    pub fn into_builder(
        &self,
        access_key: &str,
        secret_key: &str,
        region: &str,
        endpoint: &str,
    ) -> (r: Result<S3RequestBuilder<GetObjectResponse>, S3Error>)
        ensures
            r is Err <==> (self@.part_number matches Some(n) && !(1 <= n <= 10000)),
            r matches Err(e) ==> e == S3Error::ValidationError,
            r matches Ok(b) ==> b@ == spec_get_object_builder(
                self@,
                access_key@,
                secret_key@,
                region@,
                endpoint@,
            ),
    {
        let mut builder = S3RequestBuilder::<GetObjectResponse>::new(
            Method::GET,
            self.key.as_str(),
            access_key,
            secret_key,
            region,
            endpoint,
        );
        if let Some(part_number) = self.part_number {
            if 1 <= part_number && part_number <= 10000 {
                let pn = i32_to_string(part_number);
                builder.query("partNumber", Some(pn.as_str()));
            } else {
                return Err(S3Error::ValidationError);
            }
        }
        if let Some(version_id) = &self.version_id {
            builder.query("versionId", Some(version_id.as_str()));
        }
        proof {
            assert(builder@.query =~= spec_get_object_query(self@));
        }
        Ok(builder)
    }
}

impl S3RequestData for GetObjectRequest {
    type ResponseType = GetObjectResponse;

    fn into_builder(
        &self,
        access_key: &str,
        secret_key: &str,
        region: &str,
        endpoint: &str,
    ) -> Result<S3RequestBuilder<GetObjectResponse>, S3Error> {
        GetObjectRequest::into_builder(self, access_key, secret_key, region, endpoint)
    }
}

/// The raw bytes of a retrieved object.
pub struct GetObjectResponse {
    pub data: Vec<u8>,
}

impl GetObjectResponse {
    /// The whole body, kept as it came.
    pub fn parse_body(data: &[u8]) -> (r: Result<GetObjectResponse, S3Error>)
        ensures
            r matches Ok(resp) && resp.data@ == data@,
    {
        Ok(GetObjectResponse { data: vstd::slice::slice_to_vec(data) })
    }
}

impl S3ResponseData for GetObjectResponse {
    fn parse_body(data: &[u8]) -> Result<GetObjectResponse, S3Error> {
        GetObjectResponse::parse_body(data)
    }
}

} // verus!
