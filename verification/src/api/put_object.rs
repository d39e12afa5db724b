use vstd::prelude::*;
use crate::api::{Method, S3RequestBuilder, S3RequestBuilderV, S3RequestData, S3ResponseData, Scheme};
use crate::encode::spec_percent_encode_path;
use crate::error::S3Error;

verus! {

/// Storage of one object under one key.
pub struct PutObjectRequest {
    pub key: String,
    pub body: Vec<u8>,
}

pub struct PutObjectRequestV {
    pub key: Seq<char>,
    pub body: Seq<u8>,
}

impl View for PutObjectRequest {
    type V = PutObjectRequestV;

    open spec fn view(&self) -> PutObjectRequestV {
        PutObjectRequestV { key: self.key@, body: self.body@ }
    }
}

/// The builder state a storage request describes.
pub open spec fn spec_put_object_builder(
    v: PutObjectRequestV,
    access_key: Seq<char>,
    secret_key: Seq<char>,
    region: Seq<char>,
    endpoint: Seq<char>,
) -> S3RequestBuilderV {
    S3RequestBuilderV {
        method: Method::PUT,
        action: spec_percent_encode_path(v.key),
        query: Seq::empty(),
        headers: Seq::empty(),
        x_amz_headers: Seq::empty(),
        access_key: access_key,
        secret_key: secret_key,
        region: region,
        endpoint: endpoint,
        scheme: Scheme::HTTPS,
        body: Some(v.body),
    }
}

impl PutObjectRequest {
    /// Describe the request to the builder.
    pub fn into_builder(
        &self,
        access_key: &str,
        secret_key: &str,
        region: &str,
        endpoint: &str,
    ) -> (r: Result<S3RequestBuilder<PutObjectResponse>, S3Error>)
        ensures
            r matches Ok(b) && b@ == spec_put_object_builder(
                self@,
                access_key@,
                secret_key@,
                region@,
                endpoint@,
            ),
    {
        let mut builder = S3RequestBuilder::<PutObjectResponse>::new(
            Method::PUT,
            self.key.as_str(),
            access_key,
            secret_key,
            region,
            endpoint,
        );
        builder.body(self.body.as_slice());
        Ok(builder)
    }
}

impl S3RequestData for PutObjectRequest {
    type ResponseType = PutObjectResponse;

    fn into_builder(
        &self,
        access_key: &str,
        secret_key: &str,
        region: &str,
        endpoint: &str,
    ) -> Result<S3RequestBuilder<PutObjectResponse>, S3Error> {
        PutObjectRequest::into_builder(self, access_key, secret_key, region, endpoint)
    }
}

/// A storage response carries everything in its headers; the body stays
/// unread.
pub struct PutObjectResponse {}

impl PutObjectResponse {
    pub fn parse_body(data: &[u8]) -> (r: Result<PutObjectResponse, S3Error>)
        ensures
            r is Ok,
    {
        Ok(PutObjectResponse {  })
    }
}

impl S3ResponseData for PutObjectResponse {
    fn parse_body(data: &[u8]) -> Result<PutObjectResponse, S3Error> {
        PutObjectResponse::parse_body(data)
    }
}

} // verus!
