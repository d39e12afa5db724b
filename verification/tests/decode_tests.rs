use s3_core::api::list_buckets::ListBucketsResponse;
use s3_core::api::list_objects_v2::ListObjectsV2Response;
use s3_core::api::{ApiChecksumType, ChecksumAlgorithm};
use s3_core::api::x_amz_headers::XAmzStorageClass;
use s3_core::error::S3Error;
use s3_core::time::Timestamp;

#[test]
fn decodes_the_single_bucket_listing() {
    let body = "<ListBucketsResult><Buckets><Bucket><Name>x</Name>\
                <CreationDate>2020-01-01T00:00:00Z</CreationDate>\
                <BucketRegion>us-east-1</BucketRegion></Bucket></Buckets>\
                <Owner><ID>abc</ID></Owner></ListBucketsResult>";
    let r = ListBucketsResponse::parse_body(body.as_bytes()).unwrap();
    assert_eq!(r.buckets.len(), 1);
    assert_eq!(r.buckets[0].name, "x");
    assert_eq!(r.buckets[0].region, "us-east-1");
    assert_eq!(
        r.buckets[0].creation_date,
        Some(Timestamp { year: 2020, month: 1, day: 1, hour: 0, minute: 0, second: 0, nanosecond: 0 })
    );
    assert_eq!(r.owner.id, "abc");
    assert_eq!(r.owner.display_name, None);
    assert_eq!(r.prefix, None);
    assert_eq!(r.continuation_token, None);
}

#[test]
fn a_truncated_tag_is_a_decode_error() {
    let body = "<ListBucketsResult><Buckets><Bucket><Name>x</Nam";
    assert!(matches!(
        ListBucketsResponse::parse_body(body.as_bytes()),
        Err(S3Error::DecodeError)
    ));
}

#[test]
fn a_missing_owner_is_a_decode_error() {
    let body = "<ListBucketsResult><Buckets></Buckets></ListBucketsResult>";
    assert!(matches!(
        ListBucketsResponse::parse_body(body.as_bytes()),
        Err(S3Error::DecodeError)
    ));
}

#[test]
fn decodes_an_object_listing() {
    let body = "<ListBucketResult>\
                <IsTruncated>false</IsTruncated>\
                <Name>bucket</Name>\
                <Prefix></Prefix>\
                <KeyCount>1</KeyCount>\
                <MaxKeys>1000</MaxKeys>\
                <Contents>\
                <Key>my-object</Key>\
                <LastModified>2023-06-05T12:00:00Z</LastModified>\
                <ETag>&quot;fba9dede5f27731c9771645a39863328&quot;</ETag>\
                <ChecksumAlgorithm>CRC32</ChecksumAlgorithm>\
                <ChecksumType>FULL_OBJECT</ChecksumType>\
                <Size>434234</Size>\
                <StorageClass>STANDARD</StorageClass>\
                </Contents>\
                <CommonPrefixes><Prefix>photos/</Prefix></CommonPrefixes>\
                </ListBucketResult>";
    let r = ListObjectsV2Response::parse_body(body.as_bytes()).unwrap();
    assert_eq!(r.is_truncated, false);
    assert_eq!(r.name, "bucket");
    assert_eq!(r.key_count, 1);
    assert_eq!(r.max_keys, 1000);
    assert_eq!(r.common_prefixes, vec!["photos/".to_string()]);
    assert_eq!(r.contents.len(), 1);
    let o = &r.contents[0];
    assert_eq!(o.key, "my-object");
    assert_eq!(o.etag, "\"fba9dede5f27731c9771645a39863328\"");
    assert_eq!(o.size, 434234);
    assert!(matches!(o.storage_class, XAmzStorageClass::Standard));
    assert!(matches!(o.checksum_algorithm, Some(ChecksumAlgorithm::CRC32)));
    assert_eq!(o.checksum_type, Some(ApiChecksumType::FullObject));
    assert_eq!(
        o.last_modified,
        Timestamp { year: 2023, month: 6, day: 5, hour: 12, minute: 0, second: 0, nanosecond: 0 }
    );
    assert_eq!(o.owner.is_none(), true);
    assert_eq!(o.restore_status.is_none(), true);
}

#[test]
fn boolean_fields_read_any_case() {
    let body = "<ListBucketResult>\
                <IsTruncated>TRUE</IsTruncated>\
                <KeyCount>0</KeyCount>\
                <MaxKeys>0</MaxKeys>\
                </ListBucketResult>";
    let r = ListObjectsV2Response::parse_body(body.as_bytes()).unwrap();
    assert_eq!(r.is_truncated, true);
}

#[test]
fn a_bad_boolean_is_a_decode_error() {
    let body = "<ListBucketResult>\
                <IsTruncated>yes</IsTruncated>\
                <KeyCount>0</KeyCount>\
                <MaxKeys>0</MaxKeys>\
                </ListBucketResult>";
    assert!(matches!(
        ListObjectsV2Response::parse_body(body.as_bytes()),
        Err(S3Error::DecodeError)
    ));
}

#[test]
fn a_bad_counter_is_a_decode_error() {
    let body = "<ListBucketResult>\
                <IsTruncated>false</IsTruncated>\
                <KeyCount>many</KeyCount>\
                <MaxKeys>0</MaxKeys>\
                </ListBucketResult>";
    assert!(matches!(
        ListObjectsV2Response::parse_body(body.as_bytes()),
        Err(S3Error::DecodeError)
    ));
}

#[test]
fn a_missing_counter_is_a_decode_error() {
    let body = "<ListBucketResult><IsTruncated>false</IsTruncated></ListBucketResult>";
    assert!(matches!(
        ListObjectsV2Response::parse_body(body.as_bytes()),
        Err(S3Error::DecodeError)
    ));
}

#[test]
fn an_unknown_checksum_type_is_a_decode_error() {
    let body = "<ListBucketResult>\
                <IsTruncated>false</IsTruncated>\
                <KeyCount>1</KeyCount>\
                <MaxKeys>1</MaxKeys>\
                <Contents>\
                <Key>k</Key>\
                <LastModified>2023-06-05T12:00:00Z</LastModified>\
                <ETag>e</ETag>\
                <ChecksumType>PARTIAL</ChecksumType>\
                <Size>1</Size>\
                <StorageClass>STANDARD</StorageClass>\
                </Contents>\
                </ListBucketResult>";
    assert!(matches!(
        ListObjectsV2Response::parse_body(body.as_bytes()),
        Err(S3Error::DecodeError)
    ));
}

#[test]
fn a_listing_body_round_trips_through_its_own_vocabulary() {
    let body = "<ListBucketsResult>\
                <ContinuationToken>tok</ContinuationToken>\
                <Prefix>pre</Prefix>\
                <Buckets>\
                <Bucket><Name>one</Name><BucketRegion>r1</BucketRegion></Bucket>\
                <Bucket><Name>two</Name>\
                <CreationDate>2021-03-04T05:06:07Z</CreationDate>\
                <BucketRegion>r2</BucketRegion></Bucket>\
                </Buckets>\
                <Owner><DisplayName>dn</DisplayName><ID>oid</ID></Owner>\
                </ListBucketsResult>";
    let r = ListBucketsResponse::parse_body(body.as_bytes()).unwrap();
    // rebuild the same body from the decoded record and decode it again
    let mut rebuilt = String::new();
    rebuilt.push_str("<ListBucketsResult>");
    rebuilt.push_str(&format!(
        "<ContinuationToken>{}</ContinuationToken>",
        r.continuation_token.clone().unwrap()
    ));
    rebuilt.push_str(&format!("<Prefix>{}</Prefix>", r.prefix.clone().unwrap()));
    rebuilt.push_str("<Buckets>");
    for b in &r.buckets {
        rebuilt.push_str("<Bucket>");
        rebuilt.push_str(&format!("<Name>{}</Name>", b.name));
        if let Some(c) = b.creation_date {
            rebuilt.push_str(&format!("<CreationDate>{}</CreationDate>", c.rfc3339()));
        }
        rebuilt.push_str(&format!("<BucketRegion>{}</BucketRegion>", b.region));
        rebuilt.push_str("</Bucket>");
    }
    rebuilt.push_str("</Buckets>");
    rebuilt.push_str(&format!(
        "<Owner><DisplayName>{}</DisplayName><ID>{}</ID></Owner>",
        r.owner.display_name.clone().unwrap(),
        r.owner.id
    ));
    rebuilt.push_str("</ListBucketsResult>");
    let r2 = ListBucketsResponse::parse_body(rebuilt.as_bytes()).unwrap();
    assert_eq!(r2.continuation_token, r.continuation_token);
    assert_eq!(r2.prefix, r.prefix);
    assert_eq!(r2.owner.id, r.owner.id);
    assert_eq!(r2.owner.display_name, r.owner.display_name);
    assert_eq!(r2.buckets.len(), r.buckets.len());
    for (a, b) in r2.buckets.iter().zip(r.buckets.iter()) {
        assert_eq!(a.name, b.name);
        assert_eq!(a.creation_date, b.creation_date);
        assert_eq!(a.region, b.region);
    }
}
