use vstd::prelude::*;
use crate::canonical::{lower_str, spec_lower};
use crate::order::{pair_view, pair_views, str_eq};
use crate::canonical::{join_pairs, spec_join_query};
use crate::text::{i32_to_string, spec_idec};
use crate::time::Timestamp;

verus! {

// ----------------------------------------------------------------------------
// Request option vocabularies
// ----------------------------------------------------------------------------

pub enum XAmzCannedAcl {
    Private,
    PublicRead,
    PublicReadWrite,
    AuthRead,
    AWSExecRead,
    BucketOwnerRead,
    BucketOwnerFullControl,
    Acl(String),
}

pub enum XAmzCannedAclV {
    Private,
    PublicRead,
    PublicReadWrite,
    AuthRead,
    AWSExecRead,
    BucketOwnerRead,
    BucketOwnerFullControl,
    Acl(Seq<char>),
}

impl View for XAmzCannedAcl {
    type V = XAmzCannedAclV;

    open spec fn view(&self) -> XAmzCannedAclV {
        match self {
            XAmzCannedAcl::Private => XAmzCannedAclV::Private,
            XAmzCannedAcl::PublicRead => XAmzCannedAclV::PublicRead,
            XAmzCannedAcl::PublicReadWrite => XAmzCannedAclV::PublicReadWrite,
            XAmzCannedAcl::AuthRead => XAmzCannedAclV::AuthRead,
            XAmzCannedAcl::AWSExecRead => XAmzCannedAclV::AWSExecRead,
            XAmzCannedAcl::BucketOwnerRead => XAmzCannedAclV::BucketOwnerRead,
            XAmzCannedAcl::BucketOwnerFullControl => XAmzCannedAclV::BucketOwnerFullControl,
            XAmzCannedAcl::Acl(s) => XAmzCannedAclV::Acl(s@),
        }
    }
}

pub enum XAmzChecksum {
    CRC32(String),
    CRC32C(String),
    CRC64NVME(String),
    SHA1(String),
    Sha256(String),
    Checksum(String, String),
}

pub enum XAmzChecksumV {
    CRC32(Seq<char>),
    CRC32C(Seq<char>),
    CRC64NVME(Seq<char>),
    SHA1(Seq<char>),
    Sha256(Seq<char>),
    Checksum(Seq<char>, Seq<char>),
}

impl View for XAmzChecksum {
    type V = XAmzChecksumV;

    open spec fn view(&self) -> XAmzChecksumV {
        match self {
            XAmzChecksum::CRC32(s) => XAmzChecksumV::CRC32(s@),
            XAmzChecksum::CRC32C(s) => XAmzChecksumV::CRC32C(s@),
            XAmzChecksum::CRC64NVME(s) => XAmzChecksumV::CRC64NVME(s@),
            XAmzChecksum::SHA1(s) => XAmzChecksumV::SHA1(s@),
            XAmzChecksum::Sha256(s) => XAmzChecksumV::Sha256(s@),
            XAmzChecksum::Checksum(k, s) => XAmzChecksumV::Checksum(k@, s@),
        }
    }
}

#[derive(Clone, Copy, Debug, PartialEq, Eq, Structural)]
pub enum XAmzGrants {
    FullControl,
    Read,
    ReadACP,
    WriteACP,
}

#[derive(Clone, Copy, Debug, PartialEq, Eq, Structural)]
pub enum XAmzObjectLockMode {
    Governance,
    Compliance,
}

pub enum XAmzServerSideEncryption {
    AES256,
    KMS,
    KMSDSSE,
    Algorithm(String),
}

pub enum XAmzServerSideEncryptionV {
    AES256,
    KMS,
    KMSDSSE,
    Algorithm(Seq<char>),
}

impl View for XAmzServerSideEncryption {
    type V = XAmzServerSideEncryptionV;

    open spec fn view(&self) -> XAmzServerSideEncryptionV {
        match self {
            XAmzServerSideEncryption::AES256 => XAmzServerSideEncryptionV::AES256,
            XAmzServerSideEncryption::KMS => XAmzServerSideEncryptionV::KMS,
            XAmzServerSideEncryption::KMSDSSE => XAmzServerSideEncryptionV::KMSDSSE,
            XAmzServerSideEncryption::Algorithm(s) => XAmzServerSideEncryptionV::Algorithm(s@),
        }
    }
}

pub enum XAmzStorageClass {
    Standard,
    ReducedRedundancy,
    StandardIA,
    OnezoneIA,
    IntelligentTiering,
    Glacier,
    DeepArchive,
    Outposts,
    GlacierIR,
    Snow,
    ExpressOneZone,
    StorageClass(String),
}

pub enum XAmzStorageClassV {
    Standard,
    ReducedRedundancy,
    StandardIA,
    OnezoneIA,
    IntelligentTiering,
    Glacier,
    DeepArchive,
    Outposts,
    GlacierIR,
    Snow,
    ExpressOneZone,
    StorageClass(Seq<char>),
}

impl View for XAmzStorageClass {
    type V = XAmzStorageClassV;

    open spec fn view(&self) -> XAmzStorageClassV {
        match self {
            XAmzStorageClass::Standard => XAmzStorageClassV::Standard,
            XAmzStorageClass::ReducedRedundancy => XAmzStorageClassV::ReducedRedundancy,
            XAmzStorageClass::StandardIA => XAmzStorageClassV::StandardIA,
            XAmzStorageClass::OnezoneIA => XAmzStorageClassV::OnezoneIA,
            XAmzStorageClass::IntelligentTiering => XAmzStorageClassV::IntelligentTiering,
            XAmzStorageClass::Glacier => XAmzStorageClassV::Glacier,
            XAmzStorageClass::DeepArchive => XAmzStorageClassV::DeepArchive,
            XAmzStorageClass::Outposts => XAmzStorageClassV::Outposts,
            XAmzStorageClass::GlacierIR => XAmzStorageClassV::GlacierIR,
            XAmzStorageClass::Snow => XAmzStorageClassV::Snow,
            XAmzStorageClass::ExpressOneZone => XAmzStorageClassV::ExpressOneZone,
            XAmzStorageClass::StorageClass(s) => XAmzStorageClassV::StorageClass(s@),
        }
    }
}

/// The storage class a response names, from its ASCII-lower-cased text; any
/// unknown text is kept as it stands (lower-cased).
pub open spec fn spec_storage_class_of(s: Seq<char>) -> XAmzStorageClassV {
    let l = spec_lower(s);
    if l == "standard"@ {
        XAmzStorageClassV::Standard
    } else if l == "reduced_redundancy"@ {
        XAmzStorageClassV::ReducedRedundancy
    } else if l == "glacier"@ {
        XAmzStorageClassV::Glacier
    } else if l == "standard_ia"@ {
        XAmzStorageClassV::StandardIA
    } else if l == "onezone_ia"@ {
        XAmzStorageClassV::OnezoneIA
    } else if l == "intelligent_tiering"@ {
        XAmzStorageClassV::IntelligentTiering
    } else if l == "deep_archive"@ {
        XAmzStorageClassV::DeepArchive
    } else if l == "outposts"@ {
        XAmzStorageClassV::Outposts
    } else if l == "glacier_ir"@ {
        XAmzStorageClassV::GlacierIR
    } else if l == "snow"@ {
        XAmzStorageClassV::Snow
    } else if l == "express_onezone"@ {
        XAmzStorageClassV::ExpressOneZone
    } else {
        XAmzStorageClassV::StorageClass(l)
    }
}

pub fn storage_class_from_str(class: String) -> (r: XAmzStorageClass)
    ensures
        r@ == spec_storage_class_of(class@),
{
    let c = lower_str(class.as_str());
    if str_eq(c.as_str(), "standard") {
        XAmzStorageClass::Standard
    } else if str_eq(c.as_str(), "reduced_redundancy") {
        XAmzStorageClass::ReducedRedundancy
    } else if str_eq(c.as_str(), "glacier") {
        XAmzStorageClass::Glacier
    } else if str_eq(c.as_str(), "standard_ia") {
        XAmzStorageClass::StandardIA
    } else if str_eq(c.as_str(), "onezone_ia") {
        XAmzStorageClass::OnezoneIA
    } else if str_eq(c.as_str(), "intelligent_tiering") {
        XAmzStorageClass::IntelligentTiering
    } else if str_eq(c.as_str(), "deep_archive") {
        XAmzStorageClass::DeepArchive
    } else if str_eq(c.as_str(), "outposts") {
        XAmzStorageClass::Outposts
    } else if str_eq(c.as_str(), "glacier_ir") {
        XAmzStorageClass::GlacierIR
    } else if str_eq(c.as_str(), "snow") {
        XAmzStorageClass::Snow
    } else if str_eq(c.as_str(), "express_onezone") {
        XAmzStorageClass::ExpressOneZone
    } else {
        XAmzStorageClass::StorageClass(c)
    }
}

// ----------------------------------------------------------------------------
// The x-amz header set and its builder
// ----------------------------------------------------------------------------

/// A finished set of x-amz headers for one request.
pub struct XAmzHeaders {
    pub(crate) headers: Vec<(String, String)>,
}

impl View for XAmzHeaders {
    type V = Seq<(Seq<char>, Seq<char>)>;

    closed spec fn view(&self) -> Seq<(Seq<char>, Seq<char>)> {
        pair_views(self.headers@)
    }
}

impl XAmzHeaders {
    /// The header pairs of this set.
    pub fn headers(&self) -> (r: Vec<(String, String)>)
        ensures
            pair_views(r@) == self@,
    {
        let mut r: Vec<(String, String)> = Vec::new();
        let n = self.headers.len();
        proof {
            assert(pair_views(r@) =~= pair_views(self.headers@).take(0));
        }
        for i in 0..n
            invariant
                n == self.headers@.len(),
                pair_views(r@) == pair_views(self.headers@).take(i as int),
        {
            let ghost before = r@;
            r.push((self.headers[i].0.clone(), self.headers[i].1.clone()));
            proof {
                assert(pair_views(r@) =~= pair_views(before).push(
                    pair_view(self.headers@[i as int]),
                ));
                assert(pair_views(self.headers@).take(i + 1) =~= pair_views(
                    self.headers@,
                ).take(i as int).push(pair_view(self.headers@[i as int])));
            }
        }
        proof {
            assert(pair_views(self.headers@).take(n as int) =~= pair_views(self.headers@));
        }
        r
    }
}

/// Spec view of the builder's accumulated state.
pub struct XAmzBuilderV {
    pub checksum_mode: bool,
    pub expected_bucket_owner: Option<Seq<char>>,
    pub request_payer: bool,
    pub encryption_customer_algorithm: Option<Seq<char>>,
    pub encryption_customer_key: Option<Seq<char>>,
    pub encryption_customer_key_md5: Option<Seq<char>>,
    pub encryption_algorithm: Option<XAmzServerSideEncryptionV>,
    pub encryption_kms_key_id: Option<Seq<char>>,
    pub encryption_bucket_key: bool,
    pub encryption_context: Option<Seq<char>>,
    pub object_lock_legal_hold: bool,
    pub object_lock_mode: Option<XAmzObjectLockMode>,
    pub object_lock_retain_until: Option<Timestamp>,
    pub canned_acl: Option<XAmzCannedAclV>,
    pub checksum: Option<XAmzChecksumV>,
    pub grants: Seq<XAmzGrants>,
    pub storage_class: Option<XAmzStorageClassV>,
    pub tagging: Seq<(Seq<char>, Seq<char>)>,
    pub website_redirect_location: Option<Seq<char>>,
    pub write_offset: Option<i32>,
    pub headers: Seq<(Seq<char>, Seq<char>)>,
}

/// Builds a set of x-amz headers, option by option.
pub struct XAmzHeadersBuilder {
    checksum_mode: bool,
    expected_bucket_owner: Option<String>,
    request_payer: bool,
    encryption_customer_algorithm: Option<String>,
    encryption_customer_key: Option<String>,
    encryption_customer_key_md5: Option<String>,
    encryption_algorithm: Option<XAmzServerSideEncryption>,
    encryption_kms_key_id: Option<String>,
    encryption_bucket_key: bool,
    encryption_context: Option<String>,
    object_lock_legal_hold: bool,
    object_lock_mode: Option<XAmzObjectLockMode>,
    object_lock_retain_until: Option<Timestamp>,
    canned_acl: Option<XAmzCannedAcl>,
    checksum: Option<XAmzChecksum>,
    grants: Vec<XAmzGrants>,
    storage_class: Option<XAmzStorageClass>,
    tagging: Vec<(String, String)>,
    website_redirect_location: Option<String>,
    write_offset: Option<i32>,
    headers: Vec<(String, String)>,
}

pub open spec fn opt_str_view(o: Option<String>) -> Option<Seq<char>> {
    match o {
        Some(s) => Some(s@),
        None => None,
    }
}

impl View for XAmzHeadersBuilder {
    type V = XAmzBuilderV;

    closed spec fn view(&self) -> XAmzBuilderV {
        XAmzBuilderV {
            checksum_mode: self.checksum_mode,
            expected_bucket_owner: opt_str_view(self.expected_bucket_owner),
            request_payer: self.request_payer,
            encryption_customer_algorithm: opt_str_view(self.encryption_customer_algorithm),
            encryption_customer_key: opt_str_view(self.encryption_customer_key),
            encryption_customer_key_md5: opt_str_view(self.encryption_customer_key_md5),
            encryption_algorithm: match self.encryption_algorithm {
                Some(a) => Some(a@),
                None => None,
            },
            encryption_kms_key_id: opt_str_view(self.encryption_kms_key_id),
            encryption_bucket_key: self.encryption_bucket_key,
            encryption_context: opt_str_view(self.encryption_context),
            object_lock_legal_hold: self.object_lock_legal_hold,
            object_lock_mode: self.object_lock_mode,
            object_lock_retain_until: self.object_lock_retain_until,
            canned_acl: match self.canned_acl {
                Some(a) => Some(a@),
                None => None,
            },
            checksum: match self.checksum {
                Some(c) => Some(c@),
                None => None,
            },
            grants: self.grants@,
            storage_class: match self.storage_class {
                Some(c) => Some(c@),
                None => None,
            },
            tagging: pair_views(self.tagging@),
            website_redirect_location: opt_str_view(self.website_redirect_location),
            write_offset: self.write_offset,
            headers: pair_views(self.headers@),
        }
    }
}

// ----------------------------------------------------------------------------
// What each option contributes to the finished header set
// ----------------------------------------------------------------------------

pub open spec fn spec_sse_str(a: XAmzServerSideEncryptionV) -> Seq<char> {
    match a {
        XAmzServerSideEncryptionV::AES256 => "AES256"@,
        XAmzServerSideEncryptionV::KMS => "aws:kms"@,
        XAmzServerSideEncryptionV::KMSDSSE => "aws:kms:dsse"@,
        XAmzServerSideEncryptionV::Algorithm(s) => s,
    }
}

pub open spec fn spec_acl_str(a: XAmzCannedAclV) -> Seq<char> {
    match a {
        XAmzCannedAclV::Private => "private"@,
        XAmzCannedAclV::PublicRead => "public-read"@,
        XAmzCannedAclV::PublicReadWrite => "public-read-write"@,
        XAmzCannedAclV::AuthRead => "authenticated-read"@,
        XAmzCannedAclV::AWSExecRead => "aws-exec-read"@,
        XAmzCannedAclV::BucketOwnerRead => "bucket-owner-read"@,
        XAmzCannedAclV::BucketOwnerFullControl => "bucket-owner-full-control"@,
        XAmzCannedAclV::Acl(s) => s,
    }
}

pub open spec fn spec_checksum_pair(c: XAmzChecksumV) -> (Seq<char>, Seq<char>) {
    match c {
        XAmzChecksumV::CRC32(sum) => ("x-amz-checksum-crc32"@, sum),
        XAmzChecksumV::CRC32C(sum) => ("x-amz-checksum-crc32c"@, sum),
        XAmzChecksumV::CRC64NVME(sum) => ("x-amz-checksum-crc64nvme"@, sum),
        XAmzChecksumV::SHA1(sum) => ("x-amz-checksum-sha1"@, sum),
        XAmzChecksumV::Sha256(sum) => ("x-amz-checksum-sha256"@, sum),
        XAmzChecksumV::Checksum(k, sum) => ("x-amz-checksum-"@ + k, sum),
    }
}

pub open spec fn spec_grant_pair(g: XAmzGrants) -> (Seq<char>, Seq<char>) {
    match g {
        XAmzGrants::FullControl => ("x-amz-grant-full-control"@, Seq::<char>::empty()),
        XAmzGrants::Read => ("x-amz-grant-read"@, Seq::<char>::empty()),
        XAmzGrants::ReadACP => ("x-amz-grant-read-acp"@, Seq::<char>::empty()),
        XAmzGrants::WriteACP => ("x-amz-grant-write-acp"@, Seq::<char>::empty()),
    }
}

pub open spec fn spec_storage_class_str(c: XAmzStorageClassV) -> Seq<char> {
    match c {
        XAmzStorageClassV::Standard => "STANDARD"@,
        XAmzStorageClassV::ReducedRedundancy => "REDUCED_REDUNDANCY"@,
        XAmzStorageClassV::StandardIA => "STANDARD_IA"@,
        XAmzStorageClassV::OnezoneIA => "ONEZONE_IA"@,
        XAmzStorageClassV::IntelligentTiering => "INTELLIGENT_TIERING"@,
        XAmzStorageClassV::Glacier => "GLACIER"@,
        XAmzStorageClassV::DeepArchive => "DEEP_ARCHIVE"@,
        XAmzStorageClassV::Outposts => "OUTPOSTS"@,
        XAmzStorageClassV::GlacierIR => "GLACIER_IR"@,
        XAmzStorageClassV::Snow => "SNOW"@,
        XAmzStorageClassV::ExpressOneZone => "EXPRESS_ONEZONE"@,
        XAmzStorageClassV::StorageClass(s) => s,
    }
}

pub open spec fn opt_pair(name: Seq<char>, v: Option<Seq<char>>) -> Seq<(Seq<char>, Seq<char>)> {
    match v {
        Some(s) => seq![(name, s)],
        None => Seq::empty(),
    }
}

pub open spec fn flag_pair(name: Seq<char>, value: Seq<char>, on: bool) -> Seq<
    (Seq<char>, Seq<char>),
> {
    if on {
        seq![(name, value)]
    } else {
        Seq::empty()
    }
}

/// The mode, owner and payer options.
pub open spec fn spec_xamz_mode(v: XAmzBuilderV) -> Seq<(Seq<char>, Seq<char>)> {
    flag_pair("x-amz-checksum-mode"@, "ENABLED"@, v.checksum_mode) + opt_pair(
        "x-amz-expected-bucket-owner"@,
        v.expected_bucket_owner,
    ) + flag_pair("x-amz-request-payer"@, "requester"@, v.request_payer)
}

/// The server-side-encryption options.
pub open spec fn spec_xamz_encryption(v: XAmzBuilderV) -> Seq<(Seq<char>, Seq<char>)> {
    opt_pair("x-amz-server-side-encryption-customer-algorithm"@, v.encryption_customer_algorithm)
        + opt_pair("x-amz-server-side-encryption-customer-key"@, v.encryption_customer_key)
        + opt_pair(
        "x-amz-server-side-encryption-customer-key-MD5"@,
        v.encryption_customer_key_md5,
    ) + (match v.encryption_algorithm {
        Some(a) => seq![("x-amz-server-side-encryption"@, spec_sse_str(a))],
        None => Seq::empty(),
    }) + opt_pair("x-amz-server-side-encryption-aws-kms-key-id"@, v.encryption_kms_key_id)
        + flag_pair(
        "x-amz-server-side-encryption-bucket-key-enabled"@,
        "true"@,
        v.encryption_bucket_key,
    ) + opt_pair("x-amz-server-side-encryption-context"@, v.encryption_context)
}

/// The access-control, checksum, grant and storage-class options.
pub open spec fn spec_xamz_access(v: XAmzBuilderV) -> Seq<(Seq<char>, Seq<char>)> {
    (match v.canned_acl {
        Some(a) => seq![("x-amz-acl"@, spec_acl_str(a))],
        None => Seq::empty(),
    }) + (match v.checksum {
        Some(c) => seq![spec_checksum_pair(c)],
        None => Seq::empty(),
    }) + v.grants.map_values(|g: XAmzGrants| spec_grant_pair(g)) + (match v.storage_class {
        Some(c) => seq![("x-amz-storage-class"@, spec_storage_class_str(c))],
        None => Seq::empty(),
    })
}

/// Tagging, redirect, write offset and the caller's extra headers.
pub open spec fn spec_xamz_rest(v: XAmzBuilderV) -> Seq<(Seq<char>, Seq<char>)> {
    (if v.tagging.len() == 0 {
        Seq::<(Seq<char>, Seq<char>)>::empty()
    } else {
        seq![("x-amz-tagging"@, spec_join_query(v.tagging))]
    }) + opt_pair("x-amz-website-redirect-location"@, v.website_redirect_location) + (
    match v.write_offset {
        Some(o) => seq![("x-amz-write-offset-bytes"@, spec_idec(o as int))],
        None => Seq::empty(),
    }) + v.headers
}

/// The finished header list of a builder state, option by option in a fixed
/// order, with the caller's extra headers at the end.  The object-lock
/// options are held by the builder but contribute no header here.
pub open spec fn spec_xamz_build(v: XAmzBuilderV) -> Seq<(Seq<char>, Seq<char>)> {
    spec_xamz_mode(v) + spec_xamz_encryption(v) + spec_xamz_access(v) + spec_xamz_rest(v)
}

impl XAmzHeadersBuilder {
    pub fn enable_checksum_mode(self) -> (r: Self)
        ensures
            r@ == (XAmzBuilderV { checksum_mode: true, ..self@ }),
    {
        Self { checksum_mode: true, ..self }
    }

    pub fn expected_bucket_owner(self, owner: &str) -> (r: Self)
        ensures
            r@ == (XAmzBuilderV { expected_bucket_owner: Some(owner@), ..self@ }),
    {
        Self { expected_bucket_owner: Some(owner.to_owned()), ..self }
    }

    pub fn enable_request_payer(self) -> (r: Self)
        ensures
            r@ == (XAmzBuilderV { request_payer: true, ..self@ }),
    {
        Self { request_payer: true, ..self }
    }

    pub fn encryption_customer_algorithm(self, algorithm: &str) -> (r: Self)
        ensures
            r@ == (XAmzBuilderV {
                encryption_customer_algorithm: Some(algorithm@),
                ..self@
            }),
    {
        Self { encryption_customer_algorithm: Some(algorithm.to_owned()), ..self }
    }

    pub fn encryption_customer_key(self, base64_encoded_key: &str) -> (r: Self)
        ensures
            r@ == (XAmzBuilderV {
                encryption_customer_key: Some(base64_encoded_key@),
                ..self@
            }),
    {
        Self { encryption_customer_key: Some(base64_encoded_key.to_owned()), ..self }
    }

    pub fn encryption_customer_key_md5(self, base64_encoded_key_md5: &str) -> (r: Self)
        ensures
            r@ == (XAmzBuilderV {
                encryption_customer_key_md5: Some(base64_encoded_key_md5@),
                ..self@
            }),
    {
        Self { encryption_customer_key_md5: Some(base64_encoded_key_md5.to_owned()), ..self }
    }

    pub fn encryption_algorithm(self, algorithm: XAmzServerSideEncryption) -> (r: Self)
        ensures
            r@ == (XAmzBuilderV { encryption_algorithm: Some(algorithm@), ..self@ }),
    {
        Self { encryption_algorithm: Some(algorithm), ..self }
    }

    pub fn encryption_kms_key_id(self, key_id: &str) -> (r: Self)
        ensures
            r@ == (XAmzBuilderV { encryption_kms_key_id: Some(key_id@), ..self@ }),
    {
        Self { encryption_kms_key_id: Some(key_id.to_owned()), ..self }
    }

    pub fn set_encryption_bucket_key(self) -> (r: Self)
        ensures
            r@ == (XAmzBuilderV { encryption_bucket_key: true, ..self@ }),
    {
        Self { encryption_bucket_key: true, ..self }
    }

    pub fn encryption_context(self, context: String) -> (r: Self)
        ensures
            r@ == (XAmzBuilderV { encryption_context: Some(context@), ..self@ }),
    {
        Self { encryption_context: Some(context), ..self }
    }

    pub fn set_object_lock_legal_hold(self) -> (r: Self)
        ensures
            r@ == (XAmzBuilderV { object_lock_legal_hold: true, ..self@ }),
    {
        Self { object_lock_legal_hold: true, ..self }
    }

    pub fn object_lock_mode(self, mode: XAmzObjectLockMode) -> (r: Self)
        ensures
            r@ == (XAmzBuilderV { object_lock_mode: Some(mode), ..self@ }),
    {
        Self { object_lock_mode: Some(mode), ..self }
    }

    pub fn object_lock_retain_until(self, date: Timestamp) -> (r: Self)
        ensures
            r@ == (XAmzBuilderV { object_lock_retain_until: Some(date), ..self@ }),
    {
        Self { object_lock_retain_until: Some(date), ..self }
    }

    pub fn canned_acl(self, acl: XAmzCannedAcl) -> (r: Self)
        ensures
            r@ == (XAmzBuilderV { canned_acl: Some(acl@), ..self@ }),
    {
        Self { canned_acl: Some(acl), ..self }
    }

    pub fn checksum(self, checksum: XAmzChecksum) -> (r: Self)
        ensures
            r@ == (XAmzBuilderV { checksum: Some(checksum@), ..self@ }),
    {
        Self { checksum: Some(checksum), ..self }
    }

    pub fn add_grant(self, grant: XAmzGrants) -> (r: Self)
        ensures
            r@ == (XAmzBuilderV { grants: self@.grants.push(grant), ..self@ }),
    {
        let mut grants = self.grants;
        grants.push(grant);
        Self { grants, ..self }
    }

    pub fn storage_class(self, class: XAmzStorageClass) -> (r: Self)
        ensures
            r@ == (XAmzBuilderV { storage_class: Some(class@), ..self@ }),
    {
        Self { storage_class: Some(class), ..self }
    }

    pub fn add_tag(self, key: &str, value: &str) -> (r: Self)
        ensures
            r@ == (XAmzBuilderV { tagging: self@.tagging.push((key@, value@)), ..self@ }),
    {
        let mut tags = self.tagging;
        tags.push((key.to_owned(), value.to_owned()));
        proof {
            assert(pair_views(tags@) =~= pair_views(self.tagging@).push((key@, value@)));
        }
        Self { tagging: tags, ..self }
    }

    pub fn website_redirect_location(self, location: String) -> (r: Self)
        ensures
            r@ == (XAmzBuilderV { website_redirect_location: Some(location@), ..self@ }),
    {
        Self { website_redirect_location: Some(location), ..self }
    }

    pub fn write_offset(self, bytes: i32) -> (r: Self)
        ensures
            r@ == (XAmzBuilderV { write_offset: Some(bytes), ..self@ }),
    {
        Self { write_offset: Some(bytes), ..self }
    }

    /// Add one header as given, with its name lower-cased; the value keeps
    /// its text with surrounding whitespace intact.
    pub fn add_header(self, key: &str, value: &str) -> (r: Self)
        ensures
            r@ == (XAmzBuilderV {
                headers: self@.headers.push((spec_lower(key@), value@)),
                ..self@
            }),
    {
        let mut headers = self.headers;
        headers.push((lower_str(key), value.to_owned()));
        proof {
            assert(pair_views(headers@) =~= pair_views(self.headers@).push(
                (spec_lower(key@), value@),
            ));
        }
        Self { headers, ..self }
    }

    /// Assemble the header set.
    pub fn build(&self) -> (r: XAmzHeaders)
        ensures
            r@ == spec_xamz_build(self@),
    {
        let mut headers: Vec<(String, String)> = Vec::new();
        proof {
            assert(pair_views(headers@) =~= Seq::<(Seq<char>, Seq<char>)>::empty());
        }
        self.build_mode(&mut headers);
        self.build_encryption(&mut headers);
        self.build_access(&mut headers);
        self.build_rest(&mut headers);
        proof {
            assert(Seq::<(Seq<char>, Seq<char>)>::empty() + spec_xamz_mode(self@)
                + spec_xamz_encryption(self@) + spec_xamz_access(self@) + spec_xamz_rest(self@)
                =~= spec_xamz_build(self@));
        }
        XAmzHeaders { headers }
    }

    fn build_mode(&self, headers: &mut Vec<(String, String)>)
        ensures
            pair_views(final(headers)@) == pair_views(old(headers)@) + spec_xamz_mode(self@),
    {
        let ghost base = pair_views(old(headers)@);
        let ghost v = self@;
        if self.checksum_mode {
            push_pair(headers, "x-amz-checksum-mode", new_string("ENABLED"));
        }
        let ghost mut exp = base + flag_pair("x-amz-checksum-mode"@, "ENABLED"@, v.checksum_mode);
        proof {
            if !v.checksum_mode {
                lemma_concat_empty(base);
            }
            assert(pair_views(headers@) == exp);
        }
        if let Some(owner) = &self.expected_bucket_owner {
            push_pair(headers, "x-amz-expected-bucket-owner", owner.clone());
        }
        proof {
            lemma_concat_empty(exp);
            exp = exp + opt_pair("x-amz-expected-bucket-owner"@, v.expected_bucket_owner);
            assert(pair_views(headers@) == exp);
        }
        if self.request_payer {
            push_pair(headers, "x-amz-request-payer", new_string("requester"));
        }
        proof {
            lemma_concat_empty(exp);
            exp = exp + flag_pair("x-amz-request-payer"@, "requester"@, v.request_payer);
            assert(pair_views(headers@) == exp);
            assert(exp =~= base + spec_xamz_mode(v));
        }
    }

    #[verifier::rlimit(100)]
    #[verifier::spinoff_prover]
    fn build_encryption(&self, headers: &mut Vec<(String, String)>)
        ensures
            pair_views(final(headers)@) == pair_views(old(headers)@) + spec_xamz_encryption(
                self@,
            ),
    {
        let ghost base = pair_views(old(headers)@);
        let ghost v = self@;
        if let Some(algorithm) = &self.encryption_customer_algorithm {
            push_pair(headers, "x-amz-server-side-encryption-customer-algorithm", algorithm.clone());
        }
        let ghost mut exp = base + opt_pair(
            "x-amz-server-side-encryption-customer-algorithm"@,
            v.encryption_customer_algorithm,
        );
        proof {
            if v.encryption_customer_algorithm is None {
                lemma_concat_empty(base);
            }
            assert(pair_views(headers@) == exp);
        }
        if let Some(key) = &self.encryption_customer_key {
            push_pair(headers, "x-amz-server-side-encryption-customer-key", key.clone());
        }
        proof {
            lemma_concat_empty(exp);
            exp = exp + opt_pair(
                "x-amz-server-side-encryption-customer-key"@,
                v.encryption_customer_key,
            );
            assert(pair_views(headers@) == exp);
        }
        if let Some(md5) = &self.encryption_customer_key_md5 {
            push_pair(headers, "x-amz-server-side-encryption-customer-key-MD5", md5.clone());
        }
        proof {
            lemma_concat_empty(exp);
            exp = exp + opt_pair(
                "x-amz-server-side-encryption-customer-key-MD5"@,
                v.encryption_customer_key_md5,
            );
            assert(pair_views(headers@) == exp);
        }
        if let Some(algorithm) = &self.encryption_algorithm {
            let a = match algorithm {
                XAmzServerSideEncryption::AES256 => new_string("AES256"),
                XAmzServerSideEncryption::KMS => new_string("aws:kms"),
                XAmzServerSideEncryption::KMSDSSE => new_string("aws:kms:dsse"),
                XAmzServerSideEncryption::Algorithm(algo) => algo.clone(),
            };
            push_pair(headers, "x-amz-server-side-encryption", a);
        }
        proof {
            lemma_concat_empty(exp);
            exp = exp + (match v.encryption_algorithm {
                Some(a) => seq![("x-amz-server-side-encryption"@, spec_sse_str(a))],
                None => Seq::empty(),
            });
            assert(pair_views(headers@) == exp);
        }
        if let Some(key) = &self.encryption_kms_key_id {
            push_pair(headers, "x-amz-server-side-encryption-aws-kms-key-id", key.clone());
        }
        proof {
            lemma_concat_empty(exp);
            exp = exp + opt_pair(
                "x-amz-server-side-encryption-aws-kms-key-id"@,
                v.encryption_kms_key_id,
            );
            assert(pair_views(headers@) == exp);
        }
        if self.encryption_bucket_key {
            push_pair(
                headers,
                "x-amz-server-side-encryption-bucket-key-enabled",
                new_string("true"),
            );
        }
        proof {
            lemma_concat_empty(exp);
            exp = exp + flag_pair(
                "x-amz-server-side-encryption-bucket-key-enabled"@,
                "true"@,
                v.encryption_bucket_key,
            );
            assert(pair_views(headers@) == exp);
        }
        if let Some(context) = &self.encryption_context {
            push_pair(headers, "x-amz-server-side-encryption-context", context.clone());
        }
        proof {
            lemma_concat_empty(exp);
            exp = exp + opt_pair("x-amz-server-side-encryption-context"@, v.encryption_context);
            assert(pair_views(headers@) == exp);
            assert(exp =~= base + spec_xamz_encryption(v));
        }
    }

    fn build_access(&self, headers: &mut Vec<(String, String)>)
        ensures
            pair_views(final(headers)@) == pair_views(old(headers)@) + spec_xamz_access(self@),
    {
        let ghost base = pair_views(old(headers)@);
        let ghost v = self@;
        if let Some(acl) = &self.canned_acl {
            let a = match acl {
                XAmzCannedAcl::Private => new_string("private"),
                XAmzCannedAcl::PublicRead => new_string("public-read"),
                XAmzCannedAcl::PublicReadWrite => new_string("public-read-write"),
                XAmzCannedAcl::AuthRead => new_string("authenticated-read"),
                XAmzCannedAcl::AWSExecRead => new_string("aws-exec-read"),
                XAmzCannedAcl::BucketOwnerRead => new_string("bucket-owner-read"),
                XAmzCannedAcl::BucketOwnerFullControl => new_string("bucket-owner-full-control"),
                XAmzCannedAcl::Acl(s) => s.clone(),
            };
            push_pair(headers, "x-amz-acl", a);
        }
        let ghost mut exp = base + (match v.canned_acl {
            Some(a) => seq![("x-amz-acl"@, spec_acl_str(a))],
            None => Seq::empty(),
        });
        proof {
            if v.canned_acl is None {
                lemma_concat_empty(base);
            }
            assert(pair_views(headers@) == exp);
        }
        if let Some(checksum) = &self.checksum {
            let p = match checksum {
                XAmzChecksum::CRC32(sum) => (new_string("x-amz-checksum-crc32"), sum.clone()),
                XAmzChecksum::CRC32C(sum) => (new_string("x-amz-checksum-crc32c"), sum.clone()),
                XAmzChecksum::CRC64NVME(sum) => (
                    new_string("x-amz-checksum-crc64nvme"),
                    sum.clone(),
                ),
                XAmzChecksum::SHA1(sum) => (new_string("x-amz-checksum-sha1"), sum.clone()),
                XAmzChecksum::Sha256(sum) => (new_string("x-amz-checksum-sha256"), sum.clone()),
                XAmzChecksum::Checksum(k, sum) => {
                    let mut name = new_string("x-amz-checksum-");
                    name.append(k.as_str());
                    (name, sum.clone())
                },
            };
            push_pair_owned(headers, p.0, p.1);
        }
        proof {
            lemma_concat_empty(exp);
            exp = exp + (match v.checksum {
                Some(c) => seq![spec_checksum_pair(c)],
                None => Seq::empty(),
            });
            assert(pair_views(headers@) == exp);
        }
        let ghost before_grants = pair_views(headers@);
        let gn = self.grants.len();
        for i in 0..gn
            invariant
                gn == self.grants@.len(),
                pair_views(headers@) == before_grants + self.grants@.take(i as int).map_values(
                    |g: XAmzGrants| spec_grant_pair(g),
                ),
        {
            let p = match self.grants[i] {
                XAmzGrants::FullControl => (new_string("x-amz-grant-full-control"), String::new()),
                XAmzGrants::Read => (new_string("x-amz-grant-read"), String::new()),
                XAmzGrants::ReadACP => (new_string("x-amz-grant-read-acp"), String::new()),
                XAmzGrants::WriteACP => (new_string("x-amz-grant-write-acp"), String::new()),
            };
            push_pair_owned(headers, p.0, p.1);
            proof {
                assert(pair_views(headers@) =~= before_grants + self.grants@.take(
                    i + 1,
                ).map_values(|g: XAmzGrants| spec_grant_pair(g)));
            }
        }
        proof {
            assert(self.grants@.take(gn as int) =~= self.grants@);
            exp = exp + v.grants.map_values(|g: XAmzGrants| spec_grant_pair(g));
            assert(pair_views(headers@) == exp);
        }
        if let Some(class) = &self.storage_class {
            let c = match class {
                XAmzStorageClass::Standard => new_string("STANDARD"),
                XAmzStorageClass::ReducedRedundancy => new_string("REDUCED_REDUNDANCY"),
                XAmzStorageClass::StandardIA => new_string("STANDARD_IA"),
                XAmzStorageClass::OnezoneIA => new_string("ONEZONE_IA"),
                XAmzStorageClass::IntelligentTiering => new_string("INTELLIGENT_TIERING"),
                XAmzStorageClass::Glacier => new_string("GLACIER"),
                XAmzStorageClass::DeepArchive => new_string("DEEP_ARCHIVE"),
                XAmzStorageClass::Outposts => new_string("OUTPOSTS"),
                XAmzStorageClass::GlacierIR => new_string("GLACIER_IR"),
                XAmzStorageClass::Snow => new_string("SNOW"),
                XAmzStorageClass::ExpressOneZone => new_string("EXPRESS_ONEZONE"),
                XAmzStorageClass::StorageClass(class_str) => class_str.clone(),
            };
            push_pair(headers, "x-amz-storage-class", c);
        }
        proof {
            lemma_concat_empty(exp);
            exp = exp + (match v.storage_class {
                Some(c) => seq![("x-amz-storage-class"@, spec_storage_class_str(c))],
                None => Seq::empty(),
            });
            assert(pair_views(headers@) == exp);
            assert(exp =~= base + spec_xamz_access(v));
        }
    }

    fn build_rest(&self, headers: &mut Vec<(String, String)>)
        ensures
            pair_views(final(headers)@) == pair_views(old(headers)@) + spec_xamz_rest(self@),
    {
        let ghost base = pair_views(old(headers)@);
        let ghost v = self@;
        if self.tagging.len() > 0 {
            let tagging = join_pairs(&self.tagging);
            push_pair(headers, "x-amz-tagging", tagging);
        }
        let ghost mut exp = base + (if v.tagging.len() == 0 {
            Seq::<(Seq<char>, Seq<char>)>::empty()
        } else {
            seq![("x-amz-tagging"@, spec_join_query(v.tagging))]
        });
        proof {
            if v.tagging.len() == 0 {
                lemma_concat_empty(base);
            }
            assert(pair_views(headers@) == exp);
        }
        if let Some(redirect) = &self.website_redirect_location {
            push_pair(headers, "x-amz-website-redirect-location", redirect.clone());
        }
        proof {
            lemma_concat_empty(exp);
            exp = exp + opt_pair("x-amz-website-redirect-location"@, v.website_redirect_location);
            assert(pair_views(headers@) == exp);
        }
        if let Some(offset) = self.write_offset {
            push_pair(headers, "x-amz-write-offset-bytes", i32_to_string(offset));
        }
        proof {
            lemma_concat_empty(exp);
            exp = exp + (match v.write_offset {
                Some(o) => seq![("x-amz-write-offset-bytes"@, spec_idec(o as int))],
                None => Seq::empty(),
            });
            assert(pair_views(headers@) == exp);
        }
        let ghost before_extra = pair_views(headers@);
        let hn = self.headers.len();
        for i in 0..hn
            invariant
                hn == self.headers@.len(),
                pair_views(headers@) == before_extra + pair_views(self.headers@).take(i as int),
        {
            push_pair_owned(headers, self.headers[i].0.clone(), self.headers[i].1.clone());
            proof {
                assert(pair_views(self.headers@).take(i + 1) =~= pair_views(
                    self.headers@,
                ).take(i as int).push(pair_view(self.headers@[i as int])));
                assert(pair_views(headers@) =~= before_extra + pair_views(self.headers@).take(
                    i + 1,
                ));
            }
        }
        proof {
            assert(pair_views(self.headers@).take(hn as int) =~= pair_views(self.headers@));
            exp = exp + v.headers;
            assert(pair_views(headers@) == exp);
            assert(exp =~= base + spec_xamz_rest(v));
        }
    }
}

/// Push one header pair.
pub(crate) fn push_pair(hs: &mut Vec<(String, String)>, name: &str, value: String)
    ensures
        pair_views(final(hs)@) == pair_views(old(hs)@) + seq![(name@, value@)],
{
    let ghost before = hs@;
    hs.push((name.to_owned(), value));
    proof {
        assert(pair_views(hs@) =~= pair_views(before) + seq![(name@, value@)]);
    }
}

/// Push one header pair with an owned name.
pub(crate) fn push_pair_owned(hs: &mut Vec<(String, String)>, name: String, value: String)
    ensures
        pair_views(final(hs)@) == pair_views(old(hs)@) + seq![(name@, value@)],
{
    let ghost before = hs@;
    let ghost nv = name@;
    let ghost vv = value@;
    hs.push((name, value));
    proof {
        assert(pair_views(hs@) =~= pair_views(before) + seq![(nv, vv)]);
    }
}

pub(crate) proof fn lemma_concat_empty<A>(s: Seq<A>)
    ensures
        s + Seq::<A>::empty() == s,
{
    assert(s + Seq::<A>::empty() =~= s);
}


impl Default for XAmzHeadersBuilder {
    /// A builder with nothing set.
    fn default() -> (r: Self)
        ensures
            r@ == (XAmzBuilderV {
                checksum_mode: false,
                expected_bucket_owner: None,
                request_payer: false,
                encryption_customer_algorithm: None,
                encryption_customer_key: None,
                encryption_customer_key_md5: None,
                encryption_algorithm: None,
                encryption_kms_key_id: None,
                encryption_bucket_key: false,
                encryption_context: None,
                object_lock_legal_hold: false,
                object_lock_mode: None,
                object_lock_retain_until: None,
                canned_acl: None,
                checksum: None,
                grants: Seq::empty(),
                storage_class: None,
                tagging: Seq::empty(),
                website_redirect_location: None,
                write_offset: None,
                headers: Seq::empty(),
            }),
    {
        let r = Self {
            checksum_mode: false,
            expected_bucket_owner: None,
            request_payer: false,
            encryption_customer_algorithm: None,
            encryption_customer_key: None,
            encryption_customer_key_md5: None,
            encryption_algorithm: None,
            encryption_kms_key_id: None,
            encryption_bucket_key: false,
            encryption_context: None,
            object_lock_legal_hold: false,
            object_lock_mode: None,
            object_lock_retain_until: None,
            canned_acl: None,
            checksum: None,
            grants: Vec::new(),
            storage_class: None,
            tagging: Vec::new(),
            website_redirect_location: None,
            write_offset: None,
            headers: Vec::new(),
        };
        proof {
            assert(pair_views(r.tagging@) =~= Seq::<(Seq<char>, Seq<char>)>::empty());
            assert(pair_views(r.headers@) =~= Seq::<(Seq<char>, Seq<char>)>::empty());
        }
        r
    }
}

/// A `String` from a literal.
fn new_string(s: &str) -> (r: String)
    ensures
        r@ == s@,
{
    s.to_owned()
}


/// The named storage classes come back from their own text: lower-casing
/// the canonical name selects the same variant.  Only the fallback variant,
/// which carries free text, is outside this.
pub proof fn lemma_storage_class_round_trip(c: XAmzStorageClassV)
    requires
        !(c is StorageClass),
    ensures
        spec_storage_class_of(spec_storage_class_str(c)) == c,
{
    broadcast use vstd::utf8::char_u32_cast;

    reveal_strlit("STANDARD");
    reveal_strlit("standard");
    reveal_strlit("REDUCED_REDUNDANCY");
    reveal_strlit("reduced_redundancy");
    reveal_strlit("STANDARD_IA");
    reveal_strlit("standard_ia");
    reveal_strlit("ONEZONE_IA");
    reveal_strlit("onezone_ia");
    reveal_strlit("INTELLIGENT_TIERING");
    reveal_strlit("intelligent_tiering");
    reveal_strlit("GLACIER");
    reveal_strlit("glacier");
    reveal_strlit("DEEP_ARCHIVE");
    reveal_strlit("deep_archive");
    reveal_strlit("OUTPOSTS");
    reveal_strlit("outposts");
    reveal_strlit("GLACIER_IR");
    reveal_strlit("glacier_ir");
    reveal_strlit("SNOW");
    reveal_strlit("snow");
    reveal_strlit("EXPRESS_ONEZONE");
    reveal_strlit("express_onezone");
    match c {
        XAmzStorageClassV::Standard => {
            assert(spec_lower("STANDARD"@) =~= "standard"@);
            assert(spec_storage_class_of(spec_storage_class_str(c)) == c);
        },
        XAmzStorageClassV::ReducedRedundancy => {
            assert(spec_lower("REDUCED_REDUNDANCY"@) =~= "reduced_redundancy"@);
            assert(spec_storage_class_of(spec_storage_class_str(c)) == c);
        },
        XAmzStorageClassV::StandardIA => {
            assert(spec_lower("STANDARD_IA"@) =~= "standard_ia"@);
            assert(spec_storage_class_of(spec_storage_class_str(c)) == c);
        },
        XAmzStorageClassV::OnezoneIA => {
            assert(spec_lower("ONEZONE_IA"@) =~= "onezone_ia"@);
            assert(spec_storage_class_of(spec_storage_class_str(c)) == c);
        },
        XAmzStorageClassV::IntelligentTiering => {
            assert(spec_lower("INTELLIGENT_TIERING"@) =~= "intelligent_tiering"@);
            assert(spec_storage_class_of(spec_storage_class_str(c)) == c);
        },
        XAmzStorageClassV::Glacier => {
            assert(spec_lower("GLACIER"@) =~= "glacier"@);
            assert(spec_storage_class_of(spec_storage_class_str(c)) == c);
        },
        XAmzStorageClassV::DeepArchive => {
            assert(spec_lower("DEEP_ARCHIVE"@) =~= "deep_archive"@);
            assert(spec_storage_class_of(spec_storage_class_str(c)) == c);
        },
        XAmzStorageClassV::Outposts => {
            assert(spec_lower("OUTPOSTS"@) =~= "outposts"@);
            assert(("outposts"@)[0] == 'o' && ("standard"@)[0] == 's');
            assert("outposts"@ != "standard"@);
            assert(spec_storage_class_of(spec_storage_class_str(c)) == c);
        },
        XAmzStorageClassV::GlacierIR => {
            assert(spec_lower("GLACIER_IR"@) =~= "glacier_ir"@);
            assert(("glacier_ir"@)[0] == 'g' && ("onezone_ia"@)[0] == 'o');
            assert("glacier_ir"@ != "onezone_ia"@);
            assert(spec_storage_class_of(spec_storage_class_str(c)) == c);
        },
        XAmzStorageClassV::Snow => {
            assert(spec_lower("SNOW"@) =~= "snow"@);
            assert(spec_storage_class_of(spec_storage_class_str(c)) == c);
        },
        XAmzStorageClassV::ExpressOneZone => {
            assert(spec_lower("EXPRESS_ONEZONE"@) =~= "express_onezone"@);
            assert(spec_storage_class_of(spec_storage_class_str(c)) == c);
        },
        XAmzStorageClassV::StorageClass(s) => {
            assert(false);
        },
    }
}

} // verus!
