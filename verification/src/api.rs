use vstd::prelude::*;

pub mod conditional_headers;
pub mod content_headers;
pub mod get_object;
pub mod head_object;
pub mod list_buckets;
pub mod list_objects_v2;
pub mod put_object;
pub mod x_amz_headers;

use crate::api::x_amz_headers::{
    opt_str_view, spec_storage_class_of, storage_class_from_str, XAmzStorageClass,
    XAmzStorageClassV,
};
use crate::canonical::{lower_str, spec_lower};
use crate::error::S3Error;
use crate::order::str_eq;
use crate::text::{parse_i32_str, parse_usize_str, spec_parse_i32, spec_parse_usize};
use crate::time::{parse_rfc3339, spec_parse_rfc3339, Timestamp};
use crate::xml_tokens::{Tok, XmlReader, XmlToken};

verus! {

// ----------------------------------------------------------------------------
// Checksum vocabularies
// ----------------------------------------------------------------------------

pub enum ChecksumAlgorithm {
    CRC32,
    CRC32C,
    SHA1,
    SHA256,
    CRC64NVME,
    Alogrithm(String),
}

pub enum ChecksumAlgorithmV {
    CRC32,
    CRC32C,
    SHA1,
    SHA256,
    CRC64NVME,
    Alogrithm(Seq<char>),
}

impl View for ChecksumAlgorithm {
    type V = ChecksumAlgorithmV;

    open spec fn view(&self) -> ChecksumAlgorithmV {
        match self {
            ChecksumAlgorithm::CRC32 => ChecksumAlgorithmV::CRC32,
            ChecksumAlgorithm::CRC32C => ChecksumAlgorithmV::CRC32C,
            ChecksumAlgorithm::SHA1 => ChecksumAlgorithmV::SHA1,
            ChecksumAlgorithm::SHA256 => ChecksumAlgorithmV::SHA256,
            ChecksumAlgorithm::CRC64NVME => ChecksumAlgorithmV::CRC64NVME,
            ChecksumAlgorithm::Alogrithm(s) => ChecksumAlgorithmV::Alogrithm(s@),
        }
    }
}

/// The checksum algorithm a response names, from its ASCII-lower-cased
/// text; unknown text is kept as it stands (lower-cased).
pub open spec fn spec_checksum_algorithm_of(s: Seq<char>) -> ChecksumAlgorithmV {
    let l = spec_lower(s);
    if l == "crc32"@ {
        ChecksumAlgorithmV::CRC32
    } else if l == "crc32c"@ {
        ChecksumAlgorithmV::CRC32C
    } else if l == "sha1"@ {
        ChecksumAlgorithmV::SHA1
    } else if l == "sha256"@ {
        ChecksumAlgorithmV::SHA256
    } else if l == "crc64nvme"@ {
        ChecksumAlgorithmV::CRC64NVME
    } else {
        ChecksumAlgorithmV::Alogrithm(l)
    }
}

pub fn checksum_algorithm_from_str(algo: String) -> (r: ChecksumAlgorithm)
    ensures
        r@ == spec_checksum_algorithm_of(algo@),
{
    let a = lower_str(algo.as_str());
    if str_eq(a.as_str(), "crc32") {
        ChecksumAlgorithm::CRC32
    } else if str_eq(a.as_str(), "crc32c") {
        ChecksumAlgorithm::CRC32C
    } else if str_eq(a.as_str(), "sha1") {
        ChecksumAlgorithm::SHA1
    } else if str_eq(a.as_str(), "sha256") {
        ChecksumAlgorithm::SHA256
    } else if str_eq(a.as_str(), "crc64nvme") {
        ChecksumAlgorithm::CRC64NVME
    } else {
        ChecksumAlgorithm::Alogrithm(a)
    }
}

#[derive(Clone, Copy, Debug, PartialEq, Eq, Structural)]
pub enum ApiChecksumType {
    Composite,
    FullObject,
}

// ----------------------------------------------------------------------------
// Response records
// ----------------------------------------------------------------------------

pub struct ApiOwner {
    pub display_name: Option<String>,
    pub id: String,
}

pub struct ApiOwnerV {
    pub display_name: Option<Seq<char>>,
    pub id: Seq<char>,
}

impl View for ApiOwner {
    type V = ApiOwnerV;

    open spec fn view(&self) -> ApiOwnerV {
        ApiOwnerV {
            display_name: match self.display_name {
                Some(ref s) => Some(s@),
                None => None,
            },
            id: self.id@,
        }
    }
}

pub struct ApiRestoreStatus {
    pub is_restore_in_progress: bool,
    pub restore_expiry_date: Timestamp,
}

pub struct ApiRestoreStatusV {
    pub is_restore_in_progress: bool,
    pub restore_expiry_date: Timestamp,
}

impl View for ApiRestoreStatus {
    type V = ApiRestoreStatusV;

    open spec fn view(&self) -> ApiRestoreStatusV {
        ApiRestoreStatusV {
            is_restore_in_progress: self.is_restore_in_progress,
            restore_expiry_date: self.restore_expiry_date,
        }
    }
}

pub struct ApiBucket {
    pub name: String,
    pub creation_date: Option<Timestamp>,
    pub region: String,
}

pub struct ApiBucketV {
    pub name: Seq<char>,
    pub creation_date: Option<Timestamp>,
    pub region: Seq<char>,
}

impl View for ApiBucket {
    type V = ApiBucketV;

    open spec fn view(&self) -> ApiBucketV {
        ApiBucketV {
            name: self.name@,
            creation_date: self.creation_date,
            region: self.region@,
        }
    }
}

pub struct ApiObject {
    pub checksum_algorithm: Option<ChecksumAlgorithm>,
    pub checksum_type: Option<ApiChecksumType>,
    pub etag: String,
    pub key: String,
    pub last_modified: Timestamp,
    pub owner: Option<ApiOwner>,
    pub restore_status: Option<ApiRestoreStatus>,
    pub size: usize,
    pub storage_class: XAmzStorageClass,
}

pub struct ApiObjectV {
    pub checksum_algorithm: Option<ChecksumAlgorithmV>,
    pub checksum_type: Option<ApiChecksumType>,
    pub etag: Seq<char>,
    pub key: Seq<char>,
    pub last_modified: Timestamp,
    pub owner: Option<ApiOwnerV>,
    pub restore_status: Option<ApiRestoreStatusV>,
    pub size: int,
    pub storage_class: XAmzStorageClassV,
}

impl View for ApiObject {
    type V = ApiObjectV;

    open spec fn view(&self) -> ApiObjectV {
        ApiObjectV {
            checksum_algorithm: match self.checksum_algorithm {
                Some(ref a) => Some(a@),
                None => None,
            },
            checksum_type: self.checksum_type,
            etag: self.etag@,
            key: self.key@,
            last_modified: self.last_modified,
            owner: match self.owner {
                Some(ref o) => Some(o@),
                None => None,
            },
            restore_status: match self.restore_status {
                Some(ref s) => Some(s@),
                None => None,
            },
            size: self.size as int,
            storage_class: self.storage_class@,
        }
    }
}

// ----------------------------------------------------------------------------
// Field-level decoding: a start tag's value is the very next event
// ----------------------------------------------------------------------------

/// The text right at position `i`, with the position after it.
pub open spec fn spec_parse_value(toks: Seq<Tok>, i: int) -> Option<(Seq<char>, int)> {
    if 0 <= i < toks.len() {
        match toks[i] {
            Tok::Text(t) => Some((t, i + 1)),
            _ => None,
        }
    } else {
        None
    }
}

/// A boolean literal, case-insensitively `true` or `false`.
pub open spec fn spec_parse_bool(toks: Seq<Tok>, i: int) -> Option<(bool, int)> {
    match spec_parse_value(toks, i) {
        Some((t, j)) => if spec_lower(t) == "true"@ {
            Some((true, j))
        } else if spec_lower(t) == "false"@ {
            Some((false, j))
        } else {
            None
        },
        None => None,
    }
}

/// An unsigned size literal.
pub open spec fn spec_parse_usize_tok(toks: Seq<Tok>, i: int) -> Option<(int, int)> {
    match spec_parse_value(toks, i) {
        Some((t, j)) => match spec_parse_usize(t) {
            Some(v) => Some((v, j)),
            None => None,
        },
        None => None,
    }
}

/// A signed counter literal.
pub open spec fn spec_parse_i32_tok(toks: Seq<Tok>, i: int) -> Option<(int, int)> {
    match spec_parse_value(toks, i) {
        Some((t, j)) => match spec_parse_i32(t) {
            Some(v) => Some((v, j)),
            None => None,
        },
        None => None,
    }
}

/// The value of a field: the event after its start tag must be text.
pub fn parse_xml_string(parser: &mut XmlReader, field: &str) -> (r: Result<String, S3Error>)
    requires
        old(parser).wf(),
    ensures
        final(parser).wf(),
        final(parser).toks() == old(parser).toks(),
        r matches Ok(s) ==> spec_parse_value(old(parser).toks(), old(parser).pos()) == Some(
            (s@, final(parser).pos()),
        ),
        r is Err ==> spec_parse_value(old(parser).toks(), old(parser).pos()) is None,
        r matches Err(e) ==> e == S3Error::DecodeError,
        old(parser).pos() <= final(parser).pos() <= old(parser).pos() + 1,
        old(parser).pos() < old(parser).toks().len() ==> final(parser).pos() == old(parser).pos()
            + 1,
{
    match parser.next() {
        Some(XmlToken::Text(s)) => Ok(s),
        Some(_) => Err(S3Error::DecodeError),
        None => Err(S3Error::DecodeError),
    }
}

/// A boolean field: its text must read `true` or `false` in any case.
pub fn parse_xml_bool(parser: &mut XmlReader, field: &str) -> (r: Result<bool, S3Error>)
    requires
        old(parser).wf(),
    ensures
        final(parser).wf(),
        final(parser).toks() == old(parser).toks(),
        r matches Ok(b) ==> spec_parse_bool(old(parser).toks(), old(parser).pos()) == Some(
            (b, final(parser).pos()),
        ),
        r is Err ==> spec_parse_bool(old(parser).toks(), old(parser).pos()) is None,
        r matches Err(e) ==> e == S3Error::DecodeError,
        old(parser).pos() <= final(parser).pos() <= old(parser).pos() + 1,
        old(parser).pos() < old(parser).toks().len() ==> final(parser).pos() == old(parser).pos()
            + 1,
{
    let s = parse_xml_string(parser, field)?;
    let l = lower_str(s.as_str());
    if str_eq(l.as_str(), "true") {
        Ok(true)
    } else if str_eq(l.as_str(), "false") {
        Ok(false)
    } else {
        Err(S3Error::DecodeError)
    }
}

/// An unsigned numeric field.
pub fn parse_xml_usize(parser: &mut XmlReader, field: &str) -> (r: Result<usize, S3Error>)
    requires
        old(parser).wf(),
    ensures
        final(parser).wf(),
        final(parser).toks() == old(parser).toks(),
        r matches Ok(v) ==> spec_parse_usize_tok(old(parser).toks(), old(parser).pos()) == Some(
            (v as int, final(parser).pos()),
        ),
        r is Err ==> spec_parse_usize_tok(old(parser).toks(), old(parser).pos()) is None,
        r matches Err(e) ==> e == S3Error::DecodeError,
        old(parser).pos() <= final(parser).pos() <= old(parser).pos() + 1,
        old(parser).pos() < old(parser).toks().len() ==> final(parser).pos() == old(parser).pos()
            + 1,
{
    let s = parse_xml_string(parser, field)?;
    parse_usize_str(s.as_str())
}

/// A signed numeric field.
pub fn parse_xml_i32(parser: &mut XmlReader, field: &str) -> (r: Result<i32, S3Error>)
    requires
        old(parser).wf(),
    ensures
        final(parser).wf(),
        final(parser).toks() == old(parser).toks(),
        r matches Ok(v) ==> spec_parse_i32_tok(old(parser).toks(), old(parser).pos()) == Some(
            (v as int, final(parser).pos()),
        ),
        r is Err ==> spec_parse_i32_tok(old(parser).toks(), old(parser).pos()) is None,
        r matches Err(e) ==> e == S3Error::DecodeError,
        old(parser).pos() <= final(parser).pos() <= old(parser).pos() + 1,
        old(parser).pos() < old(parser).toks().len() ==> final(parser).pos() == old(parser).pos()
            + 1,
{
    let s = parse_xml_string(parser, field)?;
    parse_i32_str(s.as_str())
}

// ----------------------------------------------------------------------------
// Owner
// ----------------------------------------------------------------------------

/// The decode loop of an Owner element, from right after its start tag: any
/// start tag must be followed by text, which lands in the display name or
/// the id; the loop closes at the matching end tag, where the id must have
/// been seen.
pub open spec fn spec_owner_loop(
    toks: Seq<Tok>,
    i: int,
    disp: Option<Seq<char>>,
    id: Option<Seq<char>>,
) -> Option<(ApiOwnerV, int)>
    decreases toks.len() - i,
{
    if i < 0 || i >= toks.len() {
        None
    } else {
        match toks[i] {
            Tok::Start(name) => {
                if i + 1 < toks.len() {
                    match toks[i + 1] {
                        Tok::Text(t) => {
                            if name == "DisplayName"@ {
                                spec_owner_loop(toks, i + 2, Some(t), id)
                            } else if name == "ID"@ {
                                spec_owner_loop(toks, i + 2, disp, Some(t))
                            } else {
                                spec_owner_loop(toks, i + 2, disp, id)
                            }
                        },
                        _ => None,
                    }
                } else {
                    None
                }
            },
            Tok::End(name) => {
                if name == "Owner"@ {
                    match id {
                        Some(idv) => Some((ApiOwnerV { display_name: disp, id: idv }, i + 1)),
                        None => None,
                    }
                } else {
                    spec_owner_loop(toks, i + 1, disp, id)
                }
            },
            _ => spec_owner_loop(toks, i + 1, disp, id),
        }
    }
}

/// A successful owner decode always moves forward and stays within the
/// token list.
pub proof fn lemma_owner_loop_advances(
    toks: Seq<Tok>,
    i: int,
    disp: Option<Seq<char>>,
    id: Option<Seq<char>>,
)
    ensures
        spec_owner_loop(toks, i, disp, id) matches Some((o, j)) ==> i < j <= toks.len(),
    decreases toks.len() - i,
{
    if 0 <= i < toks.len() {
        match toks[i] {
            Tok::Start(name) => {
                if i + 1 < toks.len() {
                    match toks[i + 1] {
                        Tok::Text(t) => {
                            lemma_owner_loop_advances(toks, i + 2, Some(t), id);
                            lemma_owner_loop_advances(toks, i + 2, disp, Some(t));
                            lemma_owner_loop_advances(toks, i + 2, disp, id);
                        },
                        _ => {},
                    }
                }
            },
            Tok::End(name) => {
                lemma_owner_loop_advances(toks, i + 1, disp, id);
            },
            _ => {
                lemma_owner_loop_advances(toks, i + 1, disp, id);
            },
        }
    }
}

impl ApiOwner {
    /// Decode one Owner element, from right after its start tag.
    #[verifier::rlimit(60)]
    #[verifier::spinoff_prover]
    pub fn parse(parser: &mut XmlReader) -> (r: Result<ApiOwner, S3Error>)
        requires
            old(parser).wf(),
        ensures
            final(parser).wf(),
            final(parser).toks() == old(parser).toks(),
            r matches Ok(o) ==> spec_owner_loop(old(parser).toks(), old(parser).pos(), None, None)
                == Some((o@, final(parser).pos())),
            r is Err ==> spec_owner_loop(old(parser).toks(), old(parser).pos(), None, None)
                is None,
            r matches Err(e) ==> e == S3Error::DecodeError,
            old(parser).pos() <= final(parser).pos(),
    {
        let ghost toks = old(parser).toks();
        let ghost p0 = old(parser).pos();
        let mut display_name: Option<String> = None;
        let mut id: Option<String> = None;
        loop
            invariant
                toks == old(parser).toks(),
                p0 == old(parser).pos(),
                parser.wf(),
                parser.toks() == toks,
                p0 <= parser.pos(),
                spec_owner_loop(toks, p0, None, None) == spec_owner_loop(
                    toks,
                    parser.pos(),
                    opt_str_view(display_name),
                    opt_str_view(id),
                ),
            decreases toks.len() - parser.pos(),
        {
            let ghost i = parser.pos();
            match parser.next() {
                None => {
                    return Err(S3Error::DecodeError);
                },
                Some(XmlToken::Start(name)) => {
                    let ghost j = parser.pos();
                    match parser.next() {
                        Some(XmlToken::Text(t)) => {
                            if str_eq(name.as_str(), "DisplayName") {
                                display_name = Some(t);
                            } else if str_eq(name.as_str(), "ID") {
                                id = Some(t);
                            }
                        },
                        _ => {
                            return Err(S3Error::DecodeError);
                        },
                    }
                },
                Some(XmlToken::End(name)) => {
                    if str_eq(name.as_str(), "Owner") {
                        match id {
                            Some(idv) => {
                                let o = ApiOwner { display_name, id: idv };
                                return Ok(o);
                            },
                            None => {
                                return Err(S3Error::DecodeError);
                            },
                        }
                    }
                },
                Some(_) => {},
            }
        }
    }
}

// ----------------------------------------------------------------------------
// Restore status
// ----------------------------------------------------------------------------

/// The decode loop of a RestoreStatus element, from right after its start
/// tag.  Both fields are required by the time the matching end tag closes
/// the element; unknown start tags are skipped.
pub open spec fn spec_restore_loop(
    toks: Seq<Tok>,
    i: int,
    prog: Option<bool>,
    expiry: Option<Timestamp>,
) -> Option<(ApiRestoreStatusV, int)>
    decreases toks.len() - i,
{
    if i < 0 || i >= toks.len() {
        None
    } else {
        match toks[i] {
            Tok::Start(name) => {
                if name == "IsRestoreInProgress"@ {
                    if i + 1 < toks.len() {
                        match spec_parse_bool(toks, i + 1) {
                            Some((b, j)) => spec_restore_loop(toks, i + 2, Some(b), expiry),
                            None => None,
                        }
                    } else {
                        None
                    }
                } else if name == "RestoreExpiryDate"@ {
                    if i + 1 < toks.len() {
                        match spec_parse_value(toks, i + 1) {
                            Some((t, j)) => match spec_parse_rfc3339(t) {
                                Some(ts) => spec_restore_loop(toks, i + 2, prog, Some(ts)),
                                None => None,
                            },
                            None => None,
                        }
                    } else {
                        None
                    }
                } else {
                    spec_restore_loop(toks, i + 1, prog, expiry)
                }
            },
            Tok::End(name) => {
                if name == "RestoreStatus"@ {
                    match (prog, expiry) {
                        (Some(p), Some(e)) => Some(
                            (
                                ApiRestoreStatusV {
                                    is_restore_in_progress: p,
                                    restore_expiry_date: e,
                                },
                                i + 1,
                            ),
                        ),
                        _ => None,
                    }
                } else {
                    spec_restore_loop(toks, i + 1, prog, expiry)
                }
            },
            _ => spec_restore_loop(toks, i + 1, prog, expiry),
        }
    }
}

/// A successful restore-status decode always moves forward and stays within
/// the token list.
pub proof fn lemma_restore_loop_advances(
    toks: Seq<Tok>,
    i: int,
    prog: Option<bool>,
    expiry: Option<Timestamp>,
)
    ensures
        spec_restore_loop(toks, i, prog, expiry) matches Some((o, j)) ==> i < j <= toks.len(),
    decreases toks.len() - i,
{
    if 0 <= i < toks.len() {
        match toks[i] {
            Tok::Start(name) => {
                if i + 1 < toks.len() {
                    match toks[i + 1] {
                        Tok::Text(t) => {
                            lemma_restore_loop_advances(toks, i + 2, Some(true), expiry);
                            lemma_restore_loop_advances(toks, i + 2, Some(false), expiry);
                            match spec_parse_rfc3339(t) {
                                Some(ts) => {
                                    lemma_restore_loop_advances(toks, i + 2, prog, Some(ts));
                                },
                                None => {},
                            }
                        },
                        _ => {},
                    }
                }
                lemma_restore_loop_advances(toks, i + 1, prog, expiry);
            },
            Tok::End(name) => {
                lemma_restore_loop_advances(toks, i + 1, prog, expiry);
            },
            _ => {
                lemma_restore_loop_advances(toks, i + 1, prog, expiry);
            },
        }
    }
}

impl ApiRestoreStatus {
    /// Decode one RestoreStatus element, from right after its start tag.
    #[verifier::rlimit(60)]
    #[verifier::spinoff_prover]
    pub fn parse(parser: &mut XmlReader) -> (r: Result<ApiRestoreStatus, S3Error>)
        requires
            old(parser).wf(),
        ensures
            final(parser).wf(),
            final(parser).toks() == old(parser).toks(),
            r matches Ok(o) ==> spec_restore_loop(old(parser).toks(), old(parser).pos(), None, None)
                == Some((o@, final(parser).pos())),
            r is Err ==> spec_restore_loop(old(parser).toks(), old(parser).pos(), None, None)
                is None,
            r matches Err(e) ==> e == S3Error::DecodeError,
            old(parser).pos() <= final(parser).pos(),
    {
        let ghost toks = old(parser).toks();
        let ghost p0 = old(parser).pos();
        let mut prog: Option<bool> = None;
        let mut expiry: Option<Timestamp> = None;
        loop
            invariant
                toks == old(parser).toks(),
                p0 == old(parser).pos(),
                parser.wf(),
                parser.toks() == toks,
                p0 <= parser.pos(),
                spec_restore_loop(toks, p0, None, None) == spec_restore_loop(
                    toks,
                    parser.pos(),
                    prog,
                    expiry,
                ),
            decreases toks.len() - parser.pos(),
        {
            let ghost i = parser.pos();
            match parser.next() {
                None => {
                    return Err(S3Error::DecodeError);
                },
                Some(XmlToken::Start(name)) => {
                    if str_eq(name.as_str(), "IsRestoreInProgress") {
                        let b = parse_xml_bool(parser, "IsRestoreInProgress")?;
                        prog = Some(b);
                    } else if str_eq(name.as_str(), "RestoreExpiryDate") {
                        let t = parse_xml_string(parser, "RestoreExpiryDate")?;
                        let ts = parse_rfc3339(t.as_str())?;
                        expiry = Some(ts);
                    }
                },
                Some(XmlToken::End(name)) => {
                    if str_eq(name.as_str(), "RestoreStatus") {
                        match (prog, expiry) {
                            (Some(p), Some(e)) => {
                                return Ok(
                                    ApiRestoreStatus {
                                        is_restore_in_progress: p,
                                        restore_expiry_date: e,
                                    },
                                );
                            },
                            _ => {
                                return Err(S3Error::DecodeError);
                            },
                        }
                    }
                },
                Some(_) => {},
            }
        }
    }
}

// ----------------------------------------------------------------------------
// Bucket
// ----------------------------------------------------------------------------

/// The decode loop of a Bucket element, from right after its start tag.
/// The name and region are required by the time the matching end tag closes
/// the element; the creation date stays unset when absent.
pub open spec fn spec_bucket_loop(
    toks: Seq<Tok>,
    i: int,
    name: Option<Seq<char>>,
    creation: Option<Timestamp>,
    region: Option<Seq<char>>,
) -> Option<(ApiBucketV, int)>
    decreases toks.len() - i,
{
    if i < 0 || i >= toks.len() {
        None
    } else {
        match toks[i] {
            Tok::Start(n) => {
                if n == "BucketRegion"@ {
                    if i + 1 < toks.len() {
                        match spec_parse_value(toks, i + 1) {
                            Some((t, j)) => spec_bucket_loop(toks, i + 2, name, creation, Some(t)),
                            None => None,
                        }
                    } else {
                        None
                    }
                } else if n == "CreationDate"@ {
                    if i + 1 < toks.len() {
                        match spec_parse_value(toks, i + 1) {
                            Some((t, j)) => match spec_parse_rfc3339(t) {
                                Some(ts) => spec_bucket_loop(toks, i + 2, name, Some(ts), region),
                                None => None,
                            },
                            None => None,
                        }
                    } else {
                        None
                    }
                } else if n == "Name"@ {
                    if i + 1 < toks.len() {
                        match spec_parse_value(toks, i + 1) {
                            Some((t, j)) => spec_bucket_loop(toks, i + 2, Some(t), creation, region),
                            None => None,
                        }
                    } else {
                        None
                    }
                } else {
                    spec_bucket_loop(toks, i + 1, name, creation, region)
                }
            },
            Tok::End(n) => {
                if n == "Bucket"@ {
                    match (name, region) {
                        (Some(nm), Some(rg)) => Some(
                            (ApiBucketV { name: nm, creation_date: creation, region: rg }, i + 1),
                        ),
                        _ => None,
                    }
                } else {
                    spec_bucket_loop(toks, i + 1, name, creation, region)
                }
            },
            _ => spec_bucket_loop(toks, i + 1, name, creation, region),
        }
    }
}

/// A successful bucket decode always moves forward and stays within the
/// token list.
pub proof fn lemma_bucket_loop_advances(
    toks: Seq<Tok>,
    i: int,
    name: Option<Seq<char>>,
    creation: Option<Timestamp>,
    region: Option<Seq<char>>,
)
    ensures
        spec_bucket_loop(toks, i, name, creation, region) matches Some((b, j)) ==> i < j
            <= toks.len(),
    decreases toks.len() - i,
{
    if 0 <= i < toks.len() {
        match toks[i] {
            Tok::Start(n) => {
                if i + 1 < toks.len() {
                    match toks[i + 1] {
                        Tok::Text(t) => {
                            lemma_bucket_loop_advances(toks, i + 2, name, creation, Some(t));
                            lemma_bucket_loop_advances(toks, i + 2, Some(t), creation, region);
                            match spec_parse_rfc3339(t) {
                                Some(ts) => {
                                    lemma_bucket_loop_advances(toks, i + 2, name, Some(ts), region);
                                },
                                None => {},
                            }
                        },
                        _ => {},
                    }
                }
                lemma_bucket_loop_advances(toks, i + 1, name, creation, region);
            },
            Tok::End(n) => {
                lemma_bucket_loop_advances(toks, i + 1, name, creation, region);
            },
            _ => {
                lemma_bucket_loop_advances(toks, i + 1, name, creation, region);
            },
        }
    }
}

impl ApiBucket {
    /// Decode one Bucket element, from right after its start tag.
    #[verifier::rlimit(60)]
    #[verifier::spinoff_prover]
    pub fn parse(parser: &mut XmlReader) -> (r: Result<ApiBucket, S3Error>)
        requires
            old(parser).wf(),
        ensures
            final(parser).wf(),
            final(parser).toks() == old(parser).toks(),
            r matches Ok(b) ==> spec_bucket_loop(
                old(parser).toks(),
                old(parser).pos(),
                None,
                None,
                None,
            ) == Some((b@, final(parser).pos())),
            r is Err ==> spec_bucket_loop(old(parser).toks(), old(parser).pos(), None, None, None)
                is None,
            r matches Err(e) ==> e == S3Error::DecodeError,
            old(parser).pos() <= final(parser).pos(),
    {
        let ghost toks = old(parser).toks();
        let ghost p0 = old(parser).pos();
        let mut name: Option<String> = None;
        let mut creation: Option<Timestamp> = None;
        let mut region: Option<String> = None;
        loop
            invariant
                toks == old(parser).toks(),
                p0 == old(parser).pos(),
                parser.wf(),
                parser.toks() == toks,
                p0 <= parser.pos(),
                spec_bucket_loop(toks, p0, None, None, None) == spec_bucket_loop(
                    toks,
                    parser.pos(),
                    opt_str_view(name),
                    creation,
                    opt_str_view(region),
                ),
            decreases toks.len() - parser.pos(),
        {
            match parser.next() {
                None => {
                    return Err(S3Error::DecodeError);
                },
                Some(XmlToken::Start(n)) => {
                    if str_eq(n.as_str(), "BucketRegion") {
                        let t = parse_xml_string(parser, "BucketRegion")?;
                        region = Some(t);
                    } else if str_eq(n.as_str(), "CreationDate") {
                        let t = parse_xml_string(parser, "CreationDate")?;
                        let ts = parse_rfc3339(t.as_str())?;
                        creation = Some(ts);
                    } else if str_eq(n.as_str(), "Name") {
                        let t = parse_xml_string(parser, "")?;
                        name = Some(t);
                    }
                },
                Some(XmlToken::End(n)) => {
                    if str_eq(n.as_str(), "Bucket") {
                        match (name, region) {
                            (Some(nm), Some(rg)) => {
                                return Ok(
                                    ApiBucket { name: nm, creation_date: creation, region: rg },
                                );
                            },
                            _ => {
                                return Err(S3Error::DecodeError);
                            },
                        }
                    }
                },
                Some(_) => {},
            }
        }
    }
}

// ----------------------------------------------------------------------------
// Object (one Contents entry)
// ----------------------------------------------------------------------------

/// Partial state of an object decode: what has been seen so far.
pub struct ApiObjAcc {
    pub checksum_algorithm: Option<ChecksumAlgorithmV>,
    pub checksum_type: Option<ApiChecksumType>,
    pub etag: Option<Seq<char>>,
    pub key: Option<Seq<char>>,
    pub last_modified: Option<Timestamp>,
    pub owner: Option<ApiOwnerV>,
    pub restore_status: Option<ApiRestoreStatusV>,
    pub size: Option<int>,
    pub storage_class: Option<XAmzStorageClassV>,
}

pub open spec fn empty_obj_acc() -> ApiObjAcc {
    ApiObjAcc {
        checksum_algorithm: None,
        checksum_type: None,
        etag: None,
        key: None,
        last_modified: None,
        owner: None,
        restore_status: None,
        size: None,
        storage_class: None,
    }
}

/// The decode loop of one Contents entry, from right after its start tag.
/// Key, etag, size, storage class and modification time are required by the
/// matching end tag; checksum fields, owner and restore status stay unset
/// when absent; unknown start tags are skipped.
pub open spec fn spec_object_loop(toks: Seq<Tok>, i: int, acc: ApiObjAcc) -> Option<
    (ApiObjectV, int),
>
    decreases toks.len() - i,
    via spec_object_loop_dec
{
    if i < 0 || i >= toks.len() {
        None
    } else {
        match toks[i] {
            Tok::Start(n) => {
                if n == "ChecksumAlgorithm"@ {
                    if i + 1 < toks.len() {
                        match spec_parse_value(toks, i + 1) {
                            Some((t, j)) => spec_object_loop(
                                toks,
                                i + 2,
                                ApiObjAcc {
                                    checksum_algorithm: Some(spec_checksum_algorithm_of(t)),
                                    ..acc
                                },
                            ),
                            None => None,
                        }
                    } else {
                        None
                    }
                } else if n == "ChecksumType"@ {
                    if i + 1 < toks.len() {
                        match spec_parse_value(toks, i + 1) {
                            Some((t, j)) => {
                                if t == "COMPOSITE"@ {
                                    spec_object_loop(
                                        toks,
                                        i + 2,
                                        ApiObjAcc {
                                            checksum_type: Some(ApiChecksumType::Composite),
                                            ..acc
                                        },
                                    )
                                } else if t == "FULL_OBJECT"@ {
                                    spec_object_loop(
                                        toks,
                                        i + 2,
                                        ApiObjAcc {
                                            checksum_type: Some(ApiChecksumType::FullObject),
                                            ..acc
                                        },
                                    )
                                } else {
                                    None
                                }
                            },
                            None => None,
                        }
                    } else {
                        None
                    }
                } else if n == "ETag"@ {
                    if i + 1 < toks.len() {
                        match spec_parse_value(toks, i + 1) {
                            Some((t, j)) => spec_object_loop(
                                toks,
                                i + 2,
                                ApiObjAcc { etag: Some(t), ..acc },
                            ),
                            None => None,
                        }
                    } else {
                        None
                    }
                } else if n == "Key"@ {
                    if i + 1 < toks.len() {
                        match spec_parse_value(toks, i + 1) {
                            Some((t, j)) => spec_object_loop(
                                toks,
                                i + 2,
                                ApiObjAcc { key: Some(t), ..acc },
                            ),
                            None => None,
                        }
                    } else {
                        None
                    }
                } else if n == "LastModified"@ {
                    if i + 1 < toks.len() {
                        match spec_parse_value(toks, i + 1) {
                            Some((t, j)) => match spec_parse_rfc3339(t) {
                                Some(ts) => spec_object_loop(
                                    toks,
                                    i + 2,
                                    ApiObjAcc { last_modified: Some(ts), ..acc },
                                ),
                                None => None,
                            },
                            None => None,
                        }
                    } else {
                        None
                    }
                } else if n == "Size"@ {
                    if i + 1 < toks.len() {
                        match spec_parse_usize_tok(toks, i + 1) {
                            Some((v, j)) => spec_object_loop(
                                toks,
                                i + 2,
                                ApiObjAcc { size: Some(v), ..acc },
                            ),
                            None => None,
                        }
                    } else {
                        None
                    }
                } else if n == "StorageClass"@ {
                    if i + 1 < toks.len() {
                        match spec_parse_value(toks, i + 1) {
                            Some((t, j)) => spec_object_loop(
                                toks,
                                i + 2,
                                ApiObjAcc { storage_class: Some(spec_storage_class_of(t)), ..acc },
                            ),
                            None => None,
                        }
                    } else {
                        None
                    }
                } else if n == "Owner"@ {
                    match spec_owner_loop(toks, i + 1, None, None) {
                        Some((o, j)) => spec_object_loop(
                            toks,
                            j,
                            ApiObjAcc { owner: Some(o), ..acc },
                        ),
                        None => None,
                    }
                } else if n == "RestoreStatus"@ {
                    match spec_restore_loop(toks, i + 1, None, None) {
                        Some((s, j)) => spec_object_loop(
                            toks,
                            j,
                            ApiObjAcc { restore_status: Some(s), ..acc },
                        ),
                        None => None,
                    }
                } else {
                    spec_object_loop(toks, i + 1, acc)
                }
            },
            Tok::End(n) => {
                if n == "Contents"@ {
                    match (acc.etag, acc.key, acc.last_modified, acc.size, acc.storage_class) {
                        (Some(et), Some(k), Some(lm), Some(sz), Some(sc)) => Some(
                            (
                                ApiObjectV {
                                    checksum_algorithm: acc.checksum_algorithm,
                                    checksum_type: acc.checksum_type,
                                    etag: et,
                                    key: k,
                                    last_modified: lm,
                                    owner: acc.owner,
                                    restore_status: acc.restore_status,
                                    size: sz,
                                    storage_class: sc,
                                },
                                i + 1,
                            ),
                        ),
                        _ => None,
                    }
                } else {
                    spec_object_loop(toks, i + 1, acc)
                }
            },
            _ => spec_object_loop(toks, i + 1, acc),
        }
    }
}

#[via_fn]
proof fn spec_object_loop_dec(toks: Seq<Tok>, i: int, acc: ApiObjAcc) {
    if 0 <= i < toks.len() {
        lemma_owner_loop_advances(toks, i + 1, None, None);
        lemma_restore_loop_advances(toks, i + 1, None, None);
    }
}

/// A successful object decode always moves forward and stays within the
/// token list.
pub proof fn lemma_object_loop_advances(toks: Seq<Tok>, i: int, acc: ApiObjAcc)
    ensures
        spec_object_loop(toks, i, acc) matches Some((o, j)) ==> i < j <= toks.len(),
    decreases toks.len() - i,
{
    if 0 <= i < toks.len() {
        lemma_owner_loop_advances(toks, i + 1, None, None);
        lemma_restore_loop_advances(toks, i + 1, None, None);
        match toks[i] {
            Tok::Start(n) => {
                if i + 1 < toks.len() {
                    match toks[i + 1] {
                        Tok::Text(t) => {
                            lemma_object_loop_advances(
                                toks,
                                i + 2,
                                ApiObjAcc {
                                    checksum_algorithm: Some(spec_checksum_algorithm_of(t)),
                                    ..acc
                                },
                            );
                            lemma_object_loop_advances(
                                toks,
                                i + 2,
                                ApiObjAcc { checksum_type: Some(ApiChecksumType::Composite), ..acc },
                            );
                            lemma_object_loop_advances(
                                toks,
                                i + 2,
                                ApiObjAcc {
                                    checksum_type: Some(ApiChecksumType::FullObject),
                                    ..acc
                                },
                            );
                            lemma_object_loop_advances(toks, i + 2, ApiObjAcc { etag: Some(t), ..acc });
                            lemma_object_loop_advances(toks, i + 2, ApiObjAcc { key: Some(t), ..acc });
                            match spec_parse_rfc3339(t) {
                                Some(ts) => {
                                    lemma_object_loop_advances(
                                        toks,
                                        i + 2,
                                        ApiObjAcc { last_modified: Some(ts), ..acc },
                                    );
                                },
                                None => {},
                            }
                            match spec_parse_usize(t) {
                                Some(v) => {
                                    lemma_object_loop_advances(
                                        toks,
                                        i + 2,
                                        ApiObjAcc { size: Some(v), ..acc },
                                    );
                                },
                                None => {},
                            }
                            lemma_object_loop_advances(
                                toks,
                                i + 2,
                                ApiObjAcc { storage_class: Some(spec_storage_class_of(t)), ..acc },
                            );
                        },
                        _ => {},
                    }
                }
                match spec_owner_loop(toks, i + 1, None, None) {
                    Some((o, j)) => {
                        lemma_object_loop_advances(toks, j, ApiObjAcc { owner: Some(o), ..acc });
                    },
                    None => {},
                }
                match spec_restore_loop(toks, i + 1, None, None) {
                    Some((s, j)) => {
                        lemma_object_loop_advances(
                            toks,
                            j,
                            ApiObjAcc { restore_status: Some(s), ..acc },
                        );
                    },
                    None => {},
                }
                lemma_object_loop_advances(toks, i + 1, acc);
            },
            Tok::End(n) => {
                lemma_object_loop_advances(toks, i + 1, acc);
            },
            _ => {
                lemma_object_loop_advances(toks, i + 1, acc);
            },
        }
    }
}

impl ApiObject {
    /// Decode one Contents entry, from right after its start tag.
    #[verifier::rlimit(100)]
    #[verifier::spinoff_prover]
    pub fn parse(parser: &mut XmlReader) -> (r: Result<ApiObject, S3Error>)
        requires
            old(parser).wf(),
        ensures
            final(parser).wf(),
            final(parser).toks() == old(parser).toks(),
            r matches Ok(o) ==> spec_object_loop(
                old(parser).toks(),
                old(parser).pos(),
                empty_obj_acc(),
            ) == Some((o@, final(parser).pos())),
            r is Err ==> spec_object_loop(old(parser).toks(), old(parser).pos(), empty_obj_acc())
                is None,
            r matches Err(e) ==> e == S3Error::DecodeError,
            old(parser).pos() <= final(parser).pos(),
    {
        let ghost toks = old(parser).toks();
        let ghost p0 = old(parser).pos();
        let mut checksum_algorithm: Option<ChecksumAlgorithm> = None;
        let mut checksum_type: Option<ApiChecksumType> = None;
        let mut etag: Option<String> = None;
        let mut key: Option<String> = None;
        let mut last_modified: Option<Timestamp> = None;
        let mut owner: Option<ApiOwner> = None;
        let mut restore_status: Option<ApiRestoreStatus> = None;
        let mut size: Option<usize> = None;
        let mut storage_class: Option<XAmzStorageClass> = None;
        loop
            invariant
                toks == old(parser).toks(),
                p0 == old(parser).pos(),
                parser.wf(),
                parser.toks() == toks,
                p0 <= parser.pos(),
                spec_object_loop(toks, p0, empty_obj_acc()) == spec_object_loop(
                    toks,
                    parser.pos(),
                    ApiObjAcc {
                        checksum_algorithm: match checksum_algorithm {
                            Some(ref a) => Some(a@),
                            None => None,
                        },
                        checksum_type: checksum_type,
                        etag: opt_str_view(etag),
                        key: opt_str_view(key),
                        last_modified: last_modified,
                        owner: match owner {
                            Some(ref o) => Some(o@),
                            None => None,
                        },
                        restore_status: match restore_status {
                            Some(ref s) => Some(s@),
                            None => None,
                        },
                        size: match size {
                            Some(v) => Some(v as int),
                            None => None,
                        },
                        storage_class: match storage_class {
                            Some(ref c) => Some(c@),
                            None => None,
                        },
                    },
                ),
            decreases toks.len() - parser.pos(),
        {
            match parser.next() {
                None => {
                    return Err(S3Error::DecodeError);
                },
                Some(XmlToken::Start(n)) => {
                    if str_eq(n.as_str(), "ChecksumAlgorithm") {
                        let t = parse_xml_string(parser, "ChecksumAlgorithm")?;
                        checksum_algorithm = Some(checksum_algorithm_from_str(t));
                    } else if str_eq(n.as_str(), "ChecksumType") {
                        let t = parse_xml_string(parser, "ChecksumType")?;
                        if str_eq(t.as_str(), "COMPOSITE") {
                            checksum_type = Some(ApiChecksumType::Composite);
                        } else if str_eq(t.as_str(), "FULL_OBJECT") {
                            checksum_type = Some(ApiChecksumType::FullObject);
                        } else {
                            return Err(S3Error::DecodeError);
                        }
                    } else if str_eq(n.as_str(), "ETag") {
                        let t = parse_xml_string(parser, "ETag")?;
                        etag = Some(t);
                    } else if str_eq(n.as_str(), "Key") {
                        let t = parse_xml_string(parser, "Key")?;
                        key = Some(t);
                    } else if str_eq(n.as_str(), "LastModified") {
                        let t = parse_xml_string(parser, "LastModified")?;
                        let ts = parse_rfc3339(t.as_str())?;
                        last_modified = Some(ts);
                    } else if str_eq(n.as_str(), "Size") {
                        let v = parse_xml_usize(parser, "Size")?;
                        size = Some(v);
                    } else if str_eq(n.as_str(), "StorageClass") {
                        let t = parse_xml_string(parser, "StorageClass")?;
                        storage_class = Some(storage_class_from_str(t));
                    } else if str_eq(n.as_str(), "Owner") {
                        let o = ApiOwner::parse(parser)?;
                        owner = Some(o);
                    } else if str_eq(n.as_str(), "RestoreStatus") {
                        let s = ApiRestoreStatus::parse(parser)?;
                        restore_status = Some(s);
                    }
                },
                Some(XmlToken::End(n)) => {
                    if str_eq(n.as_str(), "Contents") {
                        match (etag, key, last_modified, size, storage_class) {
                            (Some(et), Some(k), Some(lm), Some(sz), Some(sc)) => {
                                return Ok(
                                    ApiObject {
                                        checksum_algorithm,
                                        checksum_type,
                                        etag: et,
                                        key: k,
                                        last_modified: lm,
                                        owner,
                                        restore_status,
                                        size: sz,
                                        storage_class: sc,
                                    },
                                );
                            },
                            _ => {
                                return Err(S3Error::DecodeError);
                            },
                        }
                    }
                },
                Some(_) => {},
            }
        }
    }
}

// ----------------------------------------------------------------------------
// Requests and their builder
// ----------------------------------------------------------------------------

/// The verbs this client sends.
#[derive(Clone, Copy, Debug, PartialEq, Eq, Structural)]
pub enum Method {
    GET,
    HEAD,
    POST,
    PUT,
    DELETE,
}

pub open spec fn spec_method_str(m: Method) -> Seq<char> {
    match m {
        Method::GET => "GET"@,
        Method::HEAD => "HEAD"@,
        Method::POST => "POST"@,
        Method::PUT => "PUT"@,
        Method::DELETE => "DELETE"@,
    }
}

pub fn method_str(m: Method) -> (r: &'static str)
    ensures
        r@ == spec_method_str(m),
{
    match m {
        Method::GET => "GET",
        Method::HEAD => "HEAD",
        Method::POST => "POST",
        Method::PUT => "PUT",
        Method::DELETE => "DELETE",
    }
}

/// The scheme used when the endpoint names none.
#[derive(Clone, Copy, Debug, PartialEq, Eq, Structural)]
pub enum Scheme {
    HTTP,
    HTTPS,
}

pub open spec fn spec_scheme_str(s: Scheme) -> Seq<char> {
    match s {
        Scheme::HTTP => "http"@,
        Scheme::HTTPS => "https"@,
    }
}

pub fn scheme_str(s: Scheme) -> (r: &'static str)
    ensures
        r@ == spec_scheme_str(s),
{
    match s {
        Scheme::HTTP => "http",
        Scheme::HTTPS => "https",
    }
}

/// A wire-ready request: everything the transport needs to send it.
pub struct SignedRequest {
    pub method: String,
    pub uri: String,
    pub headers: Vec<(String, String)>,
    pub body: Vec<u8>,
}

pub struct SignedRequestV {
    pub method: Seq<char>,
    pub uri: Seq<char>,
    pub headers: Seq<(Seq<char>, Seq<char>)>,
    pub body: Seq<u8>,
}

impl View for SignedRequest {
    type V = SignedRequestV;

    open spec fn view(&self) -> SignedRequestV {
        SignedRequestV {
            method: self.method@,
            uri: self.uri@,
            headers: crate::order::pair_views(self.headers@),
            body: self.body@,
        }
    }
}

/// A response body decoder: one per API operation.
pub trait S3ResponseData: Sized {
    fn parse_body(data: &[u8]) -> Result<Self, S3Error>;
}

/// A request description that knows which response type it produces.
pub trait S3RequestData {
    type ResponseType: S3ResponseData;

    fn into_builder(
        &self,
        access_key: &str,
        secret_key: &str,
        region: &str,
        endpoint: &str,
    ) -> Result<S3RequestBuilder<Self::ResponseType>, S3Error>;
}

/// A signed request, typed by the response it expects.
pub struct S3Request<T: S3ResponseData> {
    pub request: SignedRequest,
    pub phantom: core::marker::PhantomData<T>,
}

/// Spec view of the builder's accumulated request description.
pub struct S3RequestBuilderV {
    pub method: Method,
    pub action: Seq<char>,
    pub query: Seq<(Seq<char>, Seq<char>)>,
    pub headers: Seq<(Seq<char>, Seq<char>)>,
    pub x_amz_headers: Seq<(Seq<char>, Seq<char>)>,
    pub access_key: Seq<char>,
    pub secret_key: Seq<char>,
    pub region: Seq<char>,
    pub endpoint: Seq<char>,
    pub scheme: Scheme,
    pub body: Option<Seq<u8>>,
}

/// Build and sign one request.
pub struct S3RequestBuilder<T: S3ResponseData> {
    method: Method,
    action: String,
    query: Vec<(String, String)>,
    headers: Vec<(String, String)>,
    x_amz_headers: Vec<(String, String)>,
    access_key: String,
    secret_key: String,
    region: String,
    endpoint: String,
    scheme: Scheme,
    body: Option<Vec<u8>>,
    phantom: core::marker::PhantomData<T>,
}

impl<T: S3ResponseData> View for S3RequestBuilder<T> {
    type V = S3RequestBuilderV;

    closed spec fn view(&self) -> S3RequestBuilderV {
        S3RequestBuilderV {
            method: self.method,
            action: self.action@,
            query: crate::order::pair_views(self.query@),
            headers: crate::order::pair_views(self.headers@),
            x_amz_headers: crate::order::pair_views(self.x_amz_headers@),
            access_key: self.access_key@,
            secret_key: self.secret_key@,
            region: self.region@,
            endpoint: self.endpoint@,
            scheme: self.scheme,
            body: match self.body {
                Some(ref b) => Some(b@),
                None => None,
            },
        }
    }
}

/// Whether a name begins with the given prefix.
pub open spec fn spec_starts_with(s: Seq<char>, p: Seq<char>) -> bool {
    s.len() >= p.len() && s.take(p.len() as int) == p
}

pub fn str_starts_with(s: &str, p: &str) -> (r: bool)
    ensures
        r == spec_starts_with(s@, p@),
{
    let sn = s.unicode_len();
    let pn = p.unicode_len();
    if sn < pn {
        return false;
    }
    let mut i: usize = 0;
    loop
        invariant
            pn <= sn,
            sn == s@.len(),
            pn == p@.len(),
            i <= pn,
            forall|k: int| 0 <= k < i ==> s@[k] == p@[k],
        ensures
            i <= pn,
            forall|k: int| 0 <= k < i ==> s@[k] == p@[k],
            i < pn ==> s@[i as int] != p@[i as int],
            i == pn || i < pn,
        decreases pn - i,
    {
        if i >= pn {
            break;
        }
        if s.get_char(i) != p.get_char(i) {
            break;
        }
        i = i + 1;
    }
    if i == pn {
        proof {
            assert(s@.take(pn as int) =~= p@);
        }
        true
    } else {
        proof {
            assert(s@.take(pn as int) != p@) by {
                if s@.take(pn as int) == p@ {
                    assert(s@.take(pn as int)[i as int] == s@[i as int]);
                }
            }
        }
        false
    }
}

/// Where one header lands: names beginning `x-amz` go to the signed set,
/// everything else to the general set.
pub open spec fn spec_route_one(
    hs: Seq<(Seq<char>, Seq<char>)>,
    xs: Seq<(Seq<char>, Seq<char>)>,
    p: (Seq<char>, Seq<char>),
) -> (Seq<(Seq<char>, Seq<char>)>, Seq<(Seq<char>, Seq<char>)>) {
    if spec_starts_with(p.0, "x-amz"@) {
        (hs, xs.push(p))
    } else {
        (hs.push(p), xs)
    }
}

/// Routing a whole list of headers, in order.
pub open spec fn spec_route_headers(
    hs: Seq<(Seq<char>, Seq<char>)>,
    xs: Seq<(Seq<char>, Seq<char>)>,
    pairs: Seq<(Seq<char>, Seq<char>)>,
) -> (Seq<(Seq<char>, Seq<char>)>, Seq<(Seq<char>, Seq<char>)>)
    decreases pairs.len(),
{
    if pairs.len() == 0 {
        (hs, xs)
    } else {
        let prev = spec_route_headers(hs, xs, pairs.drop_last());
        spec_route_one(prev.0, prev.1, pairs.last())
    }
}

impl<T: S3ResponseData> S3RequestBuilder<T> {
    /// A fresh builder: the action is percent-encoded with the path set, the
    /// scheme defaults to https, and nothing else is set.
    pub fn new(
        method: Method,
        action: &str,
        access_key: &str,
        secret_key: &str,
        region: &str,
        endpoint: &str,
    ) -> (r: Self)
        ensures
            r@ == (S3RequestBuilderV {
                method: method,
                action: crate::encode::spec_percent_encode_path(action@),
                query: Seq::empty(),
                headers: Seq::empty(),
                x_amz_headers: Seq::empty(),
                access_key: access_key@,
                secret_key: secret_key@,
                region: region@,
                endpoint: endpoint@,
                scheme: Scheme::HTTPS,
                body: None,
            }),
    {
        let r = Self {
            method,
            action: crate::encode::percent_encode_path(action),
            query: Vec::new(),
            headers: Vec::new(),
            x_amz_headers: Vec::new(),
            access_key: access_key.to_owned(),
            secret_key: secret_key.to_owned(),
            region: region.to_owned(),
            endpoint: endpoint.to_owned(),
            scheme: Scheme::HTTPS,
            body: None,
            phantom: core::marker::PhantomData,
        };
        proof {
            assert(crate::order::pair_views(r.query@) =~= Seq::<(Seq<char>, Seq<char>)>::empty());
            assert(crate::order::pair_views(r.headers@) =~= Seq::<(Seq<char>, Seq<char>)>::empty());
            assert(crate::order::pair_views(r.x_amz_headers@) =~= Seq::<(
                Seq<char>,
                Seq<char>,
            )>::empty());
        }
        r
    }

    pub fn method(&mut self, method: Method)
        ensures
            final(self)@ == (S3RequestBuilderV { method: method, ..old(self)@ }),
    {
        self.method = method;
    }

    /// Set the action path, percent-encoded with the path set.
    pub fn action(&mut self, action: &str)
        ensures
            final(self)@ == (S3RequestBuilderV {
                action: crate::encode::spec_percent_encode_path(action@),
                ..old(self)@
            }),
    {
        self.action = crate::encode::percent_encode_path(action);
    }

    /// Add a query parameter; key and value are percent-encoded with the
    /// query set, an absent value as the empty string.
    pub fn query(&mut self, key: &str, value: Option<&str>)
        ensures
            final(self)@ == (S3RequestBuilderV {
                query: old(self)@.query.push(
                    (
                        crate::encode::spec_percent_encode_query(key@),
                        match value {
                            Some(v) => crate::encode::spec_percent_encode_query(v@),
                            None => Seq::<char>::empty(),
                        },
                    ),
                ),
                ..old(self)@
            }),
    {
        let ghost before = self.query@;
        let ev = match value {
            Some(v) => crate::encode::percent_encode_query(v),
            None => {
                let e = crate::encode::percent_encode_query("");
                proof {
                    reveal_strlit("");
                    assert(vstd::utf8::encode_utf8(""@) =~= Seq::<u8>::empty());
                    assert(e@ =~= Seq::<char>::empty());
                }
                e
            },
        };
        let ek = crate::encode::percent_encode_query(key);
        let ghost ekv = ek@;
        let ghost evv = ev@;
        self.query.push((ek, ev));
        proof {
            assert(crate::order::pair_views(self.query@) =~= crate::order::pair_views(before).push(
                (ekv, evv),
            ));
        }
    }

    /// Add one header: names beginning `x-amz` join the signed set, any
    /// other name the general set.
    pub fn header(&mut self, key: &str, value: &str)
        ensures
            ({
                let routed = spec_route_one(old(self)@.headers, old(self)@.x_amz_headers, (key@, value@));
                final(self)@ == (S3RequestBuilderV {
                    headers: routed.0,
                    x_amz_headers: routed.1,
                    ..old(self)@
                })
            }),
    {
        if str_starts_with(key, "x-amz") {
            let ghost before = self.x_amz_headers@;
            self.x_amz_headers.push((key.to_owned(), value.to_owned()));
            proof {
                assert(crate::order::pair_views(self.x_amz_headers@)
                    =~= crate::order::pair_views(before).push((key@, value@)));
            }
        } else {
            let ghost before = self.headers@;
            self.headers.push((key.to_owned(), value.to_owned()));
            proof {
                assert(crate::order::pair_views(self.headers@) =~= crate::order::pair_views(
                    before,
                ).push((key@, value@)));
            }
        }
    }

    /// Add a list of headers, each routed as `header` routes it.
    pub fn headers(&mut self, headers: Vec<(String, String)>)
        ensures
            ({
                let routed = spec_route_headers(
                    old(self)@.headers,
                    old(self)@.x_amz_headers,
                    crate::order::pair_views(headers@),
                );
                final(self)@ == (S3RequestBuilderV {
                    headers: routed.0,
                    x_amz_headers: routed.1,
                    ..old(self)@
                })
            }),
    {
        let n = headers.len();
        let ghost pv = crate::order::pair_views(headers@);
        proof {
            assert(pv.take(0) =~= Seq::<(Seq<char>, Seq<char>)>::empty());
        }
        for i in 0..n
            invariant
                n == headers@.len(),
                pv == crate::order::pair_views(headers@),
                ({
                    let routed = spec_route_headers(
                        old(self)@.headers,
                        old(self)@.x_amz_headers,
                        pv.take(i as int),
                    );
                    self@ == (S3RequestBuilderV {
                        headers: routed.0,
                        x_amz_headers: routed.1,
                        ..old(self)@
                    })
                }),
        {
            self.header(headers[i].0.as_str(), headers[i].1.as_str());
            proof {
                assert(pv.take(i + 1).drop_last() =~= pv.take(i as int));
                assert(pv.take(i + 1).last() == crate::order::pair_view(headers@[i as int]));
            }
        }
        proof {
            assert(pv.take(n as int) =~= pv);
        }
    }

    /// Set the request body.
    pub fn body(&mut self, body: &[u8])
        ensures
            final(self)@ == (S3RequestBuilderV { body: Some(body@), ..old(self)@ }),
    {
        self.body = Some(vstd::slice::slice_to_vec(body));
    }

    /// Set the scheme used when the endpoint names none.
    pub fn scheme(&mut self, scheme: Scheme)
        ensures
            final(self)@ == (S3RequestBuilderV { scheme: scheme, ..old(self)@ }),
    {
        self.scheme = scheme;
    }

    /// Append the content headers to the general set.
    pub fn set_content_headers(&mut self, content: &crate::api::content_headers::ContentHeaders)
        requires
            content.wf(),
        ensures
            final(self)@ == (S3RequestBuilderV {
                headers: old(self)@.headers + crate::api::content_headers::spec_content_headers(
                    content@,
                ),
                ..old(self)@
            }),
    {
        let mut content_headers = content.get_headers();
        let ghost before = self.headers@;
        let ghost cv = crate::order::pair_views(content_headers@);
        self.headers.append(&mut content_headers);
        proof {
            assert(crate::order::pair_views(self.headers@) =~= crate::order::pair_views(before)
                + cv);
        }
    }

    /// Append the `response-*` query parameters of the content headers,
    /// percent-encoded like any other query parameter.
    pub fn set_content_query(&mut self, content: &crate::api::content_headers::ContentHeaders)
        requires
            content.wf(),
        ensures
            final(self)@ == (S3RequestBuilderV {
                query: old(self)@.query + crate::api::content_headers::spec_content_query(
                    content@,
                ).map_values(
                    (|p: (Seq<char>, Seq<char>)| (
                        crate::encode::spec_percent_encode_query(p.0),
                        crate::encode::spec_percent_encode_query(p.1),
                    )),
                ),
                ..old(self)@
            }),
    {
        let query = content.get_query();
        let n = query.len();
        let ghost qv = crate::order::pair_views(query@);
        let ghost f = (|p: (Seq<char>, Seq<char>)| (
            crate::encode::spec_percent_encode_query(p.0),
            crate::encode::spec_percent_encode_query(p.1),
        ));
        proof {
            assert(qv.take(0).map_values(f) =~= Seq::<(Seq<char>, Seq<char>)>::empty());
            assert(old(self)@.query + qv.take(0).map_values(f) =~= old(self)@.query);
        }
        for i in 0..n
            invariant
                n == query@.len(),
                qv == crate::order::pair_views(query@),
                f == (|p: (Seq<char>, Seq<char>)| (
                    crate::encode::spec_percent_encode_query(p.0),
                    crate::encode::spec_percent_encode_query(p.1),
                )),
                self@ == (S3RequestBuilderV {
                    query: old(self)@.query + qv.take(i as int).map_values(f),
                    ..old(self)@
                }),
        {
            self.query(query[i].0.as_str(), Some(query[i].1.as_str()));
            proof {
                assert(qv.take(i + 1).map_values(f) =~= qv.take(i as int).map_values(f).push(
                    f(crate::order::pair_view(query@[i as int])),
                ));
                assert(old(self)@.query + qv.take(i + 1).map_values(f) =~= (old(self)@.query
                    + qv.take(i as int).map_values(f)).push(
                    f(crate::order::pair_view(query@[i as int])),
                ));
            }
        }
        proof {
            assert(qv.take(n as int) =~= qv);
        }
    }

    /// Append the conditional headers to the general set.
    pub fn set_conditional_headers(
        &mut self,
        conds: &crate::api::conditional_headers::ConditionalHeaders,
    )
        requires
            conds.wf(),
        ensures
            final(self)@ == (S3RequestBuilderV {
                headers: old(self)@.headers + crate::api::conditional_headers::spec_cond_headers(
                    conds@,
                ),
                ..old(self)@
            }),
    {
        let mut conditional_headers = conds.get_headers();
        let ghost before = self.headers@;
        let ghost cv = crate::order::pair_views(conditional_headers@);
        self.headers.append(&mut conditional_headers);
        proof {
            assert(crate::order::pair_views(self.headers@) =~= crate::order::pair_views(before)
                + cv);
        }
    }

    /// Append a finished x-amz header set to the signed set.
    pub fn set_x_amz_headers(&mut self, xamz: &crate::api::x_amz_headers::XAmzHeaders)
        ensures
            final(self)@ == (S3RequestBuilderV {
                x_amz_headers: old(self)@.x_amz_headers + xamz@,
                ..old(self)@
            }),
    {
        let mut xamz_headers = xamz.headers();
        let ghost before = self.x_amz_headers@;
        let ghost xv = crate::order::pair_views(xamz_headers@);
        self.x_amz_headers.append(&mut xamz_headers);
        proof {
            assert(crate::order::pair_views(self.x_amz_headers@) =~= crate::order::pair_views(
                before,
            ) + xv);
        }
    }

    /// Replace the credentials and endpoint.
    pub fn set_auth(&mut self, access_key: &str, secret_key: &str, region: &str, endpoint: &str)
        ensures
            final(self)@ == (S3RequestBuilderV {
                access_key: access_key@,
                secret_key: secret_key@,
                region: region@,
                endpoint: endpoint@,
                ..old(self)@
            }),
    {
        self.access_key = access_key.to_owned();
        self.secret_key = secret_key.to_owned();
        self.region = region.to_owned();
        self.endpoint = endpoint.to_owned();
    }
}

// ----------------------------------------------------------------------------
// Header syntax
// ----------------------------------------------------------------------------

/// A character allowed in a header name: the lower- or upper-case letters,
/// digits, and the token punctuation.
pub open spec fn valid_header_name_char(c: char) -> bool {
    ||| ('a' <= c && c <= 'z')
    ||| ('A' <= c && c <= 'Z')
    ||| ('0' <= c && c <= '9')
    ||| c == '!'
    ||| c == '#'
    ||| c == '$'
    ||| c == '%'
    ||| c == '&'
    ||| c == '\''
    ||| c == '*'
    ||| c == '+'
    ||| c == '-'
    ||| c == '.'
    ||| c == '^'
    ||| c == '_'
    ||| c == '`'
    ||| c == '|'
    ||| c == '~'
}

/// A character allowed in a header value: the tab, and everything from the
/// space on except the delete control.
pub open spec fn valid_header_value_char(c: char) -> bool {
    c == '\t' || ((c as u32) >= 32 && (c as u32) != 127)
}

pub open spec fn spec_valid_header_name(s: Seq<char>) -> bool {
    s.len() > 0 && (forall|i: int| 0 <= i < s.len() ==> valid_header_name_char(#[trigger] s[i]))
}

pub open spec fn spec_valid_header_value(s: Seq<char>) -> bool {
    forall|i: int| 0 <= i < s.len() ==> valid_header_value_char(#[trigger] s[i])
}

/// A representable header pair: a valid name and a valid value.
pub open spec fn header_pair_ok(p: (Seq<char>, Seq<char>)) -> bool {
    spec_valid_header_name(p.0) && spec_valid_header_value(p.1)
}

/// Every general header must carry a representable name and value.
pub open spec fn spec_headers_ok(hs: Seq<(Seq<char>, Seq<char>)>) -> bool {
    forall|i: int| 0 <= i < hs.len() ==> header_pair_ok(#[trigger] hs[i])
}

fn valid_header_name_char_exec(c: char) -> (r: bool)
    ensures
        r == valid_header_name_char(c),
{
    let u = c as u32;
    (97 <= u && u <= 122) || (65 <= u && u <= 90) || (48 <= u && u <= 57) || c == '!' || c == '#'
        || c == '$' || c == '%' || c == '&' || c == '\'' || c == '*' || c == '+' || c == '-' || c
        == '.' || c == '^' || c == '_' || c == '`' || c == '|' || c == '~'
}

fn check_header_name(s: &str) -> (r: bool)
    ensures
        r == spec_valid_header_name(s@),
{
    let n = s.unicode_len();
    if n == 0 {
        return false;
    }
    for i in 0..n
        invariant
            n == s@.len(),
            n > 0,
            forall|k: int| 0 <= k < i ==> valid_header_name_char(#[trigger] s@[k]),
    {
        let c = s.get_char(i);
        if !valid_header_name_char_exec(c) {
            return false;
        }
    }
    true
}

fn check_header_value(s: &str) -> (r: bool)
    ensures
        r == spec_valid_header_value(s@),
{
    let n = s.unicode_len();
    for i in 0..n
        invariant
            n == s@.len(),
            forall|k: int| 0 <= k < i ==> valid_header_value_char(#[trigger] s@[k]),
    {
        let c = s.get_char(i);
        let u = c as u32;
        if !(c == '\t' || (u >= 32 && u != 127)) {
            return false;
        }
    }
    true
}

fn check_headers(hs: &Vec<(String, String)>) -> (r: bool)
    ensures
        r == spec_headers_ok(crate::order::pair_views(hs@)),
{
    let n = hs.len();
    let ghost pv = crate::order::pair_views(hs@);
    for i in 0..n
        invariant
            n == hs@.len(),
            pv == crate::order::pair_views(hs@),
            forall|k: int| 0 <= k < i ==> header_pair_ok(#[trigger] pv[k]),
    {
        let name_ok = check_header_name(hs[i].0.as_str());
        let value_ok = check_header_value(hs[i].1.as_str());
        proof {
            assert(pv[i as int] == crate::order::pair_view(hs@[i as int]));
            assert(name_ok == spec_valid_header_name(pv[i as int].0));
            assert(value_ok == spec_valid_header_value(pv[i as int].1));
        }
        if !(name_ok && value_ok) {
            proof {
                assert(!header_pair_ok(pv[i as int]));
                assert(!spec_headers_ok(pv));
            }
            return false;
        }
        proof {
            assert(header_pair_ok(pv[i as int]));
        }
    }
    true
}

// ----------------------------------------------------------------------------
// Signing and assembly
// ----------------------------------------------------------------------------

/// The canonical request of a builder state: method, slash-prefixed action,
/// canonical query, canonical header block, signed-header list and payload
/// hash, each on its own line.
pub open spec fn spec_canonical_request(
    v: S3RequestBuilderV,
    ph: Seq<char>,
    amz: Seq<char>,
    host: Seq<char>,
) -> Seq<char> {
    spec_method_str(v.method) + "\n/"@ + v.action + "\n"@ + crate::canonical::spec_canonical_query(
        v.query,
    ) + "\n"@ + crate::canonical::spec_canonical_header_block(v.x_amz_headers, host, ph, amz)
        + "\n"@ + crate::canonical::spec_signed_header_list(v.x_amz_headers, host, ph, amz) + "\n"@
        + ph
}

/// The length of the transmitted body.
pub open spec fn spec_body_len(body: Option<Seq<u8>>) -> nat {
    match body {
        Some(b) => b.len(),
        None => 0,
    }
}

/// The wire request a builder state signs to, at one instant, for one
/// scheme and host.
pub open spec fn spec_signed_request(
    v: S3RequestBuilderV,
    ts: crate::time::Timestamp,
    scheme: Seq<char>,
    host: Seq<char>,
) -> SignedRequestV {
    let date = crate::time::spec_date_stamp(ts);
    let amz = crate::time::spec_amz_date(ts);
    let ph = crate::sign::spec_payload_hash(v.body);
    let cq = crate::canonical::spec_canonical_query(v.query);
    let signed = crate::canonical::spec_signed_header_list(v.x_amz_headers, host, ph, amz);
    let cr = spec_canonical_request(v, ph, amz, host);
    let scope = crate::sign::spec_credential_scope(date, v.region);
    let sts = crate::sign::spec_string_to_sign(amz, scope, cr);
    let sig = crate::sign::spec_signature(v.secret_key, date, v.region, sts);
    let auth = crate::sign::spec_authorization(v.access_key, scope, signed, sig);
    SignedRequestV {
        method: spec_method_str(v.method),
        uri: scheme + "://"@ + host + "/"@ + v.action + (if v.query.len() == 0 {
            Seq::<char>::empty()
        } else {
            "?"@ + cq
        }),
        headers: seq![
            ("x-amz-content-sha256"@, ph),
            ("x-amz-date"@, amz),
            ("authorization"@, auth),
            ("content-length"@, crate::text::spec_udec(spec_body_len(v.body))),
        ] + v.headers,
        body: match v.body {
            Some(b) => b,
            None => Seq::empty(),
        },
    }
}

/// What http's Uri parse reads out of the endpoint text: nothing when the
/// text is no URI at all, else its scheme and its host, each as present.
pub uninterp spec fn uri_parts_of(s: Seq<char>) -> Option<(Option<Seq<char>>, Option<Seq<char>>)>;

/// Relies on http's Uri parsing for the endpoint: the scheme and host it
/// reads, copied out as plain text.
#[verifier::external_body]
fn parse_endpoint(endpoint: &str) -> (r: Option<(Option<String>, Option<String>)>)
    ensures
        r matches Some(p) ==> uri_parts_of(endpoint@) == Some(
            (opt_str_view(p.0), opt_str_view(p.1)),
        ),
        r is None ==> uri_parts_of(endpoint@) is None,
{
    match endpoint.parse::<http::Uri>() {
        Ok(u) => Some(
            (u.scheme_str().map(|x| x.to_string()), u.host().map(|x| x.to_string())),
        ),
        Err(_) => None,
    }
}

impl<T: S3ResponseData> S3RequestBuilder<T> {
    /// Sign the request for one instant, scheme and host.  A general header
    /// that cannot be represented is an encoding error; the only other
    /// failure is the key primitive refusing its key.
    #[verifier::rlimit(100)]
    #[verifier::spinoff_prover]
    pub fn build_with(&self, ts: crate::time::Timestamp, scheme: &str, host: &str) -> (r: Result<
        S3Request<T>,
        S3Error,
    >)
        requires
            ts.wf(),
        ensures
            r is Err <==> !spec_headers_ok(self@.headers),
            r matches Err(e) ==> e == S3Error::EncodingError,
            r matches Ok(req) ==> req.request@ == spec_signed_request(self@, ts, scheme@, host@),
    {
        let ghost v = self@;
        if !check_headers(&self.headers) {
            return Err(S3Error::EncodingError);
        }
        let date = ts.date_stamp();
        let amz = ts.amz_date();
        let ph = crate::sign::payload_hash(&self.body);
        proof {
            assert(ph@ == crate::sign::spec_payload_hash(v.body));
        }
        let cq = crate::canonical::canonical_query_string(&self.query);
        let hb = crate::canonical::canonical_headers(
            &self.x_amz_headers,
            host,
            ph.as_str(),
            amz.as_str(),
        );
        let block = hb.0;
        let signed = hb.1;
        // canonical request
        let mut cr = String::new();
        cr.append(method_str(self.method));
        cr.append("\n/");
        cr.append(self.action.as_str());
        cr.append("\n");
        cr.append(cq.as_str());
        cr.append("\n");
        cr.append(block.as_str());
        cr.append("\n");
        cr.append(signed.as_str());
        cr.append("\n");
        cr.append(ph.as_str());
        proof {
            assert(cr@ == spec_canonical_request(v, ph@, amz@, host@));
        }
        let scope = crate::sign::credential_scope(date.as_str(), self.region.as_str());
        let sts = crate::sign::string_to_sign(amz.as_str(), scope.as_str(), cr.as_str());
        let sig = match crate::sign::compute_signature(
            self.secret_key.as_str(),
            date.as_str(),
            self.region.as_str(),
            sts.as_str(),
        ) {
            Ok(s) => s,
            Err(e) => {
                return Err(e);
            },
        };
        let auth = crate::sign::authorization_header(
            self.access_key.as_str(),
            scope.as_str(),
            signed.as_str(),
            sig.as_str(),
        );
        // final uri
        let mut uri = String::new();
        uri.append(scheme);
        uri.append("://");
        uri.append(host);
        uri.append("/");
        uri.append(self.action.as_str());
        if self.query.len() > 0 {
            uri.append("?");
            uri.append(cq.as_str());
        }
        proof {
            if v.query.len() == 0 {
                assert(uri@ =~= spec_signed_request(v, ts, scheme@, host@).uri);
            } else {
                assert(uri@ =~= spec_signed_request(v, ts, scheme@, host@).uri);
            }
        }
        // final headers
        let body_len: u64 = match &self.body {
            Some(b) => b.len() as u64,
            None => 0,
        };
        let mut headers: Vec<(String, String)> = Vec::new();
        proof {
            assert(crate::order::pair_views(headers@) =~= Seq::<(Seq<char>, Seq<char>)>::empty());
        }
        crate::api::x_amz_headers::push_pair(&mut headers, "x-amz-content-sha256", ph);
        crate::api::x_amz_headers::push_pair(&mut headers, "x-amz-date", amz);
        crate::api::x_amz_headers::push_pair(&mut headers, "authorization", auth);
        crate::api::x_amz_headers::push_pair(
            &mut headers,
            "content-length",
            crate::text::u64_to_string(body_len),
        );
        let ghost fixed = crate::order::pair_views(headers@);
        proof {
            assert(fixed =~= spec_signed_request(v, ts, scheme@, host@).headers.take(4));
        }
        let hn = self.headers.len();
        for i in 0..hn
            invariant
                hn == self.headers@.len(),
                crate::order::pair_views(headers@) == fixed + crate::order::pair_views(
                    self.headers@,
                ).take(i as int),
        {
            let ghost hb2 = headers@;
            crate::api::x_amz_headers::push_pair_owned(
                &mut headers,
                self.headers[i].0.clone(),
                self.headers[i].1.clone(),
            );
            proof {
                assert(crate::order::pair_views(self.headers@).take(i + 1)
                    =~= crate::order::pair_views(self.headers@).take(i as int).push(
                    crate::order::pair_view(self.headers@[i as int]),
                ));
                assert(crate::order::pair_views(headers@) =~= fixed + crate::order::pair_views(
                    self.headers@,
                ).take(i + 1));
            }
        }
        proof {
            assert(crate::order::pair_views(self.headers@).take(hn as int)
                =~= crate::order::pair_views(self.headers@));
        }
        // body bytes
        let body: Vec<u8> = match &self.body {
            Some(b) => b.clone(),
            None => Vec::new(),
        };
        let method = method_str(self.method).to_owned();
        let req = SignedRequest { method, uri, headers, body };
        proof {
            assert(req@.headers =~= spec_signed_request(v, ts, scheme@, host@).headers);
            assert(req@.body =~= spec_signed_request(v, ts, scheme@, host@).body);
        }
        Ok(S3Request { request: req, phantom: core::marker::PhantomData })
    }

    /// Build and sign the request: stamp the current time, resolve the
    /// endpoint to a scheme and host per its parsed parts, and sign.  An
    /// endpoint that does not parse, or parses without a host, is a
    /// configuration error; so is a clock outside the supported years.
    pub fn build(&mut self) -> (r: Result<S3Request<T>, S3Error>)
        ensures
            final(self)@ == old(self)@,
            r matches Err(e) ==> (e == S3Error::ConfigError || e == S3Error::EncodingError),
            (uri_parts_of(old(self)@.endpoint) is None || (uri_parts_of(old(self)@.endpoint)
                matches Some(p) && p.1 is None)) ==> r == Err::<S3Request<T>, S3Error>(
                S3Error::ConfigError,
            ),
            r == Err::<S3Request<T>, S3Error>(S3Error::EncodingError) ==> !spec_headers_ok(
                old(self)@.headers,
            ),
            r matches Ok(req) ==> (uri_parts_of(old(self)@.endpoint) matches Some(p) && p.1
                matches Some(h) && (exists|ts: crate::time::Timestamp|
                ts.wf() && req.request@ == spec_signed_request(
                    old(self)@,
                    ts,
                    (match p.0 {
                        Some(s) => s,
                        None => spec_scheme_str(old(self)@.scheme),
                    }),
                    h,
                ))),
    {
        let ts = match crate::time::now_timestamp() {
            Ok(t) => t,
            Err(e) => {
                return Err(e);
            },
        };
        let parsed = parse_endpoint(self.endpoint.as_str());
        match parsed {
            None => Err(S3Error::ConfigError),
            Some((sch_opt, host_opt)) => match host_opt {
                None => Err(S3Error::ConfigError),
                Some(host) => {
                    let sch = match sch_opt {
                        Some(s) => s,
                        None => scheme_str(self.scheme).to_owned(),
                    };
                    match self.build_with(ts, sch.as_str(), host.as_str()) {
                        Ok(req) => {
                            proof {
                                assert(ts.wf() && req.request@ == spec_signed_request(
                                    old(self)@,
                                    ts,
                                    sch@,
                                    host@,
                                ));
                            }
                            Ok(req)
                        },
                        Err(e) => Err(e),
                    }
                },
            },
        }
    }
}

// ----------------------------------------------------------------------------
// Encoding into the decoder's own vocabulary
// ----------------------------------------------------------------------------

/// The events of an Owner element after its start tag: optional display
/// name, the id, and the closing tag.
pub open spec fn spec_encode_owner_fields(o: ApiOwnerV) -> Seq<Tok> {
    (match o.display_name {
        Some(d) => seq![Tok::Start("DisplayName"@), Tok::Text(d)],
        None => Seq::<Tok>::empty(),
    }) + seq![Tok::Start("ID"@), Tok::Text(o.id), Tok::End("Owner"@)]
}

/// The events of a whole Owner element.
pub open spec fn spec_encode_owner(o: ApiOwnerV) -> Seq<Tok> {
    seq![Tok::Start("Owner"@)] + spec_encode_owner_fields(o)
}

/// Decoding the encoded fields of an owner yields that owner back, at the
/// position right after them.
pub proof fn lemma_encode_owner_round_trip(toks: Seq<Tok>, i: int, o: ApiOwnerV)
    requires
        0 <= i,
        i + spec_encode_owner_fields(o).len() <= toks.len(),
        toks.subrange(i, i + spec_encode_owner_fields(o).len() as int) == spec_encode_owner_fields(
            o,
        ),
    ensures
        spec_owner_loop(toks, i, None, None) == Some(
            (o, i + spec_encode_owner_fields(o).len() as int),
        ),
{
    reveal_strlit("DisplayName");
    reveal_strlit("ID");
    reveal_strlit("Owner");
    let f = spec_encode_owner_fields(o);
    assert(("ID"@).len() == 2 && ("DisplayName"@).len() == 11);
    match o.display_name {
        Some(d) => {
            assert(f.len() == 5);
            assert(forall|k: int| 0 <= k < 5 ==> #[trigger] toks.subrange(i, i + 5)[k] == toks[i + k]);
            assert(toks[i] == f[0] && toks[i + 1] == f[1] && toks[i + 2] == f[2] && toks[i + 3]
                == f[3] && toks[i + 4] == f[4]);
            assert(toks[i] == Tok::Start("DisplayName"@));
            assert(toks[i + 1] == Tok::Text(d));
            assert(toks[i + 2] == Tok::Start("ID"@));
            assert(toks[i + 3] == Tok::Text(o.id));
            assert(toks[i + 4] == Tok::End("Owner"@));
            assert(spec_owner_loop(toks, i + 4, Some(d), Some(o.id)) == Some(
                (ApiOwnerV { display_name: Some(d), id: o.id }, i + 5),
            ));
            assert(spec_owner_loop(toks, i + 2, Some(d), None) == spec_owner_loop(
                toks,
                i + 4,
                Some(d),
                Some(o.id),
            ));
            assert(spec_owner_loop(toks, i, None, None) == spec_owner_loop(
                toks,
                i + 2,
                Some(d),
                None,
            ));
            assert(ApiOwnerV { display_name: Some(d), id: o.id } == o);
        },
        None => {
            assert(f.len() == 3);
            assert(forall|k: int| 0 <= k < 3 ==> #[trigger] toks.subrange(i, i + 3)[k] == toks[i + k]);
            assert(toks[i] == f[0] && toks[i + 1] == f[1] && toks[i + 2] == f[2]);
            assert(toks[i] == Tok::Start("ID"@));
            assert(toks[i + 1] == Tok::Text(o.id));
            assert(toks[i + 2] == Tok::End("Owner"@));
            assert(spec_owner_loop(toks, i + 2, None, Some(o.id)) == Some(
                (ApiOwnerV { display_name: None, id: o.id }, i + 3),
            ));
            assert(spec_owner_loop(toks, i, None, None) == spec_owner_loop(
                toks,
                i + 2,
                None,
                Some(o.id),
            ));
            assert(ApiOwnerV { display_name: None, id: o.id } == o);
        },
    }
}

/// The events of a Bucket element after its start tag: the name, the
/// optional creation date in its text form, the region, and the closing
/// tag.
pub open spec fn spec_encode_bucket_fields(b: ApiBucketV) -> Seq<Tok> {
    seq![Tok::Start("Name"@), Tok::Text(b.name)] + (match b.creation_date {
        Some(ts) => seq![Tok::Start("CreationDate"@), Tok::Text(crate::time::spec_rfc3339(ts))],
        None => Seq::<Tok>::empty(),
    }) + seq![Tok::Start("BucketRegion"@), Tok::Text(b.region), Tok::End("Bucket"@)]
}

/// A bucket whose creation date, if any, is a well-formed timestamp.
pub open spec fn bucket_wf(b: ApiBucketV) -> bool {
    match b.creation_date {
        Some(ts) => ts.wf(),
        None => true,
    }
}

/// Decoding the encoded fields of a bucket yields that bucket back, at the
/// position right after them.
#[verifier::rlimit(60)]
pub proof fn lemma_encode_bucket_round_trip(toks: Seq<Tok>, i: int, b: ApiBucketV)
    requires
        0 <= i,
        bucket_wf(b),
        i + spec_encode_bucket_fields(b).len() <= toks.len(),
        toks.subrange(i, i + spec_encode_bucket_fields(b).len() as int)
            == spec_encode_bucket_fields(b),
    ensures
        spec_bucket_loop(toks, i, None, None, None) == Some(
            (b, i + spec_encode_bucket_fields(b).len() as int),
        ),
{
    reveal_strlit("Name");
    reveal_strlit("CreationDate");
    reveal_strlit("BucketRegion");
    reveal_strlit("Bucket");
    let f = spec_encode_bucket_fields(b);
    assert(("Name"@).len() == 4 && ("CreationDate"@).len() == 12 && ("BucketRegion"@).len() == 12);
    assert(("BucketRegion"@)[0] == 'B' && ("CreationDate"@)[0] == 'C' && ("Name"@)[0] == 'N');
    assert("Name"@ != "BucketRegion"@ && "Name"@ != "CreationDate"@);
    assert("CreationDate"@ != "BucketRegion"@);
    match b.creation_date {
        Some(ts) => {
            assert(f.len() == 7);
            assert(forall|k: int| 0 <= k < 7 ==> #[trigger] toks.subrange(i, i + 7)[k] == toks[i + k]);
            assert(f =~= seq![
                Tok::Start("Name"@),
                Tok::Text(b.name),
                Tok::Start("CreationDate"@),
                Tok::Text(crate::time::spec_rfc3339(ts)),
                Tok::Start("BucketRegion"@),
                Tok::Text(b.region),
                Tok::End("Bucket"@),
            ]);
            assert(toks[i] == f[0] && toks[i + 1] == f[1] && toks[i + 2] == f[2] && toks[i + 3]
                == f[3] && toks[i + 4] == f[4] && toks[i + 5] == f[5] && toks[i + 6] == f[6]);
            assert(toks[i] == Tok::Start("Name"@));
            assert(toks[i + 1] == Tok::Text(b.name));
            assert(toks[i + 2] == Tok::Start("CreationDate"@));
            assert(toks[i + 3] == Tok::Text(crate::time::spec_rfc3339(ts)));
            assert(toks[i + 4] == Tok::Start("BucketRegion"@));
            assert(toks[i + 5] == Tok::Text(b.region));
            assert(toks[i + 6] == Tok::End("Bucket"@));
            crate::time::lemma_rfc3339_round_trip(ts);
            assert(spec_bucket_loop(toks, i + 6, Some(b.name), Some(ts), Some(b.region)) == Some(
                (ApiBucketV { name: b.name, creation_date: Some(ts), region: b.region }, i + 7),
            ));
            assert(spec_bucket_loop(toks, i + 4, Some(b.name), Some(ts), None) == spec_bucket_loop(
                toks,
                i + 6,
                Some(b.name),
                Some(ts),
                Some(b.region),
            ));
            assert(spec_bucket_loop(toks, i + 2, Some(b.name), None, None) == spec_bucket_loop(
                toks,
                i + 4,
                Some(b.name),
                Some(ts),
                None,
            ));
            assert(spec_bucket_loop(toks, i, None, None, None) == spec_bucket_loop(
                toks,
                i + 2,
                Some(b.name),
                None,
                None,
            ));
            assert(ApiBucketV { name: b.name, creation_date: Some(ts), region: b.region } == b);
        },
        None => {
            assert(f.len() == 5);
            assert(forall|k: int| 0 <= k < 5 ==> #[trigger] toks.subrange(i, i + 5)[k] == toks[i + k]);
            assert(f =~= seq![
                Tok::Start("Name"@),
                Tok::Text(b.name),
                Tok::Start("BucketRegion"@),
                Tok::Text(b.region),
                Tok::End("Bucket"@),
            ]);
            assert(toks[i] == f[0] && toks[i + 1] == f[1] && toks[i + 2] == f[2] && toks[i + 3]
                == f[3] && toks[i + 4] == f[4]);
            assert(toks[i] == Tok::Start("Name"@));
            assert(toks[i + 1] == Tok::Text(b.name));
            assert(toks[i + 2] == Tok::Start("BucketRegion"@));
            assert(toks[i + 3] == Tok::Text(b.region));
            assert(toks[i + 4] == Tok::End("Bucket"@));
            assert(spec_bucket_loop(toks, i + 4, Some(b.name), None, Some(b.region)) == Some(
                (ApiBucketV { name: b.name, creation_date: None, region: b.region }, i + 5),
            ));
            assert(spec_bucket_loop(toks, i + 2, Some(b.name), None, None) == spec_bucket_loop(
                toks,
                i + 4,
                Some(b.name),
                None,
                Some(b.region),
            ));
            assert(spec_bucket_loop(toks, i, None, None, None) == spec_bucket_loop(
                toks,
                i + 2,
                Some(b.name),
                None,
                None,
            ));
            assert(ApiBucketV { name: b.name, creation_date: None, region: b.region } == b);
        },
    }
}

/// The canonical text of a named checksum algorithm; the fallback variant
/// carries its own text.
pub open spec fn spec_checksum_algorithm_str(a: ChecksumAlgorithmV) -> Seq<char> {
    match a {
        ChecksumAlgorithmV::CRC32 => "CRC32"@,
        ChecksumAlgorithmV::CRC32C => "CRC32C"@,
        ChecksumAlgorithmV::SHA1 => "SHA1"@,
        ChecksumAlgorithmV::SHA256 => "SHA256"@,
        ChecksumAlgorithmV::CRC64NVME => "CRC64NVME"@,
        ChecksumAlgorithmV::Alogrithm(s) => s,
    }
}

/// The named checksum algorithms come back from their own text.
pub proof fn lemma_checksum_algorithm_round_trip(a: ChecksumAlgorithmV)
    requires
        !(a is Alogrithm),
    ensures
        spec_checksum_algorithm_of(spec_checksum_algorithm_str(a)) == a,
{
    broadcast use vstd::utf8::char_u32_cast;

    reveal_strlit("CRC32");
    reveal_strlit("crc32");
    reveal_strlit("CRC32C");
    reveal_strlit("crc32c");
    reveal_strlit("SHA1");
    reveal_strlit("sha1");
    reveal_strlit("SHA256");
    reveal_strlit("sha256");
    reveal_strlit("CRC64NVME");
    reveal_strlit("crc64nvme");
    match a {
        ChecksumAlgorithmV::CRC32 => {
            assert(spec_lower("CRC32"@) =~= "crc32"@);
        },
        ChecksumAlgorithmV::CRC32C => {
            assert(spec_lower("CRC32C"@) =~= "crc32c"@);
        },
        ChecksumAlgorithmV::SHA1 => {
            assert(spec_lower("SHA1"@) =~= "sha1"@);
        },
        ChecksumAlgorithmV::SHA256 => {
            assert(spec_lower("SHA256"@) =~= "sha256"@);
            assert(("sha256"@)[0] == 's' && ("crc32c"@)[0] == 'c');
            assert("sha256"@ != "crc32c"@);
        },
        ChecksumAlgorithmV::CRC64NVME => {
            assert(spec_lower("CRC64NVME"@) =~= "crc64nvme"@);
        },
        ChecksumAlgorithmV::Alogrithm(s) => {
        },
    }
}

/// The events of a RestoreStatus element after its start tag.
pub open spec fn spec_encode_restore_fields(s: ApiRestoreStatusV) -> Seq<Tok> {
    seq![
        Tok::Start("IsRestoreInProgress"@),
        Tok::Text(if s.is_restore_in_progress {
            "true"@
        } else {
            "false"@
        }),
        Tok::Start("RestoreExpiryDate"@),
        Tok::Text(crate::time::spec_rfc3339(s.restore_expiry_date)),
        Tok::End("RestoreStatus"@),
    ]
}

/// Decoding the encoded fields of a restore status yields it back, at the
/// position right after them.
#[verifier::rlimit(100)]
#[verifier::spinoff_prover]
pub proof fn lemma_encode_restore_round_trip(toks: Seq<Tok>, i: int, s: ApiRestoreStatusV)
    requires
        0 <= i,
        s.restore_expiry_date.wf(),
        i + 5 <= toks.len(),
        toks.subrange(i, i + 5) == spec_encode_restore_fields(s),
    ensures
        spec_restore_loop(toks, i, None, None) == Some((s, i + 5)),
{
    broadcast use vstd::utf8::char_u32_cast;

    reveal_strlit("IsRestoreInProgress");
    reveal_strlit("RestoreExpiryDate");
    reveal_strlit("RestoreStatus");
    reveal_strlit("true");
    reveal_strlit("false");
    let f = spec_encode_restore_fields(s);
    let btext = if s.is_restore_in_progress {
        "true"@
    } else {
        "false"@
    };
    assert(forall|k: int| 0 <= k < 5 ==> #[trigger] toks.subrange(i, i + 5)[k] == toks[i + k]);
    assert(toks[i] == Tok::Start("IsRestoreInProgress"@));
    assert(toks[i + 1] == Tok::Text(btext));
    assert(toks[i + 2] == Tok::Start("RestoreExpiryDate"@));
    assert(toks[i + 3] == Tok::Text(crate::time::spec_rfc3339(s.restore_expiry_date)));
    assert(toks[i + 4] == Tok::End("RestoreStatus"@));
    assert(("IsRestoreInProgress"@).len() == 19 && ("RestoreExpiryDate"@).len() == 17);
    if s.is_restore_in_progress {
        assert(spec_lower("true"@) =~= "true"@);
        assert(spec_parse_bool(toks, i + 1) == Some((true, i + 2)));
    } else {
        assert(spec_lower("false"@) =~= "false"@);
        assert(("false"@)[0] == 'f' && ("true"@)[0] == 't');
        assert("false"@ != "true"@);
        assert(spec_parse_bool(toks, i + 1) == Some((false, i + 2)));
    }
    crate::time::lemma_rfc3339_round_trip(s.restore_expiry_date);
    assert(spec_restore_loop(toks, i + 4, Some(s.is_restore_in_progress), Some(
        s.restore_expiry_date,
    )) == Some(
        (
            ApiRestoreStatusV {
                is_restore_in_progress: s.is_restore_in_progress,
                restore_expiry_date: s.restore_expiry_date,
            },
            i + 5,
        ),
    ));
    assert(spec_restore_loop(toks, i + 2, Some(s.is_restore_in_progress), None)
        == spec_restore_loop(toks, i + 4, Some(s.is_restore_in_progress), Some(
        s.restore_expiry_date,
    )));
    assert(spec_restore_loop(toks, i, None, None) == spec_restore_loop(
        toks,
        i + 2,
        Some(s.is_restore_in_progress),
        None,
    ));
    assert(ApiRestoreStatusV {
        is_restore_in_progress: s.is_restore_in_progress,
        restore_expiry_date: s.restore_expiry_date,
    } == s);
}


/// The text of a checksum type, matched exactly by the decoder.
pub open spec fn spec_checksum_type_str(t: ApiChecksumType) -> Seq<char> {
    match t {
        ApiChecksumType::Composite => "COMPOSITE"@,
        ApiChecksumType::FullObject => "FULL_OBJECT"@,
    }
}

// ----------------------------------------------------------------------------
// One decode step per object field
// ----------------------------------------------------------------------------

proof fn lemma_obj_step_ca(toks: Seq<Tok>, i: int, acc: ApiObjAcc, t: Seq<char>)
    requires
        0 <= i,
        i + 1 < toks.len(),
        toks[i] == Tok::Start("ChecksumAlgorithm"@),
        toks[i + 1] == Tok::Text(t),
    ensures
        spec_object_loop(toks, i, acc) == spec_object_loop(
            toks,
            i + 2,
            ApiObjAcc { checksum_algorithm: Some(spec_checksum_algorithm_of(t)), ..acc },
        ),
{
}

proof fn lemma_obj_step_ct(toks: Seq<Tok>, i: int, acc: ApiObjAcc, ct: ApiChecksumType)
    requires
        0 <= i,
        i + 1 < toks.len(),
        toks[i] == Tok::Start("ChecksumType"@),
        toks[i + 1] == Tok::Text(spec_checksum_type_str(ct)),
    ensures
        spec_object_loop(toks, i, acc) == spec_object_loop(
            toks,
            i + 2,
            ApiObjAcc { checksum_type: Some(ct), ..acc },
        ),
{
    reveal_strlit("ChecksumAlgorithm");
    reveal_strlit("ChecksumType");
    reveal_strlit("COMPOSITE");
    reveal_strlit("FULL_OBJECT");
    assert(("ChecksumAlgorithm"@).len() == 17 && ("ChecksumType"@).len() == 12);
    match ct {
        ApiChecksumType::Composite => {
        },
        ApiChecksumType::FullObject => {
            assert(("FULL_OBJECT"@).len() == 11 && ("COMPOSITE"@).len() == 9);
            assert("FULL_OBJECT"@ != "COMPOSITE"@);
        },
    }
}

proof fn lemma_obj_step_etag(toks: Seq<Tok>, i: int, acc: ApiObjAcc, t: Seq<char>)
    requires
        0 <= i,
        i + 1 < toks.len(),
        toks[i] == Tok::Start("ETag"@),
        toks[i + 1] == Tok::Text(t),
    ensures
        spec_object_loop(toks, i, acc) == spec_object_loop(
            toks,
            i + 2,
            ApiObjAcc { etag: Some(t), ..acc },
        ),
{
    reveal_strlit("ChecksumAlgorithm");
    reveal_strlit("ChecksumType");
    reveal_strlit("ETag");
    assert(("ChecksumAlgorithm"@).len() == 17 && ("ChecksumType"@).len() == 12 && ("ETag"@).len()
        == 4);
}

proof fn lemma_obj_step_key(toks: Seq<Tok>, i: int, acc: ApiObjAcc, t: Seq<char>)
    requires
        0 <= i,
        i + 1 < toks.len(),
        toks[i] == Tok::Start("Key"@),
        toks[i + 1] == Tok::Text(t),
    ensures
        spec_object_loop(toks, i, acc) == spec_object_loop(
            toks,
            i + 2,
            ApiObjAcc { key: Some(t), ..acc },
        ),
{
    reveal_strlit("ChecksumAlgorithm");
    reveal_strlit("ChecksumType");
    reveal_strlit("ETag");
    reveal_strlit("Key");
    assert(("ChecksumAlgorithm"@).len() == 17 && ("ChecksumType"@).len() == 12 && ("ETag"@).len()
        == 4 && ("Key"@).len() == 3);
}

proof fn lemma_obj_step_lm(toks: Seq<Tok>, i: int, acc: ApiObjAcc, ts: Timestamp)
    requires
        0 <= i,
        i + 1 < toks.len(),
        toks[i] == Tok::Start("LastModified"@),
        toks[i + 1] matches Tok::Text(t) && spec_parse_rfc3339(t) == Some(ts),
    ensures
        spec_object_loop(toks, i, acc) == spec_object_loop(
            toks,
            i + 2,
            ApiObjAcc { last_modified: Some(ts), ..acc },
        ),
{
    reveal_strlit("ChecksumAlgorithm");
    reveal_strlit("ChecksumType");
    reveal_strlit("ETag");
    reveal_strlit("Key");
    reveal_strlit("LastModified");
    assert(("ChecksumAlgorithm"@).len() == 17 && ("ChecksumType"@).len() == 12 && ("ETag"@).len()
        == 4 && ("Key"@).len() == 3 && ("LastModified"@).len() == 12);
    assert(("ChecksumType"@)[0] == 'C' && ("LastModified"@)[0] == 'L');
    assert("LastModified"@ != "ChecksumType"@);
}

proof fn lemma_obj_step_size(toks: Seq<Tok>, i: int, acc: ApiObjAcc, v: int)
    requires
        0 <= i,
        i + 1 < toks.len(),
        toks[i] == Tok::Start("Size"@),
        toks[i + 1] matches Tok::Text(t) && spec_parse_usize(t) == Some(v),
    ensures
        spec_object_loop(toks, i, acc) == spec_object_loop(
            toks,
            i + 2,
            ApiObjAcc { size: Some(v), ..acc },
        ),
{
    reveal_strlit("ChecksumAlgorithm");
    reveal_strlit("ChecksumType");
    reveal_strlit("ETag");
    reveal_strlit("Key");
    reveal_strlit("LastModified");
    reveal_strlit("Size");
    assert(("ChecksumAlgorithm"@).len() == 17 && ("ChecksumType"@).len() == 12 && ("ETag"@).len()
        == 4 && ("Key"@).len() == 3 && ("LastModified"@).len() == 12 && ("Size"@).len() == 4);
    assert(("ETag"@)[0] == 'E' && ("Size"@)[0] == 'S');
    assert("Size"@ != "ETag"@);
}

proof fn lemma_obj_step_sc(toks: Seq<Tok>, i: int, acc: ApiObjAcc, t: Seq<char>)
    requires
        0 <= i,
        i + 1 < toks.len(),
        toks[i] == Tok::Start("StorageClass"@),
        toks[i + 1] == Tok::Text(t),
    ensures
        spec_object_loop(toks, i, acc) == spec_object_loop(
            toks,
            i + 2,
            ApiObjAcc { storage_class: Some(spec_storage_class_of(t)), ..acc },
        ),
{
    reveal_strlit("ChecksumAlgorithm");
    reveal_strlit("ChecksumType");
    reveal_strlit("ETag");
    reveal_strlit("Key");
    reveal_strlit("LastModified");
    reveal_strlit("Size");
    reveal_strlit("StorageClass");
    assert(("ChecksumAlgorithm"@).len() == 17 && ("ChecksumType"@).len() == 12 && ("ETag"@).len()
        == 4 && ("Key"@).len() == 3 && ("LastModified"@).len() == 12 && ("Size"@).len() == 4 && (
    "StorageClass"@).len() == 12);
    assert(("ChecksumType"@)[0] == 'C' && ("LastModified"@)[0] == 'L' && ("StorageClass"@)[0]
        == 'S');
    assert("StorageClass"@ != "ChecksumType"@ && "StorageClass"@ != "LastModified"@);
}

proof fn lemma_obj_step_owner(toks: Seq<Tok>, i: int, acc: ApiObjAcc, o: ApiOwnerV, j: int)
    requires
        0 <= i,
        i < toks.len(),
        toks[i] == Tok::Start("Owner"@),
        spec_owner_loop(toks, i + 1, None, None) == Some((o, j)),
    ensures
        spec_object_loop(toks, i, acc) == spec_object_loop(
            toks,
            j,
            ApiObjAcc { owner: Some(o), ..acc },
        ),
{
    reveal_strlit("ChecksumAlgorithm");
    reveal_strlit("ChecksumType");
    reveal_strlit("ETag");
    reveal_strlit("Key");
    reveal_strlit("LastModified");
    reveal_strlit("Size");
    reveal_strlit("StorageClass");
    reveal_strlit("Owner");
    assert(("ChecksumAlgorithm"@).len() == 17 && ("ChecksumType"@).len() == 12 && ("ETag"@).len()
        == 4 && ("Key"@).len() == 3 && ("LastModified"@).len() == 12 && ("Size"@).len() == 4 && (
    "StorageClass"@).len() == 12 && ("Owner"@).len() == 5);
}

proof fn lemma_obj_step_restore(toks: Seq<Tok>, i: int, acc: ApiObjAcc, s: ApiRestoreStatusV, j: int)
    requires
        0 <= i,
        i < toks.len(),
        toks[i] == Tok::Start("RestoreStatus"@),
        spec_restore_loop(toks, i + 1, None, None) == Some((s, j)),
    ensures
        spec_object_loop(toks, i, acc) == spec_object_loop(
            toks,
            j,
            ApiObjAcc { restore_status: Some(s), ..acc },
        ),
{
    reveal_strlit("ChecksumAlgorithm");
    reveal_strlit("ChecksumType");
    reveal_strlit("ETag");
    reveal_strlit("Key");
    reveal_strlit("LastModified");
    reveal_strlit("Size");
    reveal_strlit("StorageClass");
    reveal_strlit("Owner");
    reveal_strlit("RestoreStatus");
    assert(("ChecksumAlgorithm"@).len() == 17 && ("ChecksumType"@).len() == 12 && ("ETag"@).len()
        == 4 && ("Key"@).len() == 3 && ("LastModified"@).len() == 12 && ("Size"@).len() == 4 && (
    "StorageClass"@).len() == 12 && ("Owner"@).len() == 5 && ("RestoreStatus"@).len() == 13);
}

proof fn lemma_obj_step_end(toks: Seq<Tok>, i: int, acc: ApiObjAcc, o: ApiObjectV)
    requires
        0 <= i,
        i < toks.len(),
        toks[i] == Tok::End("Contents"@),
        acc == (ApiObjAcc {
            checksum_algorithm: o.checksum_algorithm,
            checksum_type: o.checksum_type,
            etag: Some(o.etag),
            key: Some(o.key),
            last_modified: Some(o.last_modified),
            owner: o.owner,
            restore_status: o.restore_status,
            size: Some(o.size),
            storage_class: Some(o.storage_class),
        }),
    ensures
        spec_object_loop(toks, i, acc) == Some((o, i + 1)),
{
    assert(ApiObjectV {
        checksum_algorithm: acc.checksum_algorithm,
        checksum_type: acc.checksum_type,
        etag: o.etag,
        key: o.key,
        last_modified: o.last_modified,
        owner: acc.owner,
        restore_status: acc.restore_status,
        size: o.size,
        storage_class: o.storage_class,
    } == o);
}



/// The events of one Contents entry after its start tag: the optional
/// checksum fields, the five required fields, the optional owner and
/// restore status, and the closing tag.
pub open spec fn spec_encode_object_fields(o: ApiObjectV) -> Seq<Tok> {
    (match o.checksum_algorithm {
        Some(a) => seq![Tok::Start("ChecksumAlgorithm"@), Tok::Text(spec_checksum_algorithm_str(a))],
        None => Seq::<Tok>::empty(),
    }) + (match o.checksum_type {
        Some(t) => seq![Tok::Start("ChecksumType"@), Tok::Text(spec_checksum_type_str(t))],
        None => Seq::<Tok>::empty(),
    }) + seq![
        Tok::Start("ETag"@),
        Tok::Text(o.etag),
        Tok::Start("Key"@),
        Tok::Text(o.key),
        Tok::Start("LastModified"@),
        Tok::Text(crate::time::spec_rfc3339(o.last_modified)),
        Tok::Start("Size"@),
        Tok::Text(crate::text::spec_udec(o.size as nat)),
        Tok::Start("StorageClass"@),
        Tok::Text(crate::api::x_amz_headers::spec_storage_class_str(o.storage_class)),
    ] + (match o.owner {
        Some(ow) => spec_encode_owner(ow),
        None => Seq::<Tok>::empty(),
    }) + (match o.restore_status {
        Some(rs) => seq![Tok::Start("RestoreStatus"@)] + spec_encode_restore_fields(rs),
        None => Seq::<Tok>::empty(),
    }) + seq![Tok::End("Contents"@)]
}

/// An object the encoder can spell out faithfully: a well-formed
/// modification time, a representable size, named checksum and storage
/// classes, and a well-formed restore expiry when one is present.
pub open spec fn object_wf(o: ApiObjectV) -> bool {
    &&& o.last_modified.wf()
    &&& 0 <= o.size <= usize::MAX
    &&& !(o.storage_class is StorageClass)
    &&& match o.checksum_algorithm {
        Some(a) => !(a is Alogrithm),
        None => true,
    }
    &&& match o.restore_status {
        Some(rs) => rs.restore_expiry_date.wf(),
        None => true,
    }
}

/// The length of the encoded checksum fields and required fields of an
/// object, before the optional owner and restore status.
pub open spec fn spec_obj_front_len(o: ApiObjectV) -> int {
    (match o.checksum_algorithm {
        Some(a) => 2int,
        None => 0int,
    }) + (match o.checksum_type {
        Some(t) => 2int,
        None => 0int,
    }) + 10
}

/// The decode state after the checksum fields and the five required fields.
pub open spec fn spec_obj_front_acc(o: ApiObjectV) -> ApiObjAcc {
    ApiObjAcc {
        checksum_algorithm: o.checksum_algorithm,
        checksum_type: o.checksum_type,
        etag: Some(o.etag),
        key: Some(o.key),
        last_modified: Some(o.last_modified),
        owner: None,
        restore_status: None,
        size: Some(o.size),
        storage_class: Some(o.storage_class),
    }
}

/// Decoding the front of an encoded object reaches the state with its
/// checksum fields and required fields filled in.
#[verifier::rlimit(100)]
#[verifier::spinoff_prover]
proof fn lemma_encode_object_front(toks: Seq<Tok>, i: int, o: ApiObjectV)
    requires
        0 <= i,
        object_wf(o),
        i + spec_encode_object_fields(o).len() <= toks.len(),
        toks.subrange(i, i + spec_encode_object_fields(o).len() as int) == spec_encode_object_fields(
            o,
        ),
    ensures
        spec_object_loop(toks, i, empty_obj_acc()) == spec_object_loop(
            toks,
            i + spec_obj_front_len(o),
            spec_obj_front_acc(o),
        ),
{
    let f = spec_encode_object_fields(o);
    let ca_seg = (match o.checksum_algorithm {
        Some(a) => seq![Tok::Start("ChecksumAlgorithm"@), Tok::Text(spec_checksum_algorithm_str(a))],
        None => Seq::<Tok>::empty(),
    });
    let ct_seg = (match o.checksum_type {
        Some(t) => seq![Tok::Start("ChecksumType"@), Tok::Text(spec_checksum_type_str(t))],
        None => Seq::<Tok>::empty(),
    });
    let mid_seg = seq![
        Tok::Start("ETag"@),
        Tok::Text(o.etag),
        Tok::Start("Key"@),
        Tok::Text(o.key),
        Tok::Start("LastModified"@),
        Tok::Text(crate::time::spec_rfc3339(o.last_modified)),
        Tok::Start("Size"@),
        Tok::Text(crate::text::spec_udec(o.size as nat)),
        Tok::Start("StorageClass"@),
        Tok::Text(crate::api::x_amz_headers::spec_storage_class_str(o.storage_class)),
    ];
    let o1 = i + ca_seg.len() as int;
    let o2 = o1 + ct_seg.len() as int;
    let o3 = o2 + 10;
    assert forall|k: int| 0 <= k < f.len() implies toks[i + k] == #[trigger] f[k] by {
        assert(toks.subrange(i, i + f.len() as int)[k] == toks[i + k]);
    }
    assert forall|k: int| 0 <= k < ca_seg.len() implies toks[i + k] == #[trigger] ca_seg[k] by {
        assert(f[k] == ca_seg[k]);
    }
    assert forall|k: int| 0 <= k < ct_seg.len() implies toks[o1 + k] == #[trigger] ct_seg[k] by {
        assert(toks[o1 + k] == f[o1 - i + k]);
        assert(f[o1 - i + k] == ct_seg[k]);
    }
    assert forall|k: int| 0 <= k < 10 implies toks[o2 + k] == #[trigger] mid_seg[k] by {
        assert(toks[o2 + k] == f[o2 - i + k]);
        assert(f[o2 - i + k] == mid_seg[k]);
    }
    // the checksum algorithm, if present
    let acc0 = empty_obj_acc();
    let acc1 = (match o.checksum_algorithm {
        Some(a) => ApiObjAcc { checksum_algorithm: Some(a), ..acc0 },
        None => acc0,
    });
    match o.checksum_algorithm {
        Some(a) => {
            lemma_checksum_algorithm_round_trip(a);
            lemma_obj_step_ca(toks, i, acc0, spec_checksum_algorithm_str(a));
        },
        None => {},
    }
    assert(spec_object_loop(toks, i, acc0) == spec_object_loop(toks, o1, acc1));
    // the checksum type, if present
    let acc2 = (match o.checksum_type {
        Some(t) => ApiObjAcc { checksum_type: Some(t), ..acc1 },
        None => acc1,
    });
    match o.checksum_type {
        Some(t) => {
            lemma_obj_step_ct(toks, o1, acc1, t);
        },
        None => {},
    }
    assert(spec_object_loop(toks, o1, acc1) == spec_object_loop(toks, o2, acc2));
    // the five required fields
    let acc3 = ApiObjAcc { etag: Some(o.etag), ..acc2 };
    lemma_obj_step_etag(toks, o2, acc2, o.etag);
    let acc4 = ApiObjAcc { key: Some(o.key), ..acc3 };
    lemma_obj_step_key(toks, o2 + 2, acc3, o.key);
    let acc5 = ApiObjAcc { last_modified: Some(o.last_modified), ..acc4 };
    crate::time::lemma_rfc3339_round_trip(o.last_modified);
    lemma_obj_step_lm(toks, o2 + 4, acc4, o.last_modified);
    let acc6 = ApiObjAcc { size: Some(o.size), ..acc5 };
    crate::text::lemma_udec_round_trip(o.size as nat);
    lemma_obj_step_size(toks, o2 + 6, acc5, o.size);
    let acc7 = ApiObjAcc { storage_class: Some(o.storage_class), ..acc6 };
    crate::api::x_amz_headers::lemma_storage_class_round_trip(o.storage_class);
    lemma_obj_step_sc(
        toks,
        o2 + 8,
        acc6,
        crate::api::x_amz_headers::spec_storage_class_str(o.storage_class),
    );
    assert(spec_object_loop(toks, o2, acc2) == spec_object_loop(toks, o3, acc7));
    assert(acc7 == spec_obj_front_acc(o));
    assert(o3 == i + spec_obj_front_len(o));
}

/// The encoded owner section of an object.
pub open spec fn spec_obj_ow_seg(o: ApiObjectV) -> Seq<Tok> {
    match o.owner {
        Some(ow) => spec_encode_owner(ow),
        None => Seq::<Tok>::empty(),
    }
}

/// The encoded restore-status section of an object.
pub open spec fn spec_obj_rs_seg(o: ApiObjectV) -> Seq<Tok> {
    match o.restore_status {
        Some(rs) => seq![Tok::Start("RestoreStatus"@)] + spec_encode_restore_fields(rs),
        None => Seq::<Tok>::empty(),
    }
}

/// Where the owner section, the restore section and the closing tag of an
/// encoded object stand.
#[verifier::rlimit(100)]
#[verifier::spinoff_prover]
proof fn lemma_object_back_layout(toks: Seq<Tok>, i: int, o: ApiObjectV)
    requires
        0 <= i,
        i + spec_encode_object_fields(o).len() <= toks.len(),
        toks.subrange(i, i + spec_encode_object_fields(o).len() as int) == spec_encode_object_fields(
            o,
        ),
    ensures
        spec_encode_object_fields(o).len() == spec_obj_front_len(o) + spec_obj_ow_seg(o).len()
            + spec_obj_rs_seg(o).len() + 1,
        forall|k: int|
            0 <= k < spec_obj_ow_seg(o).len() ==> toks[i + spec_obj_front_len(o) + k]
                == #[trigger] spec_obj_ow_seg(o)[k],
        forall|k: int|
            0 <= k < spec_obj_rs_seg(o).len() ==> toks[i + spec_obj_front_len(o) + spec_obj_ow_seg(
                o,
            ).len() + k] == #[trigger] spec_obj_rs_seg(o)[k],
        toks[i + spec_obj_front_len(o) + spec_obj_ow_seg(o).len() + spec_obj_rs_seg(o).len()]
            == Tok::End("Contents"@),
{
    let f = spec_encode_object_fields(o);
    let ow_seg = spec_obj_ow_seg(o);
    let rs_seg = spec_obj_rs_seg(o);
    let o3 = i + spec_obj_front_len(o);
    let o4 = o3 + ow_seg.len() as int;
    let o5 = o4 + rs_seg.len() as int;
    assert(f.len() == spec_obj_front_len(o) + ow_seg.len() + rs_seg.len() + 1);
    assert forall|k: int| 0 <= k < f.len() implies toks[i + k] == #[trigger] f[k] by {
        assert(toks.subrange(i, i + f.len() as int)[k] == toks[i + k]);
    }
    assert forall|k: int| 0 <= k < ow_seg.len() implies toks[o3 + k] == #[trigger] ow_seg[k] by {
        assert(toks[o3 + k] == f[o3 - i + k]);
        assert(f[o3 - i + k] == ow_seg[k]);
    }
    assert forall|k: int| 0 <= k < rs_seg.len() implies toks[o4 + k] == #[trigger] rs_seg[k] by {
        assert(toks[o4 + k] == f[o4 - i + k]);
        assert(f[o4 - i + k] == rs_seg[k]);
    }
    assert(toks[o5] == f[o5 - i]);
    assert(toks[o5] == Tok::End("Contents"@));
}

/// Decoding the owner section of an encoded object fills the owner in.
#[verifier::rlimit(100)]
#[verifier::spinoff_prover]
proof fn lemma_encode_object_owner_part(toks: Seq<Tok>, i: int, o: ApiObjectV, acc: ApiObjAcc)
    requires
        0 <= i,
        object_wf(o),
        i + spec_encode_object_fields(o).len() <= toks.len(),
        toks.subrange(i, i + spec_encode_object_fields(o).len() as int) == spec_encode_object_fields(
            o,
        ),
        acc.owner is None,
    ensures
        spec_object_loop(toks, i + spec_obj_front_len(o), acc) == spec_object_loop(
            toks,
            i + spec_obj_front_len(o) + spec_obj_ow_seg(o).len(),
            (ApiObjAcc { owner: o.owner, ..acc }),
        ),
{
    lemma_object_back_layout(toks, i, o);
    let ow_seg = spec_obj_ow_seg(o);
    let o3 = i + spec_obj_front_len(o);
    let o4 = o3 + ow_seg.len() as int;
    match o.owner {
        Some(ow) => {
            assert(ow_seg == seq![Tok::Start("Owner"@)] + spec_encode_owner_fields(ow));
            assert(toks[o3] == ow_seg[0]);
            assert(toks[o3] == Tok::Start("Owner"@));
            assert(toks.subrange(o3 + 1, o3 + 1 + spec_encode_owner_fields(ow).len() as int)
                =~= spec_encode_owner_fields(ow)) by {
                assert(forall|k: int|
                    0 <= k < spec_encode_owner_fields(ow).len() ==> #[trigger] toks.subrange(
                        o3 + 1,
                        o3 + 1 + spec_encode_owner_fields(ow).len() as int,
                    )[k] == toks[o3 + 1 + k]);
                assert(forall|k: int|
                    0 <= k < spec_encode_owner_fields(ow).len() ==> ow_seg[1 + k]
                        == #[trigger] spec_encode_owner_fields(ow)[k]);
            }
            lemma_encode_owner_round_trip(toks, o3 + 1, ow);
            lemma_obj_step_owner(toks, o3, acc, ow, o4);
            assert(ApiObjAcc { owner: Some(ow), ..acc } == (ApiObjAcc { owner: o.owner, ..acc }));
        },
        None => {
            assert(ApiObjAcc { owner: o.owner, ..acc } == acc);
        },
    }
}

/// Decoding the restore section of an encoded object fills the restore
/// status in.
#[verifier::rlimit(100)]
#[verifier::spinoff_prover]
proof fn lemma_encode_object_restore_part(toks: Seq<Tok>, i: int, o: ApiObjectV, acc: ApiObjAcc)
    requires
        0 <= i,
        object_wf(o),
        i + spec_encode_object_fields(o).len() <= toks.len(),
        toks.subrange(i, i + spec_encode_object_fields(o).len() as int) == spec_encode_object_fields(
            o,
        ),
        acc.restore_status is None,
    ensures
        spec_object_loop(toks, i + spec_obj_front_len(o) + spec_obj_ow_seg(o).len(), acc)
            == spec_object_loop(
            toks,
            i + spec_obj_front_len(o) + spec_obj_ow_seg(o).len() + spec_obj_rs_seg(o).len(),
            (ApiObjAcc { restore_status: o.restore_status, ..acc }),
        ),
{
    lemma_object_back_layout(toks, i, o);
    let rs_seg = spec_obj_rs_seg(o);
    let o4 = i + spec_obj_front_len(o) + spec_obj_ow_seg(o).len() as int;
    let o5 = o4 + rs_seg.len() as int;
    match o.restore_status {
        Some(rs) => {
            assert(toks[o4] == rs_seg[0]);
            assert(toks[o4] == Tok::Start("RestoreStatus"@));
            assert(toks.subrange(o4 + 1, o4 + 6) =~= spec_encode_restore_fields(rs)) by {
                assert(forall|k: int|
                    0 <= k < 5 ==> #[trigger] toks.subrange(o4 + 1, o4 + 6)[k] == toks[o4 + 1 + k]);
                assert(forall|k: int|
                    0 <= k < 5 ==> rs_seg[1 + k] == #[trigger] spec_encode_restore_fields(rs)[k]);
            }
            lemma_encode_restore_round_trip(toks, o4 + 1, rs);
            lemma_obj_step_restore(toks, o4, acc, rs, o5);
            assert(ApiObjAcc { restore_status: Some(rs), ..acc } == (ApiObjAcc {
                restore_status: o.restore_status,
                ..acc
            }));
        },
        None => {
            assert(ApiObjAcc { restore_status: o.restore_status, ..acc } == acc);
        },
    }
}

/// Decoding the encoded fields of an object yields that object back, at the
/// position right after them: the object record round-trips through the
/// decoder's own vocabulary.
#[verifier::rlimit(100)]
#[verifier::spinoff_prover]
pub proof fn lemma_encode_object_round_trip(toks: Seq<Tok>, i: int, o: ApiObjectV)
    requires
        0 <= i,
        object_wf(o),
        i + spec_encode_object_fields(o).len() <= toks.len(),
        toks.subrange(i, i + spec_encode_object_fields(o).len() as int) == spec_encode_object_fields(
            o,
        ),
    ensures
        spec_object_loop(toks, i, empty_obj_acc()) == Some(
            (o, i + spec_encode_object_fields(o).len() as int),
        ),
{
    lemma_encode_object_front(toks, i, o);
    lemma_object_back_layout(toks, i, o);
    let acc7 = spec_obj_front_acc(o);
    lemma_encode_object_owner_part(toks, i, o, acc7);
    let acc8 = ApiObjAcc { owner: o.owner, ..acc7 };
    lemma_encode_object_restore_part(toks, i, o, acc8);
    let acc9 = ApiObjAcc { restore_status: o.restore_status, ..acc8 };
    let o5 = i + spec_obj_front_len(o) + spec_obj_ow_seg(o).len() + spec_obj_rs_seg(o).len();
    lemma_obj_step_end(toks, o5, acc9, o);
}

} // verus!
