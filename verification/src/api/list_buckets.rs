use vstd::prelude::*;
use crate::api::{
    lemma_bucket_loop_advances, lemma_owner_loop_advances, spec_bucket_loop, spec_owner_loop,
    spec_parse_value, ApiBucket, ApiBucketV, ApiOwner, ApiOwnerV, Method, S3RequestBuilder,
    S3RequestBuilderV, S3RequestData, S3ResponseData, Scheme,
};
use crate::api::x_amz_headers::opt_str_view;
use crate::encode::{spec_percent_encode_path, spec_percent_encode_query};
use crate::error::S3Error;
use crate::order::str_eq;
use crate::text::{i32_to_string, spec_idec};
use crate::xml_tokens::{xml_tokens_of, Tok, XmlReader, XmlToken};

verus! {

/// Listing of the caller's buckets.
pub struct ListBucketsRequest {
    pub bucket_region: Option<String>,
    pub token: Option<String>,
    pub max_buckets: Option<i32>,
    pub prefix: Option<String>,
}

pub struct ListBucketsRequestV {
    pub bucket_region: Option<Seq<char>>,
    pub token: Option<Seq<char>>,
    pub max_buckets: Option<i32>,
    pub prefix: Option<Seq<char>>,
}

impl View for ListBucketsRequest {
    type V = ListBucketsRequestV;

    open spec fn view(&self) -> ListBucketsRequestV {
        ListBucketsRequestV {
            bucket_region: opt_str_view(self.bucket_region),
            token: opt_str_view(self.token),
            max_buckets: self.max_buckets,
            prefix: opt_str_view(self.prefix),
        }
    }
}

impl Default for ListBucketsRequest {
    /// A listing with no filter.
    fn default() -> (r: Self)
        ensures
            r@ == (ListBucketsRequestV {
                bucket_region: None,
                token: None,
                max_buckets: None,
                prefix: None,
            }),
    {
        Self { bucket_region: None, token: None, max_buckets: None, prefix: None }
    }
}

/// The query list of a bucket listing, each pair percent-encoded.
pub open spec fn spec_list_buckets_query(v: ListBucketsRequestV) -> Seq<(Seq<char>, Seq<char>)> {
    (match v.bucket_region {
        Some(r) => seq![
            (spec_percent_encode_query("bucket-region"@), spec_percent_encode_query(r)),
        ],
        None => Seq::empty(),
    }) + (match v.token {
        Some(t) => seq![
            (spec_percent_encode_query("continuation-token"@), spec_percent_encode_query(t)),
        ],
        None => Seq::empty(),
    }) + (match v.max_buckets {
        Some(n) => seq![
            (spec_percent_encode_query("max-buckets"@), spec_percent_encode_query(spec_idec(n as int))),
        ],
        None => Seq::empty(),
    }) + (match v.prefix {
        Some(p) => seq![(spec_percent_encode_query("prefix"@), spec_percent_encode_query(p))],
        None => Seq::empty(),
    })
}

/// The builder state a bucket listing describes.
pub open spec fn spec_list_buckets_builder(
    v: ListBucketsRequestV,
    access_key: Seq<char>,
    secret_key: Seq<char>,
    region: Seq<char>,
    endpoint: Seq<char>,
) -> S3RequestBuilderV {
    S3RequestBuilderV {
        method: Method::GET,
        action: spec_percent_encode_path("/"@),
        query: spec_list_buckets_query(v),
        headers: Seq::empty(),
        x_amz_headers: Seq::empty(),
        access_key: access_key,
        secret_key: secret_key,
        region: region,
        endpoint: endpoint,
        scheme: Scheme::HTTPS,
        body: None,
    }
}

impl ListBucketsRequest {
    /// Describe the request to the builder.  A bucket cap outside 1..=10000
    /// is a validation error.
    pub fn into_builder(
        &self,
        access_key: &str,
        secret_key: &str,
        region: &str,
        endpoint: &str,
    ) -> (r: Result<S3RequestBuilder<ListBucketsResponse>, S3Error>)
        ensures
            r is Err <==> (self@.max_buckets matches Some(n) && !(1 <= n <= 10000)),
            r matches Err(e) ==> e == S3Error::ValidationError,
            r matches Ok(b) ==> b@ == spec_list_buckets_builder(
                self@,
                access_key@,
                secret_key@,
                region@,
                endpoint@,
            ),
    {
        let mut builder = S3RequestBuilder::<ListBucketsResponse>::new(
            Method::GET,
            "/",
            access_key,
            secret_key,
            region,
            endpoint,
        );
        if let Some(bucket_region) = &self.bucket_region {
            builder.query("bucket-region", Some(bucket_region.as_str()));
        }
        if let Some(token) = &self.token {
            builder.query("continuation-token", Some(token.as_str()));
        }
        if let Some(max_buckets) = self.max_buckets {
            if 1 <= max_buckets && max_buckets <= 10000 {
                let mb = i32_to_string(max_buckets);
                builder.query("max-buckets", Some(mb.as_str()));
            } else {
                return Err(S3Error::ValidationError);
            }
        }
        if let Some(prefix) = &self.prefix {
            builder.query("prefix", Some(prefix.as_str()));
        }
        proof {
            assert(builder@.query =~= spec_list_buckets_query(self@));
        }
        Ok(builder)
    }
}

impl S3RequestData for ListBucketsRequest {
    type ResponseType = ListBucketsResponse;

    fn into_builder(
        &self,
        access_key: &str,
        secret_key: &str,
        region: &str,
        endpoint: &str,
    ) -> Result<S3RequestBuilder<ListBucketsResponse>, S3Error> {
        ListBucketsRequest::into_builder(self, access_key, secret_key, region, endpoint)
    }
}

/// The buckets of the caller, with their owner.
pub struct ListBucketsResponse {
    pub continuation_token: Option<String>,
    pub buckets: Vec<ApiBucket>,
    pub owner: ApiOwner,
    pub prefix: Option<String>,
}

pub struct ListBucketsResponseV {
    pub continuation_token: Option<Seq<char>>,
    pub buckets: Seq<ApiBucketV>,
    pub owner: ApiOwnerV,
    pub prefix: Option<Seq<char>>,
}

impl View for ListBucketsResponse {
    type V = ListBucketsResponseV;

    open spec fn view(&self) -> ListBucketsResponseV {
        ListBucketsResponseV {
            continuation_token: opt_str_view(self.continuation_token),
            buckets: self.buckets@.map_values(|b: ApiBucket| b@),
            owner: self.owner@,
            prefix: opt_str_view(self.prefix),
        }
    }
}

// ----------------------------------------------------------------------------
// Decoding
// ----------------------------------------------------------------------------

/// The repeated Bucket entries of the Buckets section: each start tag opens
/// one bucket; the section's own end tag closes the list.
pub open spec fn spec_buckets_section(toks: Seq<Tok>, i: int, acc: Seq<ApiBucketV>) -> Option<
    (Seq<ApiBucketV>, int),
>
    decreases toks.len() - i,
    via spec_buckets_section_dec
{
    if i < 0 || i >= toks.len() {
        None
    } else {
        match toks[i] {
            Tok::End(n) => {
                if n == "Buckets"@ {
                    Some((acc, i + 1))
                } else {
                    spec_buckets_section(toks, i + 1, acc)
                }
            },
            Tok::Start(n) => {
                match spec_bucket_loop(toks, i + 1, None, None, None) {
                    Some((b, j)) => spec_buckets_section(toks, j, acc.push(b)),
                    None => None,
                }
            },
            _ => spec_buckets_section(toks, i + 1, acc),
        }
    }
}

#[via_fn]
proof fn spec_buckets_section_dec(toks: Seq<Tok>, i: int, acc: Seq<ApiBucketV>) {
    if 0 <= i < toks.len() {
        lemma_bucket_loop_advances(toks, i + 1, None, None, None);
    }
}

/// A successful section decode always moves forward and stays within the
/// token list.
pub proof fn lemma_buckets_section_advances(toks: Seq<Tok>, i: int, acc: Seq<ApiBucketV>)
    ensures
        spec_buckets_section(toks, i, acc) matches Some((bs, j)) ==> i < j <= toks.len(),
    decreases toks.len() - i,
{
    if 0 <= i < toks.len() {
        lemma_bucket_loop_advances(toks, i + 1, None, None, None);
        match toks[i] {
            Tok::Start(n) => {
                match spec_bucket_loop(toks, i + 1, None, None, None) {
                    Some((b, j)) => {
                        lemma_buckets_section_advances(toks, j, acc.push(b));
                    },
                    None => {},
                }
            },
            _ => {
                lemma_buckets_section_advances(toks, i + 1, acc);
            },
        }
    }
}

/// The top-level decode loop of a ListBucketsResult body: it finishes at
/// the document end, where the owner must have been seen; the other
/// sections stay at their defaults when absent.
pub open spec fn spec_list_buckets_loop(
    toks: Seq<Tok>,
    i: int,
    token: Option<Seq<char>>,
    prefix: Option<Seq<char>>,
    owner: Option<ApiOwnerV>,
    buckets: Seq<ApiBucketV>,
) -> Option<(ListBucketsResponseV, int)>
    decreases toks.len() - i,
    via spec_list_buckets_loop_dec
{
    if i < 0 || i >= toks.len() {
        None
    } else {
        match toks[i] {
            Tok::DocEnd => {
                match owner {
                    Some(o) => Some(
                        (
                            ListBucketsResponseV {
                                continuation_token: token,
                                buckets: buckets,
                                owner: o,
                                prefix: prefix,
                            },
                            i + 1,
                        ),
                    ),
                    None => None,
                }
            },
            Tok::Start(n) => {
                if n == "Prefix"@ {
                    if i + 1 < toks.len() {
                        match spec_parse_value(toks, i + 1) {
                            Some((t, j)) => spec_list_buckets_loop(
                                toks,
                                i + 2,
                                token,
                                Some(t),
                                owner,
                                buckets,
                            ),
                            None => None,
                        }
                    } else {
                        None
                    }
                } else if n == "ContinuationToken"@ {
                    if i + 1 < toks.len() {
                        match spec_parse_value(toks, i + 1) {
                            Some((t, j)) => spec_list_buckets_loop(
                                toks,
                                i + 2,
                                Some(t),
                                prefix,
                                owner,
                                buckets,
                            ),
                            None => None,
                        }
                    } else {
                        None
                    }
                } else if n == "Owner"@ {
                    match spec_owner_loop(toks, i + 1, None, None) {
                        Some((o, j)) => spec_list_buckets_loop(
                            toks,
                            j,
                            token,
                            prefix,
                            Some(o),
                            buckets,
                        ),
                        None => None,
                    }
                } else if n == "Buckets"@ {
                    match spec_buckets_section(toks, i + 1, buckets) {
                        Some((bs, j)) => spec_list_buckets_loop(toks, j, token, prefix, owner, bs),
                        None => None,
                    }
                } else {
                    spec_list_buckets_loop(toks, i + 1, token, prefix, owner, buckets)
                }
            },
            _ => spec_list_buckets_loop(toks, i + 1, token, prefix, owner, buckets),
        }
    }
}

#[via_fn]
proof fn spec_list_buckets_loop_dec(
    toks: Seq<Tok>,
    i: int,
    token: Option<Seq<char>>,
    prefix: Option<Seq<char>>,
    owner: Option<ApiOwnerV>,
    buckets: Seq<ApiBucketV>,
) {
    if 0 <= i < toks.len() {
        lemma_owner_loop_advances(toks, i + 1, None, None);
        lemma_buckets_section_advances(toks, i + 1, buckets);
    }
}

/// Decode the repeated Bucket entries of one Buckets section, from right
/// after its start tag, appending to the list.
#[verifier::rlimit(100)]
#[verifier::spinoff_prover]
fn parse_buckets_section(parser: &mut XmlReader, buckets: &mut Vec<ApiBucket>) -> (r: Result<
    (),
    S3Error,
>)
    requires
        old(parser).wf(),
    ensures
        final(parser).wf(),
        final(parser).toks() == old(parser).toks(),
        r is Ok ==> spec_buckets_section(
            old(parser).toks(),
            old(parser).pos(),
            old(buckets)@.map_values(|b: ApiBucket| b@),
        ) == Some((final(buckets)@.map_values(|b: ApiBucket| b@), final(parser).pos())),
        r is Err ==> spec_buckets_section(
            old(parser).toks(),
            old(parser).pos(),
            old(buckets)@.map_values(|b: ApiBucket| b@),
        ) is None,
        r matches Err(e) ==> e == S3Error::DecodeError,
        old(parser).pos() <= final(parser).pos(),
{
    let ghost toks = old(parser).toks();
    let ghost p0 = old(parser).pos();
    let ghost acc0 = old(buckets)@.map_values(|b: ApiBucket| b@);
    loop
        invariant
            toks == old(parser).toks(),
            p0 == old(parser).pos(),
            acc0 == old(buckets)@.map_values(|b: ApiBucket| b@),
            parser.wf(),
            parser.toks() == toks,
            p0 <= parser.pos(),
            spec_buckets_section(toks, p0, acc0) == spec_buckets_section(
                toks,
                parser.pos(),
                buckets@.map_values(|b: ApiBucket| b@),
            ),
        decreases toks.len() - parser.pos(),
    {
        match parser.next() {
            None => {
                return Err(S3Error::DecodeError);
            },
            Some(XmlToken::End(n)) => {
                if str_eq(n.as_str(), "Buckets") {
                    return Ok(());
                }
            },
            Some(XmlToken::Start(_)) => {
                let ghost before = buckets@.map_values(|b: ApiBucket| b@);
                let b = ApiBucket::parse(parser)?;
                buckets.push(b);
                proof {
                    assert(buckets@.map_values(|bb: ApiBucket| bb@) =~= before.push(b@));
                }
            },
            Some(_) => {},
        }
    }
}

impl ListBucketsResponse {
    /// Decode the token stream of a ListBucketsResult body.
    #[verifier::rlimit(100)]
    #[verifier::spinoff_prover]
    pub fn parse_tokens(parser: &mut XmlReader) -> (r: Result<ListBucketsResponse, S3Error>)
        requires
            old(parser).wf(),
        ensures
            final(parser).wf(),
            final(parser).toks() == old(parser).toks(),
            r matches Ok(resp) ==> spec_list_buckets_loop(
                old(parser).toks(),
                old(parser).pos(),
                None,
                None,
                None,
                Seq::empty(),
            ) == Some((resp@, final(parser).pos())),
            r is Err ==> spec_list_buckets_loop(
                old(parser).toks(),
                old(parser).pos(),
                None,
                None,
                None,
                Seq::empty(),
            ) is None,
            r matches Err(e) ==> e == S3Error::DecodeError,
    {
        let ghost toks = old(parser).toks();
        let ghost p0 = old(parser).pos();
        let mut token: Option<String> = None;
        let mut prefix: Option<String> = None;
        let mut owner: Option<ApiOwner> = None;
        let mut buckets: Vec<ApiBucket> = Vec::new();
        proof {
            assert(buckets@.map_values(|b: ApiBucket| b@) =~= Seq::<ApiBucketV>::empty());
        }
        loop
            invariant
                toks == old(parser).toks(),
                p0 == old(parser).pos(),
                parser.wf(),
                parser.toks() == toks,
                p0 <= parser.pos(),
                spec_list_buckets_loop(toks, p0, None, None, None, Seq::empty())
                    == spec_list_buckets_loop(
                    toks,
                    parser.pos(),
                    opt_str_view(token),
                    opt_str_view(prefix),
                    match owner {
                        Some(ref o) => Some(o@),
                        None => None,
                    },
                    buckets@.map_values(|b: ApiBucket| b@),
                ),
            decreases toks.len() - parser.pos(),
        {
            match parser.next() {
                None => {
                    return Err(S3Error::DecodeError);
                },
                Some(XmlToken::DocEnd) => {
                    match owner {
                        Some(o) => {
                            return Ok(
                                ListBucketsResponse {
                                    continuation_token: token,
                                    buckets,
                                    owner: o,
                                    prefix,
                                },
                            );
                        },
                        None => {
                            return Err(S3Error::DecodeError);
                        },
                    }
                },
                Some(XmlToken::Start(n)) => {
                    if str_eq(n.as_str(), "Prefix") {
                        let t = crate::api::parse_xml_string(parser, "Prefix")?;
                        prefix = Some(t);
                    } else if str_eq(n.as_str(), "ContinuationToken") {
                        let t = crate::api::parse_xml_string(parser, "ContinuationToken")?;
                        token = Some(t);
                    } else if str_eq(n.as_str(), "Owner") {
                        let o = ApiOwner::parse(parser)?;
                        owner = Some(o);
                    } else if str_eq(n.as_str(), "Buckets") {
                        parse_buckets_section(parser, &mut buckets)?;
                    }
                },
                Some(_) => {},
            }
        }
    }

    /// Decode a ListBucketsResult body: exactly the record its tokenization
    /// decodes to.  Bytes that are not well-formed XML, a missing required
    /// field or an unparsable literal are a decode error, with no partial
    /// result.
    pub fn parse_body(data: &[u8]) -> (r: Result<ListBucketsResponse, S3Error>)
        ensures
            r matches Ok(resp) ==> (xml_tokens_of(data@) matches Some(ts)
                && spec_list_buckets_loop(ts, 0, None, None, None, Seq::empty()) matches Some(p)
                && p.0 == resp@),
            xml_tokens_of(data@) is None ==> r is Err,
            (xml_tokens_of(data@) matches Some(ts) && spec_list_buckets_loop(
                ts,
                0,
                None,
                None,
                None,
                Seq::empty(),
            ) is None) ==> r is Err,
            (xml_tokens_of(data@) matches Some(ts) && spec_list_buckets_loop(
                ts,
                0,
                None,
                None,
                None,
                Seq::empty(),
            ) is Some) ==> r is Ok,
            r matches Err(e) ==> e == S3Error::DecodeError,
    {
        let mut parser = XmlReader::from_bytes(data)?;
        ListBucketsResponse::parse_tokens(&mut parser)
    }
}

impl S3ResponseData for ListBucketsResponse {
    fn parse_body(data: &[u8]) -> Result<ListBucketsResponse, S3Error> {
        ListBucketsResponse::parse_body(data)
    }
}

// ----------------------------------------------------------------------------
// Encoding into the decoder's own vocabulary
// ----------------------------------------------------------------------------

/// The events of one Bucket element.
pub open spec fn spec_encode_bucket(b: ApiBucketV) -> Seq<Tok> {
    seq![Tok::Start("Bucket"@)] + crate::api::spec_encode_bucket_fields(b)
}

/// The events of a list of Bucket elements, in order.
pub open spec fn spec_encode_buckets(bs: Seq<ApiBucketV>) -> Seq<Tok>
    decreases bs.len(),
{
    if bs.len() == 0 {
        Seq::empty()
    } else {
        spec_encode_bucket(bs.first()) + spec_encode_buckets(bs.drop_first())
    }
}

/// Every bucket of the list can be formatted.
pub open spec fn buckets_wf(bs: Seq<ApiBucketV>) -> bool {
    forall|k: int| 0 <= k < bs.len() ==> crate::api::bucket_wf(#[trigger] bs[k])
}

/// The events of a whole ListBucketsResult body: the optional token and
/// prefix, the Buckets section, the Owner element, and the document end.
pub open spec fn spec_encode_list_buckets(r: ListBucketsResponseV) -> Seq<Tok> {
    (match r.continuation_token {
        Some(t) => seq![Tok::Start("ContinuationToken"@), Tok::Text(t)],
        None => Seq::<Tok>::empty(),
    }) + (match r.prefix {
        Some(p) => seq![Tok::Start("Prefix"@), Tok::Text(p)],
        None => Seq::<Tok>::empty(),
    }) + seq![Tok::Start("Buckets"@)] + spec_encode_buckets(r.buckets) + seq![Tok::End("Buckets"@)]
        + crate::api::spec_encode_owner(r.owner) + seq![Tok::DocEnd]
}

/// Decoding an encoded Buckets section appends exactly the encoded buckets
/// and stops right after the section's end tag.
proof fn lemma_encode_buckets_section(toks: Seq<Tok>, i: int, bs: Seq<ApiBucketV>, acc: Seq<ApiBucketV>)
    requires
        0 <= i,
        buckets_wf(bs),
        i + spec_encode_buckets(bs).len() + 1 <= toks.len(),
        toks.subrange(i, i + spec_encode_buckets(bs).len() as int) == spec_encode_buckets(bs),
        toks[i + spec_encode_buckets(bs).len() as int] == Tok::End("Buckets"@),
    ensures
        spec_buckets_section(toks, i, acc) == Some(
            (acc + bs, i + spec_encode_buckets(bs).len() + 1),
        ),
    decreases bs.len(),
{
    reveal_strlit("Bucket");
    reveal_strlit("Buckets");
    let seg = spec_encode_buckets(bs);
    if bs.len() == 0 {
        assert(seg.len() == 0);
        assert(spec_buckets_section(toks, i, acc) == Some((acc, i + 1)));
        assert(acc + bs =~= acc);
    } else {
        let b0 = bs.first();
        let f = crate::api::spec_encode_bucket_fields(b0);
        let first_len = 1 + f.len() as int;
        assert(seg =~= spec_encode_bucket(b0) + spec_encode_buckets(bs.drop_first()));
        assert(seg.len() == first_len + spec_encode_buckets(bs.drop_first()).len());
        assert(forall|k: int|
            0 <= k < seg.len() ==> #[trigger] toks.subrange(i, i + seg.len() as int)[k] == toks[i
                + k]);
        assert(forall|k: int| 0 <= k < seg.len() ==> toks[i + k] == seg[k]);
        assert(seg[0] == Tok::Start("Bucket"@));
        assert(toks[i] == Tok::Start("Bucket"@));
        // the first bucket's fields stand right after its start tag
        assert(forall|k: int| 0 <= k < f.len() ==> seg[1 + k] == f[k]);
        assert(toks.subrange(i + 1, i + 1 + f.len() as int) =~= f) by {
            assert(forall|k: int|
                0 <= k < f.len() ==> #[trigger] toks.subrange(i + 1, i + 1 + f.len() as int)[k]
                    == toks[i + 1 + k]);
        }
        assert(crate::api::bucket_wf(b0));
        crate::api::lemma_encode_bucket_round_trip(toks, i + 1, b0);
        assert(spec_bucket_loop(toks, i + 1, None, None, None) == Some(
            (b0, i + 1 + f.len() as int),
        ));
        // the rest of the section follows
        let j = i + first_len;
        assert(buckets_wf(bs.drop_first())) by {
            assert(forall|k: int|
                0 <= k < bs.drop_first().len() ==> #[trigger] bs.drop_first()[k] == bs[k + 1]);
        }
        assert(toks.subrange(j, j + spec_encode_buckets(bs.drop_first()).len() as int)
            =~= spec_encode_buckets(bs.drop_first())) by {
            assert(forall|k: int|
                0 <= k < spec_encode_buckets(bs.drop_first()).len() ==> #[trigger] toks.subrange(
                    j,
                    j + spec_encode_buckets(bs.drop_first()).len() as int,
                )[k] == toks[j + k]);
            assert(forall|k: int|
                0 <= k < spec_encode_buckets(bs.drop_first()).len() ==> seg[first_len + k]
                    == spec_encode_buckets(bs.drop_first())[k]);
        }
        assert(toks[j + spec_encode_buckets(bs.drop_first()).len() as int] == Tok::End(
            "Buckets"@,
        ));
        lemma_encode_buckets_section(toks, j, bs.drop_first(), acc.push(b0));
        assert(spec_buckets_section(toks, i, acc) == spec_buckets_section(toks, j, acc.push(b0)));
        assert(acc.push(b0) + bs.drop_first() =~= acc + bs);
    }
}

/// Encoding a bucket listing into the decoder's own element vocabulary and
/// decoding the resulting event stream yields the same listing back,
/// exactly.
#[verifier::rlimit(100)]
#[verifier::spinoff_prover]
pub proof fn lemma_list_buckets_round_trip(r: ListBucketsResponseV)
    requires
        buckets_wf(r.buckets),
    ensures
        spec_list_buckets_loop(spec_encode_list_buckets(r), 0, None, None, None, Seq::empty())
            == Some((r, spec_encode_list_buckets(r).len() as int)),
{
    reveal_strlit("ContinuationToken");
    reveal_strlit("Prefix");
    reveal_strlit("Owner");
    reveal_strlit("Buckets");
    let toks = spec_encode_list_buckets(r);
    let tok_part = (match r.continuation_token {
        Some(t) => seq![Tok::Start("ContinuationToken"@), Tok::Text(t)],
        None => Seq::<Tok>::empty(),
    });
    let pre_part = (match r.prefix {
        Some(p) => seq![Tok::Start("Prefix"@), Tok::Text(p)],
        None => Seq::<Tok>::empty(),
    });
    let bseg = spec_encode_buckets(r.buckets);
    let of = crate::api::spec_encode_owner_fields(r.owner);
    let i1 = tok_part.len() as int;
    let i2 = i1 + pre_part.len() as int;
    let i3 = i2 + 1;  // after Start(Buckets)
    let i4 = i3 + bseg.len() as int;  // at End(Buckets)
    let i5 = i4 + 1;  // at Start(Owner)
    let i6 = i5 + 1;  // at the owner fields
    let i7 = i6 + of.len() as int;  // at DocEnd
    assert(toks.len() == i7 + 1);
    assert(("ContinuationToken"@).len() == 17 && ("Prefix"@).len() == 6 && ("Owner"@).len() == 5
        && ("Buckets"@).len() == 7);
    assert(("ContinuationToken"@)[0] == 'C' && ("Prefix"@)[0] == 'P' && ("Owner"@)[0] == 'O'
        && ("Buckets"@)[0] == 'B');
    // where each event stands
    assert(forall|k: int| 0 <= k < tok_part.len() ==> toks[k] == #[trigger] tok_part[k]);
    assert(forall|k: int| 0 <= k < pre_part.len() ==> toks[i1 + k] == #[trigger] pre_part[k]);
    assert(toks[i2] == Tok::Start("Buckets"@));
    assert(forall|k: int| 0 <= k < bseg.len() ==> toks[i3 + k] == #[trigger] bseg[k]);
    assert(toks[i4] == Tok::End("Buckets"@));
    assert(toks[i5] == Tok::Start("Owner"@));
    assert(forall|k: int| 0 <= k < of.len() ==> toks[i6 + k] == #[trigger] of[k]);
    assert(toks[i7] == Tok::DocEnd);
    // the token, if present
    let tokv = r.continuation_token;
    let prev = r.prefix;
    match r.continuation_token {
        Some(t) => {
            assert(toks[0] == Tok::Start("ContinuationToken"@));
            assert(toks[1] == Tok::Text(t));
            assert("ContinuationToken"@ != "Prefix"@);
            assert(spec_list_buckets_loop(toks, 0, None, None, None, Seq::empty())
                == spec_list_buckets_loop(toks, i1, tokv, None, None, Seq::empty()));
        },
        None => {
            assert(spec_list_buckets_loop(toks, 0, None, None, None, Seq::empty())
                == spec_list_buckets_loop(toks, i1, tokv, None, None, Seq::empty()));
        },
    }
    // the prefix, if present
    match r.prefix {
        Some(p) => {
            assert(toks[i1] == Tok::Start("Prefix"@));
            assert(toks[i1 + 1] == Tok::Text(p));
            assert(spec_list_buckets_loop(toks, i1, tokv, None, None, Seq::empty())
                == spec_list_buckets_loop(toks, i2, tokv, prev, None, Seq::empty()));
        },
        None => {
            assert(spec_list_buckets_loop(toks, i1, tokv, None, None, Seq::empty())
                == spec_list_buckets_loop(toks, i2, tokv, prev, None, Seq::empty()));
        },
    }
    // the Buckets section
    assert("Buckets"@ != "Prefix"@ && "Buckets"@ != "ContinuationToken"@ && "Buckets"@
        != "Owner"@);
    assert(toks.subrange(i3, i3 + bseg.len() as int) =~= bseg);
    lemma_encode_buckets_section(toks, i3, r.buckets, Seq::empty());
    assert(spec_buckets_section(toks, i3, Seq::empty()) == Some(
        (Seq::<ApiBucketV>::empty() + r.buckets, i5),
    ));
    assert(Seq::<ApiBucketV>::empty() + r.buckets =~= r.buckets);
    assert(spec_list_buckets_loop(toks, i2, tokv, prev, None, Seq::empty())
        == spec_list_buckets_loop(toks, i5, tokv, prev, None, r.buckets));
    // the Owner element
    assert("Owner"@ != "Prefix"@ && "Owner"@ != "ContinuationToken"@);
    assert(toks.subrange(i6, i6 + of.len() as int) =~= of);
    crate::api::lemma_encode_owner_round_trip(toks, i6, r.owner);
    assert(spec_owner_loop(toks, i6, None, None) == Some((r.owner, i7)));
    assert(spec_list_buckets_loop(toks, i5, tokv, prev, None, r.buckets)
        == spec_list_buckets_loop(toks, i7, tokv, prev, Some(r.owner), r.buckets));
    // the document end closes the record
    assert(spec_list_buckets_loop(toks, i7, tokv, prev, Some(r.owner), r.buckets) == Some(
        (
            ListBucketsResponseV {
                continuation_token: tokv,
                buckets: r.buckets,
                owner: r.owner,
                prefix: prev,
            },
            i7 + 1,
        ),
    ));
    assert(ListBucketsResponseV {
        continuation_token: tokv,
        buckets: r.buckets,
        owner: r.owner,
        prefix: prev,
    } == r);
}

} // verus!
