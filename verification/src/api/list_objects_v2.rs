use vstd::prelude::*;
use crate::api::{
    empty_obj_acc, lemma_object_loop_advances, spec_object_loop, spec_parse_bool,
    spec_parse_i32_tok, spec_parse_value, ApiObject, ApiObjectV, Method, S3RequestBuilder,
    S3RequestBuilderV, S3RequestData, S3ResponseData, Scheme,
};
use crate::api::x_amz_headers::opt_str_view;
use crate::encode::{spec_percent_encode_path, spec_percent_encode_query};
use crate::error::S3Error;
use crate::order::str_eq;
use crate::text::{i32_to_string, spec_idec};
use crate::xml_tokens::{xml_tokens_of, Tok, XmlReader, XmlToken};

verus! {

/// Listing of the objects of one bucket, second-generation protocol.
pub struct ListObjectsV2Request {
    pub token: Option<String>,
    pub delimiter: Option<char>,
    pub encoding_type: Option<String>,
    pub fetch_owner: bool,
    pub max_keys: Option<i32>,
    pub start_after: Option<String>,
}

pub struct ListObjectsV2RequestV {
    pub token: Option<Seq<char>>,
    pub delimiter: Option<char>,
    pub encoding_type: Option<Seq<char>>,
    pub fetch_owner: bool,
    pub max_keys: Option<i32>,
    pub start_after: Option<Seq<char>>,
}

impl View for ListObjectsV2Request {
    type V = ListObjectsV2RequestV;

    open spec fn view(&self) -> ListObjectsV2RequestV {
        ListObjectsV2RequestV {
            token: opt_str_view(self.token),
            delimiter: self.delimiter,
            encoding_type: opt_str_view(self.encoding_type),
            fetch_owner: self.fetch_owner,
            max_keys: self.max_keys,
            start_after: opt_str_view(self.start_after),
        }
    }
}

impl Default for ListObjectsV2Request {
    /// A listing with no filter.
    fn default() -> (r: Self)
        ensures
            r@ == (ListObjectsV2RequestV {
                token: None,
                delimiter: None,
                encoding_type: None,
                fetch_owner: false,
                max_keys: None,
                start_after: None,
            }),
    {
        Self {
            token: None,
            delimiter: None,
            encoding_type: None,
            fetch_owner: false,
            max_keys: None,
            start_after: None,
        }
    }
}

/// The query list of an object listing: the protocol selector first, then
/// each given filter, every pair percent-encoded.
pub open spec fn spec_list_objects_query(v: ListObjectsV2RequestV) -> Seq<(Seq<char>, Seq<char>)> {
    seq![(spec_percent_encode_query("list-type"@), spec_percent_encode_query("2"@))] + (
    match v.token {
        Some(t) => seq![
            (spec_percent_encode_query("continuation-token"@), spec_percent_encode_query(t)),
        ],
        None => Seq::empty(),
    }) + (match v.delimiter {
        Some(d) => seq![
            (spec_percent_encode_query("delimiter"@), spec_percent_encode_query(seq![d])),
        ],
        None => Seq::empty(),
    }) + (match v.encoding_type {
        Some(e) => seq![
            (spec_percent_encode_query("encoding-type"@), spec_percent_encode_query(e)),
        ],
        None => Seq::empty(),
    }) + (if v.fetch_owner {
        seq![(spec_percent_encode_query("fetch-owner"@), spec_percent_encode_query("true"@))]
    } else {
        Seq::<(Seq<char>, Seq<char>)>::empty()
    }) + (match v.max_keys {
        Some(n) => seq![
            (spec_percent_encode_query("max-keys"@), spec_percent_encode_query(spec_idec(n as int))),
        ],
        None => Seq::empty(),
    }) + (match v.start_after {
        Some(s) => seq![(spec_percent_encode_query("start-after"@), spec_percent_encode_query(s))],
        None => Seq::empty(),
    })
}

/// The builder state an object listing describes.
pub open spec fn spec_list_objects_builder(
    v: ListObjectsV2RequestV,
    access_key: Seq<char>,
    secret_key: Seq<char>,
    region: Seq<char>,
    endpoint: Seq<char>,
) -> S3RequestBuilderV {
    S3RequestBuilderV {
        method: Method::GET,
        action: spec_percent_encode_path("/"@),
        query: spec_list_objects_query(v),
        headers: Seq::empty(),
        x_amz_headers: Seq::empty(),
        access_key: access_key,
        secret_key: secret_key,
        region: region,
        endpoint: endpoint,
        scheme: Scheme::HTTPS,
        body: None,
    }
}

impl ListObjectsV2Request {
    /// Describe the request to the builder.
    pub fn into_builder(
        &self,
        access_key: &str,
        secret_key: &str,
        region: &str,
        endpoint: &str,
    ) -> (r: Result<S3RequestBuilder<ListObjectsV2Response>, S3Error>)
        ensures
            r matches Ok(b) && b@ == spec_list_objects_builder(
                self@,
                access_key@,
                secret_key@,
                region@,
                endpoint@,
            ),
    {
        let mut builder = S3RequestBuilder::<ListObjectsV2Response>::new(
            Method::GET,
            "/",
            access_key,
            secret_key,
            region,
            endpoint,
        );
        builder.query("list-type", Some("2"));
        if let Some(token) = &self.token {
            builder.query("continuation-token", Some(token.as_str()));
        }
        if let Some(delimiter) = self.delimiter {
            let mut d = String::new();
            crate::text::push_char(&mut d, delimiter);
            proof {
                assert(d@ =~= seq![delimiter]);
            }
            builder.query("delimiter", Some(d.as_str()));
        }
        if let Some(encoding_type) = &self.encoding_type {
            builder.query("encoding-type", Some(encoding_type.as_str()));
        }
        if self.fetch_owner {
            builder.query("fetch-owner", Some("true"));
        }
        if let Some(max_keys) = self.max_keys {
            let mk = i32_to_string(max_keys);
            builder.query("max-keys", Some(mk.as_str()));
        }
        if let Some(start_after) = &self.start_after {
            builder.query("start-after", Some(start_after.as_str()));
        }
        proof {
            assert(builder@.query =~= spec_list_objects_query(self@));
        }
        Ok(builder)
    }
}

impl S3RequestData for ListObjectsV2Request {
    type ResponseType = ListObjectsV2Response;

    fn into_builder(
        &self,
        access_key: &str,
        secret_key: &str,
        region: &str,
        endpoint: &str,
    ) -> Result<S3RequestBuilder<ListObjectsV2Response>, S3Error> {
        ListObjectsV2Request::into_builder(self, access_key, secret_key, region, endpoint)
    }
}

/// One page of an object listing.
pub struct ListObjectsV2Response {
    pub common_prefixes: Vec<String>,
    pub contents: Vec<ApiObject>,
    pub encoding_type: Option<String>,
    pub is_truncated: bool,
    pub key_count: i32,
    pub max_keys: i32,
    pub name: String,
    pub continuation_token: Option<String>,
    pub next_continuation_token: Option<String>,
    pub prefix: Option<String>,
    pub delimiter: Option<String>,
    pub start_after: Option<String>,
}

pub struct ListObjectsV2ResponseV {
    pub common_prefixes: Seq<Seq<char>>,
    pub contents: Seq<ApiObjectV>,
    pub encoding_type: Option<Seq<char>>,
    pub is_truncated: bool,
    pub key_count: int,
    pub max_keys: int,
    pub name: Seq<char>,
    pub continuation_token: Option<Seq<char>>,
    pub next_continuation_token: Option<Seq<char>>,
    pub prefix: Option<Seq<char>>,
    pub delimiter: Option<Seq<char>>,
    pub start_after: Option<Seq<char>>,
}

impl View for ListObjectsV2Response {
    type V = ListObjectsV2ResponseV;

    open spec fn view(&self) -> ListObjectsV2ResponseV {
        ListObjectsV2ResponseV {
            common_prefixes: self.common_prefixes@.map_values(|s: String| s@),
            contents: self.contents@.map_values(|o: ApiObject| o@),
            encoding_type: opt_str_view(self.encoding_type),
            is_truncated: self.is_truncated,
            key_count: self.key_count as int,
            max_keys: self.max_keys as int,
            name: self.name@,
            continuation_token: opt_str_view(self.continuation_token),
            next_continuation_token: opt_str_view(self.next_continuation_token),
            prefix: opt_str_view(self.prefix),
            delimiter: opt_str_view(self.delimiter),
            start_after: opt_str_view(self.start_after),
        }
    }
}

// ----------------------------------------------------------------------------
// Decoding
// ----------------------------------------------------------------------------

/// Partial state of an object-listing decode.
pub struct LoAcc {
    pub common_prefixes: Seq<Seq<char>>,
    pub contents: Seq<ApiObjectV>,
    pub encoding_type: Option<Seq<char>>,
    pub is_truncated: Option<bool>,
    pub key_count: Option<int>,
    pub max_keys: Option<int>,
    pub name: Option<Seq<char>>,
    pub continuation_token: Option<Seq<char>>,
    pub next_continuation_token: Option<Seq<char>>,
    pub prefix: Option<Seq<char>>,
    pub delimiter: Option<Seq<char>>,
    pub start_after: Option<Seq<char>>,
}

pub open spec fn empty_lo_acc() -> LoAcc {
    LoAcc {
        common_prefixes: Seq::empty(),
        contents: Seq::empty(),
        encoding_type: None,
        is_truncated: None,
        key_count: None,
        max_keys: None,
        name: None,
        continuation_token: None,
        next_continuation_token: None,
        prefix: None,
        delimiter: None,
        start_after: None,
    }
}

/// The record an accumulator closes to at the document end: the truncation
/// flag and the two counters are required; an absent bucket name stays
/// empty; everything else keeps its default.
pub open spec fn spec_lo_finish(acc: LoAcc) -> Option<ListObjectsV2ResponseV> {
    match (acc.is_truncated, acc.key_count, acc.max_keys) {
        (Some(tr), Some(kc), Some(mk)) => Some(
            ListObjectsV2ResponseV {
                common_prefixes: acc.common_prefixes,
                contents: acc.contents,
                encoding_type: acc.encoding_type,
                is_truncated: tr,
                key_count: kc,
                max_keys: mk,
                name: match acc.name {
                    Some(n) => n,
                    None => Seq::empty(),
                },
                continuation_token: acc.continuation_token,
                next_continuation_token: acc.next_continuation_token,
                prefix: acc.prefix,
                delimiter: acc.delimiter,
                start_after: acc.start_after,
            },
        ),
        _ => None,
    }
}

/// The top-level decode loop of a ListBucketResult body for an object
/// listing: scalar fields are read as tagged values, a CommonPrefixes
/// section must hold exactly a Prefix value, and each Contents section
/// decodes one object.  A root Prefix tag without a direct value is skipped
/// rather than refused.
pub open spec fn spec_list_objects_loop(toks: Seq<Tok>, i: int, acc: LoAcc) -> Option<
    (ListObjectsV2ResponseV, int),
>
    decreases toks.len() - i,
    via spec_list_objects_loop_dec
{
    if i < 0 || i >= toks.len() {
        None
    } else {
        match toks[i] {
            Tok::DocEnd => match spec_lo_finish(acc) {
                Some(v) => Some((v, i + 1)),
                None => None,
            },
            Tok::Start(n) => {
                if n == "IsTruncated"@ {
                    if i + 1 < toks.len() {
                        match spec_parse_bool(toks, i + 1) {
                            Some((b, j)) => spec_list_objects_loop(
                                toks,
                                i + 2,
                                LoAcc { is_truncated: Some(b), ..acc },
                            ),
                            None => None,
                        }
                    } else {
                        None
                    }
                } else if n == "Name"@ {
                    if i + 1 < toks.len() {
                        match spec_parse_value(toks, i + 1) {
                            Some((t, j)) => spec_list_objects_loop(
                                toks,
                                i + 2,
                                LoAcc { name: Some(t), ..acc },
                            ),
                            None => None,
                        }
                    } else {
                        None
                    }
                } else if n == "Prefix"@ {
                    if i + 1 < toks.len() {
                        match toks[i + 1] {
                            Tok::Text(t) => spec_list_objects_loop(
                                toks,
                                i + 2,
                                LoAcc { prefix: Some(t), ..acc },
                            ),
                            _ => spec_list_objects_loop(toks, i + 2, acc),
                        }
                    } else {
                        spec_list_objects_loop(toks, i + 1, acc)
                    }
                } else if n == "Delimiter"@ {
                    if i + 1 < toks.len() {
                        match spec_parse_value(toks, i + 1) {
                            Some((t, j)) => spec_list_objects_loop(
                                toks,
                                i + 2,
                                LoAcc { delimiter: Some(t), ..acc },
                            ),
                            None => None,
                        }
                    } else {
                        None
                    }
                } else if n == "MaxKeys"@ {
                    if i + 1 < toks.len() {
                        match spec_parse_i32_tok(toks, i + 1) {
                            Some((v, j)) => spec_list_objects_loop(
                                toks,
                                i + 2,
                                LoAcc { max_keys: Some(v), ..acc },
                            ),
                            None => None,
                        }
                    } else {
                        None
                    }
                } else if n == "EncodingType"@ {
                    if i + 1 < toks.len() {
                        match spec_parse_value(toks, i + 1) {
                            Some((t, j)) => spec_list_objects_loop(
                                toks,
                                i + 2,
                                LoAcc { encoding_type: Some(t), ..acc },
                            ),
                            None => None,
                        }
                    } else {
                        None
                    }
                } else if n == "KeyCount"@ {
                    if i + 1 < toks.len() {
                        match spec_parse_i32_tok(toks, i + 1) {
                            Some((v, j)) => spec_list_objects_loop(
                                toks,
                                i + 2,
                                LoAcc { key_count: Some(v), ..acc },
                            ),
                            None => None,
                        }
                    } else {
                        None
                    }
                } else if n == "ContinuationToken"@ {
                    if i + 1 < toks.len() {
                        match spec_parse_value(toks, i + 1) {
                            Some((t, j)) => spec_list_objects_loop(
                                toks,
                                i + 2,
                                LoAcc { continuation_token: Some(t), ..acc },
                            ),
                            None => None,
                        }
                    } else {
                        None
                    }
                } else if n == "NextContinuationToken"@ {
                    if i + 1 < toks.len() {
                        match spec_parse_value(toks, i + 1) {
                            Some((t, j)) => spec_list_objects_loop(
                                toks,
                                i + 2,
                                LoAcc { next_continuation_token: Some(t), ..acc },
                            ),
                            None => None,
                        }
                    } else {
                        None
                    }
                } else if n == "StartAfter"@ {
                    if i + 1 < toks.len() {
                        match spec_parse_value(toks, i + 1) {
                            Some((t, j)) => spec_list_objects_loop(
                                toks,
                                i + 2,
                                LoAcc { start_after: Some(t), ..acc },
                            ),
                            None => None,
                        }
                    } else {
                        None
                    }
                } else if n == "CommonPrefixes"@ {
                    if i + 2 < toks.len() {
                        match toks[i + 1] {
                            Tok::Start(n2) => {
                                if n2 == "Prefix"@ {
                                    match toks[i + 2] {
                                        Tok::Text(t) => spec_list_objects_loop(
                                            toks,
                                            i + 3,
                                            LoAcc {
                                                common_prefixes: acc.common_prefixes.push(t),
                                                ..acc
                                            },
                                        ),
                                        _ => None,
                                    }
                                } else {
                                    None
                                }
                            },
                            _ => None,
                        }
                    } else {
                        None
                    }
                } else if n == "Contents"@ {
                    match spec_object_loop(toks, i + 1, empty_obj_acc()) {
                        Some((o, j)) => spec_list_objects_loop(
                            toks,
                            j,
                            LoAcc { contents: acc.contents.push(o), ..acc },
                        ),
                        None => None,
                    }
                } else {
                    spec_list_objects_loop(toks, i + 1, acc)
                }
            },
            _ => spec_list_objects_loop(toks, i + 1, acc),
        }
    }
}

#[via_fn]
proof fn spec_list_objects_loop_dec(toks: Seq<Tok>, i: int, acc: LoAcc) {
    if 0 <= i < toks.len() {
        lemma_object_loop_advances(toks, i + 1, empty_obj_acc());
    }
}

impl ListObjectsV2Response {
    /// Decode the token stream of an object-listing body.
    #[verifier::rlimit(100)]
    #[verifier::spinoff_prover]
    pub fn parse_tokens(parser: &mut XmlReader) -> (r: Result<ListObjectsV2Response, S3Error>)
        requires
            old(parser).wf(),
        ensures
            final(parser).wf(),
            final(parser).toks() == old(parser).toks(),
            r matches Ok(resp) ==> spec_list_objects_loop(
                old(parser).toks(),
                old(parser).pos(),
                empty_lo_acc(),
            ) == Some((resp@, final(parser).pos())),
            r is Err ==> spec_list_objects_loop(
                old(parser).toks(),
                old(parser).pos(),
                empty_lo_acc(),
            ) is None,
            r matches Err(e) ==> e == S3Error::DecodeError,
    {
        let ghost toks = old(parser).toks();
        let ghost p0 = old(parser).pos();
        let mut common_prefixes: Vec<String> = Vec::new();
        let mut contents: Vec<ApiObject> = Vec::new();
        let mut encoding_type: Option<String> = None;
        let mut is_truncated: Option<bool> = None;
        let mut key_count: Option<i32> = None;
        let mut max_keys: Option<i32> = None;
        let mut name: Option<String> = None;
        let mut continuation_token: Option<String> = None;
        let mut next_continuation_token: Option<String> = None;
        let mut prefix: Option<String> = None;
        let mut delimiter: Option<String> = None;
        let mut start_after: Option<String> = None;
        proof {
            assert(common_prefixes@.map_values(|s: String| s@) =~= Seq::<Seq<char>>::empty());
            assert(contents@.map_values(|o: ApiObject| o@) =~= Seq::<ApiObjectV>::empty());
        }
        loop
            invariant
                toks == old(parser).toks(),
                p0 == old(parser).pos(),
                parser.wf(),
                parser.toks() == toks,
                p0 <= parser.pos(),
                spec_list_objects_loop(toks, p0, empty_lo_acc()) == spec_list_objects_loop(
                    toks,
                    parser.pos(),
                    LoAcc {
                        common_prefixes: common_prefixes@.map_values(|s: String| s@),
                        contents: contents@.map_values(|o: ApiObject| o@),
                        encoding_type: opt_str_view(encoding_type),
                        is_truncated: is_truncated,
                        key_count: match key_count {
                            Some(v) => Some(v as int),
                            None => None,
                        },
                        max_keys: match max_keys {
                            Some(v) => Some(v as int),
                            None => None,
                        },
                        name: opt_str_view(name),
                        continuation_token: opt_str_view(continuation_token),
                        next_continuation_token: opt_str_view(next_continuation_token),
                        prefix: opt_str_view(prefix),
                        delimiter: opt_str_view(delimiter),
                        start_after: opt_str_view(start_after),
                    },
                ),
            decreases toks.len() - parser.pos(),
        {
            match parser.next() {
                None => {
                    return Err(S3Error::DecodeError);
                },
                Some(XmlToken::DocEnd) => {
                    match (is_truncated, key_count, max_keys) {
                        (Some(tr), Some(kc), Some(mk)) => {
                            let nm = match name {
                                Some(n) => n,
                                None => String::new(),
                            };
                            return Ok(
                                ListObjectsV2Response {
                                    common_prefixes,
                                    contents,
                                    encoding_type,
                                    is_truncated: tr,
                                    key_count: kc,
                                    max_keys: mk,
                                    name: nm,
                                    continuation_token,
                                    next_continuation_token,
                                    prefix,
                                    delimiter,
                                    start_after,
                                },
                            );
                        },
                        _ => {
                            return Err(S3Error::DecodeError);
                        },
                    }
                },
                Some(XmlToken::Start(n)) => {
                    if str_eq(n.as_str(), "IsTruncated") {
                        let b = crate::api::parse_xml_bool(parser, "IsTruncated")?;
                        is_truncated = Some(b);
                    } else if str_eq(n.as_str(), "Name") {
                        let t = crate::api::parse_xml_string(parser, "Name")?;
                        name = Some(t);
                    } else if str_eq(n.as_str(), "Prefix") {
                        match parser.next() {
                            Some(XmlToken::Text(t)) => {
                                prefix = Some(t);
                            },
                            _ => {},
                        }
                    } else if str_eq(n.as_str(), "Delimiter") {
                        let t = crate::api::parse_xml_string(parser, "Delimiter")?;
                        delimiter = Some(t);
                    } else if str_eq(n.as_str(), "MaxKeys") {
                        let v = crate::api::parse_xml_i32(parser, "MaxKeys")?;
                        max_keys = Some(v);
                    } else if str_eq(n.as_str(), "EncodingType") {
                        let t = crate::api::parse_xml_string(parser, "EncodingType")?;
                        encoding_type = Some(t);
                    } else if str_eq(n.as_str(), "KeyCount") {
                        let v = crate::api::parse_xml_i32(parser, "KeyCount")?;
                        key_count = Some(v);
                    } else if str_eq(n.as_str(), "ContinuationToken") {
                        let t = crate::api::parse_xml_string(parser, "ContinuationToken")?;
                        continuation_token = Some(t);
                    } else if str_eq(n.as_str(), "NextContinuationToken") {
                        let t = crate::api::parse_xml_string(parser, "NextContinuationToken")?;
                        next_continuation_token = Some(t);
                    } else if str_eq(n.as_str(), "StartAfter") {
                        let t = crate::api::parse_xml_string(parser, "StartAfter")?;
                        start_after = Some(t);
                    } else if str_eq(n.as_str(), "CommonPrefixes") {
                        match parser.next() {
                            Some(XmlToken::Start(n2)) => {
                                if str_eq(n2.as_str(), "Prefix") {
                                    match parser.next() {
                                        Some(XmlToken::Text(t)) => {
                                            let ghost before = common_prefixes@.map_values(
                                                |s: String| s@,
                                            );
                                            let ghost tv = t@;
                                            common_prefixes.push(t);
                                            proof {
                                                assert(common_prefixes@.map_values(|s: String| s@)
                                                    =~= before.push(tv));
                                            }
                                        },
                                        _ => {
                                            return Err(S3Error::DecodeError);
                                        },
                                    }
                                } else {
                                    return Err(S3Error::DecodeError);
                                }
                            },
                            _ => {
                                return Err(S3Error::DecodeError);
                            },
                        }
                    } else if str_eq(n.as_str(), "Contents") {
                        let ghost before = contents@.map_values(|o: ApiObject| o@);
                        let o = ApiObject::parse(parser)?;
                        contents.push(o);
                        proof {
                            assert(contents@.map_values(|oo: ApiObject| oo@) =~= before.push(o@));
                        }
                    }
                },
                Some(_) => {},
            }
        }
    }

    /// Decode an object-listing body: exactly the record its tokenization
    /// decodes to.  Bytes that are not well-formed XML, a missing required
    /// field or an unparsable literal are a decode error, with no partial
    /// result.
    pub fn parse_body(data: &[u8]) -> (r: Result<ListObjectsV2Response, S3Error>)
        ensures
            r matches Ok(resp) ==> (xml_tokens_of(data@) matches Some(ts)
                && spec_list_objects_loop(ts, 0, empty_lo_acc()) matches Some(p) && p.0 == resp@),
            xml_tokens_of(data@) is None ==> r is Err,
            (xml_tokens_of(data@) matches Some(ts) && spec_list_objects_loop(
                ts,
                0,
                empty_lo_acc(),
            ) is None) ==> r is Err,
            (xml_tokens_of(data@) matches Some(ts) && spec_list_objects_loop(
                ts,
                0,
                empty_lo_acc(),
            ) is Some) ==> r is Ok,
            r matches Err(e) ==> e == S3Error::DecodeError,
    {
        let mut parser = XmlReader::from_bytes(data)?;
        ListObjectsV2Response::parse_tokens(&mut parser)
    }
}

impl S3ResponseData for ListObjectsV2Response {
    fn parse_body(data: &[u8]) -> Result<ListObjectsV2Response, S3Error> {
        ListObjectsV2Response::parse_body(data)
    }
}

} // verus!
