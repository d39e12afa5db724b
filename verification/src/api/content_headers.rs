use vstd::prelude::*;
use crate::api::x_amz_headers::{lemma_concat_empty, push_pair, push_pair_owned};
use crate::order::pair_views;
use crate::text::{i32_to_string, push_char, spec_idec};
use crate::time::{spec_http_date, Timestamp};

verus! {

pub enum CacheControl {
    MaxAge(i32),
    SMaxAge(i32),
    MustRevalidate,
    ProxyRevalidate,
    Private,
    Public,
    MustUnderstand,
    NoTransform,
    Immutable,
    StaleWhileRevalidate(i32),
    StaleIfError(i32),
    NoCache,
    NoStore,
    MaxStale(i32),
    MinFresh(i32),
    OnlyIfCached,
    Value(String),
}

pub enum CacheControlV {
    MaxAge(i32),
    SMaxAge(i32),
    MustRevalidate,
    ProxyRevalidate,
    Private,
    Public,
    MustUnderstand,
    NoTransform,
    Immutable,
    StaleWhileRevalidate(i32),
    StaleIfError(i32),
    NoCache,
    NoStore,
    MaxStale(i32),
    MinFresh(i32),
    OnlyIfCached,
    Value(Seq<char>),
}

impl View for CacheControl {
    type V = CacheControlV;

    open spec fn view(&self) -> CacheControlV {
        match self {
            CacheControl::MaxAge(n) => CacheControlV::MaxAge(*n),
            CacheControl::SMaxAge(n) => CacheControlV::SMaxAge(*n),
            CacheControl::MustRevalidate => CacheControlV::MustRevalidate,
            CacheControl::ProxyRevalidate => CacheControlV::ProxyRevalidate,
            CacheControl::Private => CacheControlV::Private,
            CacheControl::Public => CacheControlV::Public,
            CacheControl::MustUnderstand => CacheControlV::MustUnderstand,
            CacheControl::NoTransform => CacheControlV::NoTransform,
            CacheControl::Immutable => CacheControlV::Immutable,
            CacheControl::StaleWhileRevalidate(n) => CacheControlV::StaleWhileRevalidate(*n),
            CacheControl::StaleIfError(n) => CacheControlV::StaleIfError(*n),
            CacheControl::NoCache => CacheControlV::NoCache,
            CacheControl::NoStore => CacheControlV::NoStore,
            CacheControl::MaxStale(n) => CacheControlV::MaxStale(*n),
            CacheControl::MinFresh(n) => CacheControlV::MinFresh(*n),
            CacheControl::OnlyIfCached => CacheControlV::OnlyIfCached,
            CacheControl::Value(s) => CacheControlV::Value(s@),
        }
    }
}

pub enum ContentDisposition {
    Inline,
    Attachment,
    AttachmentWithFile(String),
    Value(String),
}

pub enum ContentDispositionV {
    Inline,
    Attachment,
    AttachmentWithFile(Seq<char>),
    Value(Seq<char>),
}

impl View for ContentDisposition {
    type V = ContentDispositionV;

    open spec fn view(&self) -> ContentDispositionV {
        match self {
            ContentDisposition::Inline => ContentDispositionV::Inline,
            ContentDisposition::Attachment => ContentDispositionV::Attachment,
            ContentDisposition::AttachmentWithFile(s) => ContentDispositionV::AttachmentWithFile(
                s@,
            ),
            ContentDisposition::Value(s) => ContentDispositionV::Value(s@),
        }
    }
}

pub enum ContentEncoding {
    GZIP,
    Compress,
    Deflate,
    Br,
    ZSTD,
    DCB,
    DCZ,
    Encoding(String),
}

pub enum ContentEncodingV {
    GZIP,
    Compress,
    Deflate,
    Br,
    ZSTD,
    DCB,
    DCZ,
    Encoding(Seq<char>),
}

impl View for ContentEncoding {
    type V = ContentEncodingV;

    open spec fn view(&self) -> ContentEncodingV {
        match self {
            ContentEncoding::GZIP => ContentEncodingV::GZIP,
            ContentEncoding::Compress => ContentEncodingV::Compress,
            ContentEncoding::Deflate => ContentEncodingV::Deflate,
            ContentEncoding::Br => ContentEncodingV::Br,
            ContentEncoding::ZSTD => ContentEncodingV::ZSTD,
            ContentEncoding::DCB => ContentEncodingV::DCB,
            ContentEncoding::DCZ => ContentEncodingV::DCZ,
            ContentEncoding::Encoding(s) => ContentEncodingV::Encoding(s@),
        }
    }
}

/// Spec view of the content header set.
pub struct ContentHeadersV {
    pub cache_control: Seq<CacheControlV>,
    pub content_disposition: Option<ContentDispositionV>,
    pub content_encoding: Option<ContentEncodingV>,
    pub content_language: Option<Seq<char>>,
    pub content_type: Option<Seq<char>>,
    pub expires: Option<Timestamp>,
    pub range: Option<(i32, Option<i32>)>,
    pub content_md5: Option<Seq<char>>,
}

/// Content headers of a request, and the `response-*` query parameters that
/// override them on a retrieval.
pub struct ContentHeaders {
    cache_control: Vec<CacheControl>,
    content_disposition: Option<ContentDisposition>,
    content_encoding: Option<ContentEncoding>,
    content_language: Option<String>,
    content_type: Option<String>,
    expires: Option<Timestamp>,
    range: Option<(i32, Option<i32>)>,
    content_md5: Option<String>,
}

impl View for ContentHeaders {
    type V = ContentHeadersV;

    closed spec fn view(&self) -> ContentHeadersV {
        ContentHeadersV {
            cache_control: self.cache_control@.map_values(|c: CacheControl| c@),
            content_disposition: match self.content_disposition {
                Some(ref d) => Some(d@),
                None => None,
            },
            content_encoding: match self.content_encoding {
                Some(ref e) => Some(e@),
                None => None,
            },
            content_language: match self.content_language {
                Some(ref s) => Some(s@),
                None => None,
            },
            content_type: match self.content_type {
                Some(ref s) => Some(s@),
                None => None,
            },
            expires: self.expires,
            range: self.range,
            content_md5: match self.content_md5 {
                Some(ref s) => Some(s@),
                None => None,
            },
        }
    }
}

// ----------------------------------------------------------------------------
// Directive texts
// ----------------------------------------------------------------------------

pub open spec fn spec_cc_str(cc: CacheControlV) -> Seq<char> {
    match cc {
        CacheControlV::MaxAge(age) => "max-age="@ + spec_idec(age as int),
        CacheControlV::SMaxAge(age) => "s-maxage="@ + spec_idec(age as int),
        CacheControlV::MustRevalidate => "must-revalidate"@,
        CacheControlV::ProxyRevalidate => "proxy-revalidate"@,
        CacheControlV::Private => "private"@,
        CacheControlV::Public => "public"@,
        CacheControlV::MustUnderstand => "must-understand"@,
        CacheControlV::NoTransform => "no-transform"@,
        CacheControlV::Immutable => "immutable"@,
        CacheControlV::StaleWhileRevalidate(age) => "stale-while-revalidate="@ + spec_idec(
            age as int,
        ),
        CacheControlV::StaleIfError(age) => "stale-if-error="@ + spec_idec(age as int),
        CacheControlV::NoCache => "no-cache"@,
        CacheControlV::NoStore => "no-store"@,
        CacheControlV::MaxStale(age) => "max-stale="@ + spec_idec(age as int),
        CacheControlV::MinFresh(age) => "min-fresh="@ + spec_idec(age as int),
        CacheControlV::OnlyIfCached => "only-if-cached"@,
        CacheControlV::Value(s) => s,
    }
}

/// Directives joined with a comma and a space, in the order given.
pub open spec fn spec_cc_join(ccs: Seq<CacheControlV>) -> Seq<char>
    decreases ccs.len(),
{
    if ccs.len() == 0 {
        Seq::empty()
    } else if ccs.len() == 1 {
        spec_cc_str(ccs.first())
    } else {
        spec_cc_str(ccs.first()) + ", "@ + spec_cc_join(ccs.drop_first())
    }
}

/// The Cache-Control value of the set: no directives, no header.
pub open spec fn spec_cache_control_str(v: ContentHeadersV) -> Option<Seq<char>> {
    if v.cache_control.len() == 0 {
        None
    } else {
        Some(spec_cc_join(v.cache_control))
    }
}

pub open spec fn spec_disposition_str(d: ContentDispositionV) -> Seq<char> {
    match d {
        ContentDispositionV::Inline => "inline"@,
        ContentDispositionV::Attachment => "attachment"@,
        ContentDispositionV::AttachmentWithFile(f) => "attachment; filename="@ + f,
        ContentDispositionV::Value(s) => s,
    }
}

pub open spec fn spec_encoding_str(e: ContentEncodingV) -> Seq<char> {
    match e {
        ContentEncodingV::GZIP => "gzip"@,
        ContentEncodingV::Compress => "compress"@,
        ContentEncodingV::Deflate => "deflate"@,
        ContentEncodingV::Br => "br"@,
        ContentEncodingV::ZSTD => "zstd"@,
        ContentEncodingV::DCB => "dcb"@,
        ContentEncodingV::DCZ => "dcz"@,
        ContentEncodingV::Encoding(s) => s,
    }
}

/// `bytes=start-` with the end bound appended when present.
pub open spec fn spec_range_str(start: i32, end: Option<i32>) -> Seq<char> {
    "bytes="@ + spec_idec(start as int) + "-"@ + (match end {
        Some(e) => spec_idec(e as int),
        None => Seq::<char>::empty(),
    })
}

/// The header pairs of one content header set, in a fixed order.
pub open spec fn spec_content_headers(v: ContentHeadersV) -> Seq<(Seq<char>, Seq<char>)> {
    (match spec_cache_control_str(v) {
        Some(s) => seq![("Cache-Control"@, s)],
        None => Seq::empty(),
    }) + (match v.content_disposition {
        Some(d) => seq![("Content-Disposition"@, spec_disposition_str(d))],
        None => Seq::empty(),
    }) + (match v.content_encoding {
        Some(e) => seq![("Content-Encoding"@, spec_encoding_str(e))],
        None => Seq::empty(),
    }) + (match v.content_language {
        Some(s) => seq![("Content-Language"@, s)],
        None => Seq::empty(),
    }) + (match v.content_type {
        Some(s) => seq![("Content-Type"@, s)],
        None => Seq::empty(),
    }) + (match v.expires {
        Some(ts) => seq![("Expires"@, spec_http_date(ts))],
        None => Seq::empty(),
    }) + (match v.content_md5 {
        Some(s) => seq![("Content-MD5"@, s)],
        None => Seq::empty(),
    }) + (match v.range {
        Some((s, e)) => seq![("Range"@, spec_range_str(s, e))],
        None => Seq::empty(),
    })
}

/// The `response-*` query parameters of one content header set, in a fixed
/// order; the range and checksum have no query form.
pub open spec fn spec_content_query(v: ContentHeadersV) -> Seq<(Seq<char>, Seq<char>)> {
    (match spec_cache_control_str(v) {
        Some(s) => seq![("response-cache-control"@, s)],
        None => Seq::empty(),
    }) + (match v.content_disposition {
        Some(d) => seq![("response-content-disposition"@, spec_disposition_str(d))],
        None => Seq::empty(),
    }) + (match v.content_encoding {
        Some(e) => seq![("response-content-encoding"@, spec_encoding_str(e))],
        None => Seq::empty(),
    }) + (match v.content_language {
        Some(s) => seq![("response-content-language"@, s)],
        None => Seq::empty(),
    }) + (match v.content_type {
        Some(s) => seq![("response-content-type"@, s)],
        None => Seq::empty(),
    }) + (match v.expires {
        Some(ts) => seq![("response-expires"@, spec_http_date(ts))],
        None => Seq::empty(),
    })
}

impl Default for ContentHeaders {
    /// A set with nothing to declare.
    fn default() -> (r: Self)
        ensures
            r@ == (ContentHeadersV {
                cache_control: Seq::empty(),
                content_disposition: None,
                content_encoding: None,
                content_language: None,
                content_type: None,
                expires: None,
                range: None,
                content_md5: None,
            }),
            r.wf(),
    {
        let r = Self {
            cache_control: Vec::new(),
            content_disposition: None,
            content_encoding: None,
            content_language: None,
            content_type: None,
            expires: None,
            range: None,
            content_md5: None,
        };
        proof {
            assert(r@.cache_control =~= Seq::<CacheControlV>::empty());
        }
        r
    }
}

impl ContentHeaders {
    /// Whether the stored expiry can be formatted.
    pub open spec fn wf(&self) -> bool {
        match self@.expires {
            Some(ts) => ts.wf() && (ts.year >= 1 || ts.month >= 3),
            None => true,
        }
    }

    pub fn add_cache_control(&mut self, cache_control: CacheControl)
        ensures
            final(self)@ == (ContentHeadersV {
                cache_control: old(self)@.cache_control.push(cache_control@),
                ..old(self)@
            }),
            old(self).wf() ==> final(self).wf(),
    {
        let ghost cv = cache_control@;
        self.cache_control.push(cache_control);
        proof {
            assert(self.cache_control@.map_values(|c: CacheControl| c@) =~= old(
                self,
            )@.cache_control.push(cv));
        }
    }

    pub fn cache_control(&mut self, cache_control: &mut Vec<CacheControl>)
        ensures
            final(self)@ == (ContentHeadersV {
                cache_control: old(self)@.cache_control + old(cache_control)@.map_values(
                    |c: CacheControl| c@,
                ),
                ..old(self)@
            }),
            final(cache_control)@ == Seq::<CacheControl>::empty(),
            old(self).wf() ==> final(self).wf(),
    {
        self.cache_control.append(cache_control);
        proof {
            assert(self.cache_control@.map_values(|c: CacheControl| c@) =~= old(
                self,
            )@.cache_control + old(cache_control)@.map_values(|c: CacheControl| c@));
        }
    }

    pub fn content_disposition(&mut self, disposition: ContentDisposition)
        ensures
            final(self)@ == (ContentHeadersV {
                content_disposition: Some(disposition@),
                ..old(self)@
            }),
            old(self).wf() ==> final(self).wf(),
    {
        self.content_disposition = Some(disposition);
    }

    pub fn content_encoding(&mut self, encoding: ContentEncoding)
        ensures
            final(self)@ == (ContentHeadersV { content_encoding: Some(encoding@), ..old(self)@ }),
            old(self).wf() ==> final(self).wf(),
    {
        self.content_encoding = Some(encoding);
    }

    pub fn content_language(&mut self, lang: String)
        ensures
            final(self)@ == (ContentHeadersV { content_language: Some(lang@), ..old(self)@ }),
            old(self).wf() ==> final(self).wf(),
    {
        self.content_language = Some(lang);
    }

    pub fn content_type(&mut self, content_type: String)
        ensures
            final(self)@ == (ContentHeadersV { content_type: Some(content_type@), ..old(self)@ }),
            old(self).wf() ==> final(self).wf(),
    {
        self.content_type = Some(content_type);
    }

    pub fn expires(&mut self, datetime: Timestamp)
        requires
            datetime.wf(),
            datetime.year >= 1 || datetime.month >= 3,
        ensures
            final(self)@ == (ContentHeadersV { expires: Some(datetime), ..old(self)@ }),
            old(self).wf() ==> final(self).wf(),
    {
        self.expires = Some(datetime);
    }

    pub fn range(&mut self, start: i32, end: Option<i32>)
        ensures
            final(self)@ == (ContentHeadersV { range: Some((start, end)), ..old(self)@ }),
            old(self).wf() ==> final(self).wf(),
    {
        self.range = Some((start, end));
    }

    pub fn md5(&mut self, checksum: String)
        ensures
            final(self)@ == (ContentHeadersV { content_md5: Some(checksum@), ..old(self)@ }),
            old(self).wf() ==> final(self).wf(),
    {
        self.content_md5 = Some(checksum);
    }

    /// The Cache-Control text, if any directive was added.
    fn get_cache_control_str(&self) -> (r: Option<String>)
        ensures
            match r {
                Some(s) => spec_cache_control_str(self@) == Some(s@),
                None => spec_cache_control_str(self@) is None,
            },
    {
        let n = self.cache_control.len();
        if n == 0 {
            return None;
        }
        let ghost ccs = self@.cache_control;
        let mut out = String::new();
        proof {
            assert(ccs.take(0) =~= Seq::<CacheControlV>::empty());
        }
        for i in 0..n
            invariant
                n == self.cache_control@.len(),
                n > 0,
                ccs == self.cache_control@.map_values(|c: CacheControl| c@),
                out@ == spec_cc_join(ccs.take(i as int)),
        {
            if i > 0 {
                out.append(", ");
            }
            let piece = cc_str(&self.cache_control[i]);
            out.append(piece.as_str());
            proof {
                assert(ccs[i as int] == self.cache_control@[i as int]@);
                lemma_cc_join_snoc(ccs.take(i + 1));
                assert(ccs.take(i + 1).drop_last() =~= ccs.take(i as int));
                assert(ccs.take(i + 1).last() == ccs[i as int]);
            }
        }
        proof {
            assert(ccs.take(n as int) =~= ccs);
        }
        Some(out)
    }

    /// The header pairs this set contributes to a request.
    pub(crate) fn get_headers(&self) -> (r: Vec<(String, String)>)
        requires
            self.wf(),
        ensures
            pair_views(r@) == spec_content_headers(self@),
    {
        let ghost v = self@;
        let mut headers: Vec<(String, String)> = Vec::new();
        proof {
            assert(pair_views(headers@) =~= Seq::<(Seq<char>, Seq<char>)>::empty());
        }
        if let Some(control) = self.get_cache_control_str() {
            push_pair(&mut headers, "Cache-Control", control);
        }
        let ghost mut exp = Seq::<(Seq<char>, Seq<char>)>::empty() + (
        match spec_cache_control_str(v) {
            Some(s) => seq![("Cache-Control"@, s)],
            None => Seq::empty(),
        });
        proof {
            if spec_cache_control_str(v) is None {
                lemma_concat_empty(Seq::<(Seq<char>, Seq<char>)>::empty());
            }
            assert(pair_views(headers@) == exp);
        }
        if let Some(d) = &self.content_disposition {
            push_pair(&mut headers, "Content-Disposition", disposition_str(d));
        }
        proof {
            lemma_concat_empty(exp);
            exp = exp + (match v.content_disposition {
                Some(d) => seq![("Content-Disposition"@, spec_disposition_str(d))],
                None => Seq::empty(),
            });
            assert(pair_views(headers@) == exp);
        }
        if let Some(e) = &self.content_encoding {
            push_pair(&mut headers, "Content-Encoding", encoding_str(e));
        }
        proof {
            lemma_concat_empty(exp);
            exp = exp + (match v.content_encoding {
                Some(e) => seq![("Content-Encoding"@, spec_encoding_str(e))],
                None => Seq::empty(),
            });
            assert(pair_views(headers@) == exp);
        }
        if let Some(language) = &self.content_language {
            push_pair(&mut headers, "Content-Language", language.clone());
        }
        proof {
            lemma_concat_empty(exp);
            exp = exp + (match v.content_language {
                Some(s) => seq![("Content-Language"@, s)],
                None => Seq::empty(),
            });
            assert(pair_views(headers@) == exp);
        }
        if let Some(content_type) = &self.content_type {
            push_pair(&mut headers, "Content-Type", content_type.clone());
        }
        proof {
            lemma_concat_empty(exp);
            exp = exp + (match v.content_type {
                Some(s) => seq![("Content-Type"@, s)],
                None => Seq::empty(),
            });
            assert(pair_views(headers@) == exp);
        }
        if let Some(expires) = &self.expires {
            push_pair(&mut headers, "Expires", expires.http_date());
        }
        proof {
            lemma_concat_empty(exp);
            exp = exp + (match v.expires {
                Some(ts) => seq![("Expires"@, spec_http_date(ts))],
                None => Seq::empty(),
            });
            assert(pair_views(headers@) == exp);
        }
        if let Some(checksum) = &self.content_md5 {
            push_pair(&mut headers, "Content-MD5", checksum.clone());
        }
        proof {
            lemma_concat_empty(exp);
            exp = exp + (match v.content_md5 {
                Some(s) => seq![("Content-MD5"@, s)],
                None => Seq::empty(),
            });
            assert(pair_views(headers@) == exp);
        }
        if let Some((start, end)) = self.range {
            push_pair(&mut headers, "Range", range_str(start, end));
        }
        proof {
            lemma_concat_empty(exp);
            exp = exp + (match v.range {
                Some((s, e)) => seq![("Range"@, spec_range_str(s, e))],
                None => Seq::empty(),
            });
            assert(pair_views(headers@) == exp);
            assert(exp =~= spec_content_headers(v));
        }
        headers
    }

    /// The `response-*` query parameters this set contributes to a
    /// retrieval.
    pub(crate) fn get_query(&self) -> (r: Vec<(String, String)>)
        requires
            self.wf(),
        ensures
            pair_views(r@) == spec_content_query(self@),
    {
        let ghost v = self@;
        let mut query: Vec<(String, String)> = Vec::new();
        proof {
            assert(pair_views(query@) =~= Seq::<(Seq<char>, Seq<char>)>::empty());
        }
        if let Some(control) = self.get_cache_control_str() {
            push_pair(&mut query, "response-cache-control", control);
        }
        let ghost mut exp = Seq::<(Seq<char>, Seq<char>)>::empty() + (
        match spec_cache_control_str(v) {
            Some(s) => seq![("response-cache-control"@, s)],
            None => Seq::empty(),
        });
        proof {
            if spec_cache_control_str(v) is None {
                lemma_concat_empty(Seq::<(Seq<char>, Seq<char>)>::empty());
            }
            assert(pair_views(query@) == exp);
        }
        if let Some(d) = &self.content_disposition {
            push_pair(&mut query, "response-content-disposition", disposition_str(d));
        }
        proof {
            lemma_concat_empty(exp);
            exp = exp + (match v.content_disposition {
                Some(d) => seq![("response-content-disposition"@, spec_disposition_str(d))],
                None => Seq::empty(),
            });
            assert(pair_views(query@) == exp);
        }
        if let Some(e) = &self.content_encoding {
            push_pair(&mut query, "response-content-encoding", encoding_str(e));
        }
        proof {
            lemma_concat_empty(exp);
            exp = exp + (match v.content_encoding {
                Some(e) => seq![("response-content-encoding"@, spec_encoding_str(e))],
                None => Seq::empty(),
            });
            assert(pair_views(query@) == exp);
        }
        if let Some(lang) = &self.content_language {
            push_pair(&mut query, "response-content-language", lang.clone());
        }
        proof {
            lemma_concat_empty(exp);
            exp = exp + (match v.content_language {
                Some(s) => seq![("response-content-language"@, s)],
                None => Seq::empty(),
            });
            assert(pair_views(query@) == exp);
        }
        if let Some(content_type) = &self.content_type {
            push_pair(&mut query, "response-content-type", content_type.clone());
        }
        proof {
            lemma_concat_empty(exp);
            exp = exp + (match v.content_type {
                Some(s) => seq![("response-content-type"@, s)],
                None => Seq::empty(),
            });
            assert(pair_views(query@) == exp);
        }
        if let Some(expires) = &self.expires {
            push_pair(&mut query, "response-expires", expires.http_date());
        }
        proof {
            lemma_concat_empty(exp);
            exp = exp + (match v.expires {
                Some(ts) => seq![("response-expires"@, spec_http_date(ts))],
                None => Seq::empty(),
            });
            assert(pair_views(query@) == exp);
            assert(exp =~= spec_content_query(v));
        }
        query
    }
}

proof fn lemma_cc_join_snoc(ccs: Seq<CacheControlV>)
    requires
        ccs.len() > 0,
    ensures
        spec_cc_join(ccs) == if ccs.len() == 1 {
            spec_cc_str(ccs.last())
        } else {
            spec_cc_join(ccs.drop_last()) + ", "@ + spec_cc_str(ccs.last())
        },
    decreases ccs.len(),
{
    if ccs.len() == 1 {
        assert(ccs.first() == ccs.last());
    } else {
        lemma_cc_join_snoc(ccs.drop_first());
        assert(ccs.drop_first().last() == ccs.last());
        if ccs.len() == 2 {
            assert(ccs.drop_last().len() == 1);
            assert(ccs.drop_last().first() == ccs.first());
            assert(spec_cc_join(ccs) =~= spec_cc_join(ccs.drop_last()) + ", "@ + spec_cc_str(
                ccs.last(),
            ));
        } else {
            assert(ccs.drop_first().drop_last() =~= ccs.drop_last().drop_first());
            assert(ccs.drop_last().len() >= 2);
            assert(ccs.drop_last().first() == ccs.first());
            assert(spec_cc_join(ccs.drop_last()) =~= spec_cc_str(ccs.first()) + ", "@
                + spec_cc_join(ccs.drop_last().drop_first()));
            assert(spec_cc_join(ccs) =~= spec_cc_join(ccs.drop_last()) + ", "@ + spec_cc_str(
                ccs.last(),
            ));
        }
    }
}

/// The text of one cache-control directive.
fn cc_str(cc: &CacheControl) -> (r: String)
    ensures
        r@ == spec_cc_str(cc@),
{
    match cc {
        CacheControl::MaxAge(age) => {
            let mut s = String::new();
            s.append("max-age=");
            let digits = i32_to_string(*age);
            s.append(digits.as_str());
            s
        },
        CacheControl::SMaxAge(age) => {
            let mut s = String::new();
            s.append("s-maxage=");
            let digits = i32_to_string(*age);
            s.append(digits.as_str());
            s
        },
        CacheControl::MustRevalidate => "must-revalidate".to_owned(),
        CacheControl::ProxyRevalidate => "proxy-revalidate".to_owned(),
        CacheControl::Private => "private".to_owned(),
        CacheControl::Public => "public".to_owned(),
        CacheControl::MustUnderstand => "must-understand".to_owned(),
        CacheControl::NoTransform => "no-transform".to_owned(),
        CacheControl::Immutable => "immutable".to_owned(),
        CacheControl::StaleWhileRevalidate(age) => {
            let mut s = String::new();
            s.append("stale-while-revalidate=");
            let digits = i32_to_string(*age);
            s.append(digits.as_str());
            s
        },
        CacheControl::StaleIfError(age) => {
            let mut s = String::new();
            s.append("stale-if-error=");
            let digits = i32_to_string(*age);
            s.append(digits.as_str());
            s
        },
        CacheControl::NoCache => "no-cache".to_owned(),
        CacheControl::NoStore => "no-store".to_owned(),
        CacheControl::MaxStale(age) => {
            let mut s = String::new();
            s.append("max-stale=");
            let digits = i32_to_string(*age);
            s.append(digits.as_str());
            s
        },
        CacheControl::MinFresh(age) => {
            let mut s = String::new();
            s.append("min-fresh=");
            let digits = i32_to_string(*age);
            s.append(digits.as_str());
            s
        },
        CacheControl::OnlyIfCached => "only-if-cached".to_owned(),
        CacheControl::Value(s) => s.clone(),
    }
}

fn disposition_str(d: &ContentDisposition) -> (r: String)
    ensures
        r@ == spec_disposition_str(d@),
{
    match d {
        ContentDisposition::Inline => "inline".to_owned(),
        ContentDisposition::Attachment => "attachment".to_owned(),
        ContentDisposition::AttachmentWithFile(filename) => {
            let mut s = String::new();
            s.append("attachment; filename=");
            s.append(filename.as_str());
            s
        },
        ContentDisposition::Value(s) => s.clone(),
    }
}

fn encoding_str(e: &ContentEncoding) -> (r: String)
    ensures
        r@ == spec_encoding_str(e@),
{
    match e {
        ContentEncoding::GZIP => "gzip".to_owned(),
        ContentEncoding::Compress => "compress".to_owned(),
        ContentEncoding::Deflate => "deflate".to_owned(),
        ContentEncoding::Br => "br".to_owned(),
        ContentEncoding::ZSTD => "zstd".to_owned(),
        ContentEncoding::DCB => "dcb".to_owned(),
        ContentEncoding::DCZ => "dcz".to_owned(),
        ContentEncoding::Encoding(enc) => enc.clone(),
    }
}

fn range_str(start: i32, end: Option<i32>) -> (r: String)
    ensures
        r@ == spec_range_str(start, end),
{
    let mut s = String::new();
    s.append("bytes=");
    let digits = i32_to_string(start);
    s.append(digits.as_str());
    s.append("-");
    if let Some(e) = end {
        let edigits = i32_to_string(e);
        s.append(edigits.as_str());
    }
    s
}

} // verus!
