use vstd::prelude::*;
use crate::time::{spec_http_date, Timestamp};

verus! {

/// Spec view of a set of conditional headers.
pub struct ConditionalHeadersV {
    pub if_match: Option<Seq<char>>,
    pub if_modified_since: Option<Timestamp>,
    pub if_none_match: Option<Seq<char>>,
    pub if_unmodified_since: Option<Timestamp>,
}

/// Conditional headers of a request: entity-tag and modification-time
/// preconditions.
pub struct ConditionalHeaders {
    if_match: Option<String>,
    if_modified_since: Option<Timestamp>,
    if_none_match: Option<String>,
    if_unmodified_since: Option<Timestamp>,
}

impl View for ConditionalHeaders {
    type V = ConditionalHeadersV;

    closed spec fn view(&self) -> ConditionalHeadersV {
        ConditionalHeadersV {
            if_match: match self.if_match {
                Some(ref s) => Some(s@),
                None => None,
            },
            if_modified_since: self.if_modified_since,
            if_none_match: match self.if_none_match {
                Some(ref s) => Some(s@),
                None => None,
            },
            if_unmodified_since: self.if_unmodified_since,
        }
    }
}

/// A timestamp this set can format: well-formed and within the day count.
pub open spec fn cond_ts_ok(t: Option<Timestamp>) -> bool {
    match t {
        Some(ts) => ts.wf() && (ts.year >= 1 || ts.month >= 3),
        None => true,
    }
}

/// The header pairs of one set, in a fixed order.
pub open spec fn spec_cond_headers(v: ConditionalHeadersV) -> Seq<(Seq<char>, Seq<char>)> {
    (match v.if_match {
        Some(s) => seq![("If-Match"@, s)],
        None => Seq::empty(),
    }) + (match v.if_modified_since {
        Some(ts) => seq![("If-Modified-Since"@, spec_http_date(ts))],
        None => Seq::empty(),
    }) + (match v.if_none_match {
        Some(s) => seq![("If-None-Match"@, s)],
        None => Seq::empty(),
    }) + (match v.if_unmodified_since {
        Some(ts) => seq![("If-Unmodified-Since"@, spec_http_date(ts))],
        None => Seq::empty(),
    })
}

impl Default for ConditionalHeaders {
    /// A set with no condition.
    fn default() -> (r: Self)
        ensures
            r@ == (ConditionalHeadersV {
                if_match: None,
                if_modified_since: None,
                if_none_match: None,
                if_unmodified_since: None,
            }),
            r.wf(),
    {
        Self { if_match: None, if_modified_since: None, if_none_match: None, if_unmodified_since: None }
    }
}

impl ConditionalHeaders {
    /// Whether every stored timestamp can be formatted.
    pub open spec fn wf(&self) -> bool {
        cond_ts_ok(self@.if_modified_since) && cond_ts_ok(self@.if_unmodified_since)
    }

    pub fn if_match(&mut self, value: &str)
        ensures
            final(self)@ == (ConditionalHeadersV { if_match: Some(value@), ..old(self)@ }),
            old(self).wf() ==> final(self).wf(),
    {
        self.if_match = Some(value.to_owned());
    }

    pub fn if_modified_since(&mut self, datetime: Timestamp)
        requires
            datetime.wf(),
            datetime.year >= 1 || datetime.month >= 3,
        ensures
            final(self)@ == (ConditionalHeadersV {
                if_modified_since: Some(datetime),
                ..old(self)@
            }),
            old(self).wf() ==> final(self).wf(),
    {
        self.if_modified_since = Some(datetime);
    }

    pub fn if_none_match(&mut self, value: &str)
        ensures
            final(self)@ == (ConditionalHeadersV { if_none_match: Some(value@), ..old(self)@ }),
            old(self).wf() ==> final(self).wf(),
    {
        self.if_none_match = Some(value.to_owned());
    }

    pub fn if_unmodified_since(&mut self, datetime: Timestamp)
        requires
            datetime.wf(),
            datetime.year >= 1 || datetime.month >= 3,
        ensures
            final(self)@ == (ConditionalHeadersV {
                if_unmodified_since: Some(datetime),
                ..old(self)@
            }),
            old(self).wf() ==> final(self).wf(),
    {
        self.if_unmodified_since = Some(datetime);
    }

    /// The conditional header pairs this set contributes to a request.
    pub fn get_headers(&self) -> (r: Vec<(String, String)>)
        requires
            self.wf(),
        ensures
            crate::order::pair_views(r@) == spec_cond_headers(self@),
    {
        let ghost v = self@;
        let mut headers: Vec<(String, String)> = Vec::new();
        proof {
            assert(crate::order::pair_views(headers@) =~= Seq::<(Seq<char>, Seq<char>)>::empty());
        }
        if let Some(value) = &self.if_match {
            crate::api::x_amz_headers::push_pair(&mut headers, "If-Match", value.clone());
        }
        let ghost mut exp = Seq::<(Seq<char>, Seq<char>)>::empty() + (match v.if_match {
            Some(s) => seq![("If-Match"@, s)],
            None => Seq::empty(),
        });
        proof {
            if v.if_match is None {
                crate::api::x_amz_headers::lemma_concat_empty(
                    Seq::<(Seq<char>, Seq<char>)>::empty(),
                );
            }
            assert(crate::order::pair_views(headers@) == exp);
        }
        if let Some(datetime) = &self.if_modified_since {
            crate::api::x_amz_headers::push_pair(
                &mut headers,
                "If-Modified-Since",
                datetime.http_date(),
            );
        }
        proof {
            crate::api::x_amz_headers::lemma_concat_empty(exp);
            exp = exp + (match v.if_modified_since {
                Some(ts) => seq![("If-Modified-Since"@, spec_http_date(ts))],
                None => Seq::empty(),
            });
            assert(crate::order::pair_views(headers@) == exp);
        }
        if let Some(value) = &self.if_none_match {
            crate::api::x_amz_headers::push_pair(&mut headers, "If-None-Match", value.clone());
        }
        proof {
            crate::api::x_amz_headers::lemma_concat_empty(exp);
            exp = exp + (match v.if_none_match {
                Some(s) => seq![("If-None-Match"@, s)],
                None => Seq::empty(),
            });
            assert(crate::order::pair_views(headers@) == exp);
        }
        if let Some(datetime) = &self.if_unmodified_since {
            crate::api::x_amz_headers::push_pair(
                &mut headers,
                "If-Unmodified-Since",
                datetime.http_date(),
            );
        }
        proof {
            crate::api::x_amz_headers::lemma_concat_empty(exp);
            exp = exp + (match v.if_unmodified_since {
                Some(ts) => seq![("If-Unmodified-Since"@, spec_http_date(ts))],
                None => Seq::empty(),
            });
            assert(crate::order::pair_views(headers@) == exp);
            assert(exp =~= spec_cond_headers(v));
        }
        headers
    }
}

} // verus!
