use vstd::prelude::*;
use crate::error::S3Error;

verus! {

// ----------------------------------------------------------------------------
// The event vocabulary of a response body
//
// A response body is tokenized once, up front, into a flat list of events;
// the decoders then walk that list.  Start and end tags are kept by their
// local name; character data by its text; every other event (prolog,
// whitespace, comments, CDATA, processing instructions) is kept as `Other`
// so that positions in the stream stay faithful to the pull parser.
// ----------------------------------------------------------------------------

/// Spec-level view of one event.
pub enum Tok {
    Start(Seq<char>),
    End(Seq<char>),
    Text(Seq<char>),
    DocEnd,
    Other,
}

pub enum XmlToken {
    Start(String),
    End(String),
    Text(String),
    DocEnd,
    Other,
}

impl View for XmlToken {
    type V = Tok;

    open spec fn view(&self) -> Tok {
        match self {
            XmlToken::Start(s) => Tok::Start(s@),
            XmlToken::End(s) => Tok::End(s@),
            XmlToken::Text(s) => Tok::Text(s@),
            XmlToken::DocEnd => Tok::DocEnd,
            XmlToken::Other => Tok::Other,
        }
    }
}

/// Views of a token list.
pub open spec fn tok_views(toks: Seq<XmlToken>) -> Seq<Tok> {
    toks.map_values(|t: XmlToken| t@)
}

fn token_clone(t: &XmlToken) -> (r: XmlToken)
    ensures
        r@ == t@,
{
    match t {
        XmlToken::Start(s) => XmlToken::Start(s.clone()),
        XmlToken::End(s) => XmlToken::End(s.clone()),
        XmlToken::Text(s) => XmlToken::Text(s.clone()),
        XmlToken::DocEnd => XmlToken::DocEnd,
        XmlToken::Other => XmlToken::Other,
    }
}

// ----------------------------------------------------------------------------
// The pull parser behind the tokens
// ----------------------------------------------------------------------------

/// The outcome of pull-parsing a body: the event views up to and including
/// the document end when the text is well-formed to its end, and nothing
/// when the parser stops at an error instead.
pub uninterp spec fn xml_tokens_of(data: Seq<u8>) -> Option<Seq<Tok>>;

/// The events a reader will still deliver: for a clean stream they close
/// with the document end; for an erroring stream they are the finitely many
/// before the error.
pub uninterp spec fn reader_pending(r: EventSource) -> Seq<Tok>;

/// Whether the reader's stream reaches the document end rather than an
/// error.
pub uninterp spec fn reader_clean(r: EventSource) -> bool;

/// Holds xml's pull parser.  Verus refuses a declaration of the reader type
/// itself (its type parameter carries an undeclared trait bound), so the
/// parser lives opaquely behind this struct.
#[verifier::external_body]
struct EventSource {
    inner: xml::EventReader<std::io::Cursor<Vec<u8>>>,
}

/// Relies on xml's EventReader::new: a pull parser over the given bytes.
/// Its event stream is the tokenization of those bytes.  When that
/// tokenization succeeds, the pending events are exactly its tokens, and
/// the document end stands once, as the last of them (the parser emits it
/// only after every other event).  When it fails, the pending events are
/// those before the error, none of them the document end.
#[verifier::external_body]
fn new_reader(data: &[u8]) -> (r: EventSource)
    ensures
        match xml_tokens_of(data@) {
            Some(s) => reader_clean(r) && reader_pending(r) == s && s.len() > 0 && s.last()
                == Tok::DocEnd && (forall|k: int| 0 <= k < s.len() - 1 ==> !(#[trigger] s[k] is DocEnd)),
            None => !reader_clean(r) && (forall|k: int|
                0 <= k < reader_pending(r).len() ==> !(#[trigger] reader_pending(r)[k] is DocEnd)),
        },
{
    EventSource { inner: xml::EventReader::new(std::io::Cursor::new(data.to_vec())) }
}

/// Relies on xml's EventReader::next: one pull-parsing step.  Start and end
/// tags are taken by their local name, character data by its text; a
/// well-formedness error becomes a decode error.  Each call delivers the
/// first pending event; on an erroring stream with none left it reports the
/// error, and keeps doing so.
#[verifier::external_body]
fn next_event(reader: &mut EventSource) -> (r: Result<XmlToken, S3Error>)
    ensures
        reader_clean(*final(reader)) == reader_clean(*old(reader)),
        reader_pending(*old(reader)).len() > 0 ==> (r matches Ok(t) && t@ == reader_pending(
            *old(reader),
        ).first() && reader_pending(*final(reader)) == reader_pending(*old(reader)).drop_first()),
        (reader_pending(*old(reader)).len() == 0 && !reader_clean(*old(reader))) ==> (r is Err
            && reader_pending(*final(reader)).len() == 0),
        r matches Err(e) ==> e == S3Error::DecodeError,
{
    match reader.inner.next() {
        Ok(xml::reader::XmlEvent::StartElement { name, .. }) => Ok(XmlToken::Start(name.local_name)),
        Ok(xml::reader::XmlEvent::EndElement { name }) => Ok(XmlToken::End(name.local_name)),
        Ok(xml::reader::XmlEvent::Characters(t)) => Ok(XmlToken::Text(t)),
        Ok(xml::reader::XmlEvent::EndDocument) => Ok(XmlToken::DocEnd),
        Ok(_) => Ok(XmlToken::Other),
        Err(_) => Err(S3Error::DecodeError),
    }
}

/// Tokenize a response body: the token list of the bytes, exactly when
/// their tokenization succeeds; with the document end once, as the last
/// token.
pub fn tokenize(data: &[u8]) -> (r: Result<Vec<XmlToken>, S3Error>)
    ensures
        r matches Ok(toks) ==> xml_tokens_of(data@) == Some(tok_views(toks@)),
        r is Err <==> xml_tokens_of(data@) is None,
        r matches Err(e) ==> e == S3Error::DecodeError,
        xml_tokens_of(data@) matches Some(s) ==> s.len() > 0 && s.last() == Tok::DocEnd && (
        forall|k: int| 0 <= k < s.len() - 1 ==> !(#[trigger] s[k] is DocEnd)),
{
    let mut reader = new_reader(data);
    let mut toks: Vec<XmlToken> = Vec::new();
    proof {
        match xml_tokens_of(data@) {
            Some(s) => {
                assert(tok_views(toks@) =~= s.take(0));
                assert(reader_pending(reader) =~= s.skip(0));
            },
            None => {},
        }
    }
    loop
        invariant
            match xml_tokens_of(data@) {
                Some(s) => reader_clean(reader) && s.len() > 0 && s.last() == Tok::DocEnd && (
                forall|k: int| 0 <= k < s.len() - 1 ==> !(#[trigger] s[k] is DocEnd)) && toks@.len()
                    < s.len() && tok_views(toks@) == s.take(toks@.len() as int) && reader_pending(
                    reader,
                ) == s.skip(toks@.len() as int),
                None => !reader_clean(reader) && (forall|k: int|
                    0 <= k < reader_pending(reader).len() ==> !(#[trigger] reader_pending(reader)[k]
                        is DocEnd)),
            },
        decreases reader_pending(reader).len(),
    {
        let ghost pending0 = reader_pending(reader);
        match next_event(&mut reader) {
            Ok(t) => {
                let is_end = match &t {
                    XmlToken::DocEnd => true,
                    _ => false,
                };
                let ghost before = toks@;
                toks.push(t);
                proof {
                    match xml_tokens_of(data@) {
                        Some(s) => {
                            assert(pending0.len() == s.len() - before.len());
                            assert(t@ == s[before.len() as int]);
                            assert(tok_views(toks@) =~= s.take(toks@.len() as int));
                            if is_end {
                                assert(before.len() == s.len() - 1);
                                assert(tok_views(toks@) =~= s);
                            } else {
                                assert(before.len() < s.len() - 1);
                                assert(reader_pending(reader) =~= s.skip(toks@.len() as int));
                            }
                        },
                        None => {
                            assert(pending0.len() > 0);
                            assert(!(t@ is DocEnd));
                            assert(!is_end);
                            assert(forall|k: int|
                                0 <= k < reader_pending(reader).len()
                                    ==> reader_pending(reader)[k] == #[trigger] pending0[k + 1]);
                        },
                    }
                }
                if is_end {
                    return Ok(toks);
                }
            },
            Err(e) => {
                proof {
                    match xml_tokens_of(data@) {
                        Some(s) => {
                            assert(pending0.len() > 0);
                            assert(false);
                        },
                        None => {},
                    }
                }
                return Err(e);
            },
        }
    }
}

// ----------------------------------------------------------------------------
// A cursor over the token list
// ----------------------------------------------------------------------------

/// Forward-only cursor over the tokenized events of one response body.
pub struct XmlReader {
    toks: Vec<XmlToken>,
    pos: usize,
}

impl XmlReader {
    /// The event views this cursor walks.
    pub closed spec fn toks(&self) -> Seq<Tok> {
        tok_views(self.toks@)
    }

    /// The cursor position.
    pub closed spec fn pos(&self) -> int {
        self.pos as int
    }

    pub open spec fn wf(&self) -> bool {
        0 <= self.pos() <= self.toks().len()
    }

    /// Cursor at the first token of a list.
    pub fn new(toks: Vec<XmlToken>) -> (r: XmlReader)
        ensures
            r.toks() == tok_views(toks@),
            r.pos() == 0,
            r.wf(),
    {
        XmlReader { toks, pos: 0 }
    }

    /// Tokenize a body and place a cursor at its start.
    pub fn from_bytes(data: &[u8]) -> (r: Result<XmlReader, S3Error>)
        ensures
            r matches Ok(rd) ==> (xml_tokens_of(data@) == Some(rd.toks()) && rd.pos() == 0
                && rd.wf() && rd.toks().len() > 0 && rd.toks().last() == Tok::DocEnd),
            r is Err <==> xml_tokens_of(data@) is None,
            r matches Err(e) ==> e == S3Error::DecodeError,
    {
        let toks = tokenize(data)?;
        Ok(XmlReader::new(toks))
    }

    /// The next event, advancing the cursor; `None` past the end.
    pub fn next(&mut self) -> (r: Option<XmlToken>)
        requires
            old(self).wf(),
        ensures
            final(self).toks() == old(self).toks(),
            final(self).wf(),
            old(self).pos() < old(self).toks().len() ==> (r matches Some(t) && t@ == old(
                self,
            ).toks()[old(self).pos()] && final(self).pos() == old(self).pos() + 1),
            old(self).pos() >= old(self).toks().len() ==> r is None && final(self).pos() == old(
                self,
            ).pos(),
    {
        if self.pos < self.toks.len() {
            let t = token_clone(&self.toks[self.pos]);
            self.pos = self.pos + 1;
            proof {
                assert(tok_views(self.toks@)[self.pos - 1] == self.toks@[self.pos - 1]@);
            }
            Some(t)
        } else {
            None
        }
    }
}

} // verus!
