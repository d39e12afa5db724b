use vstd::prelude::*;
use vstd::utf8::encode_utf8;
use crate::text::{hex_digit_upper, push_char, spec_hex_digit_upper};

verus! {

// ----------------------------------------------------------------------------
// Reserved byte sets
//
// A byte of the UTF-8 encoding of a key, value or path is written out as
// `%XX` (upper-case hex) when it is not ASCII, when it is a control byte
// (0x00..=0x1F or 0x7F), or when it is one of the reserved characters below;
// any other byte is written as itself.  The query set reserves
// ` / : , ? # [ ] { } | @ ! $ & ' ( ) * + ; = % < > " ^ ` \ `; the path set
// is the same except that `/` passes through.
// ----------------------------------------------------------------------------

/// Reserved characters shared by the query set and the path set, besides `/`.
pub open spec fn common_reserved_byte(b: u8) -> bool {
    ||| b == 0x20  // space
    ||| b == 0x3a  // :
    ||| b == 0x2c  // ,
    ||| b == 0x3f  // ?
    ||| b == 0x23  // #
    ||| b == 0x5b  // [
    ||| b == 0x5d  // ]
    ||| b == 0x7b  // {
    ||| b == 0x7d  // }
    ||| b == 0x7c  // |
    ||| b == 0x40  // @
    ||| b == 0x21  // !
    ||| b == 0x24  // $
    ||| b == 0x26  // &
    ||| b == 0x27  // '
    ||| b == 0x28  // (
    ||| b == 0x29  // )
    ||| b == 0x2a  // *
    ||| b == 0x2b  // +
    ||| b == 0x3b  // ;
    ||| b == 0x3d  // =
    ||| b == 0x25  // %
    ||| b == 0x3c  // <
    ||| b == 0x3e  // >
    ||| b == 0x22  // "
    ||| b == 0x5e  // ^
    ||| b == 0x60  // `
    ||| b == 0x5c  // backslash
}

/// Whether a byte is escaped when it stands in a query key or value.
pub open spec fn query_byte_escaped(b: u8) -> bool {
    b <= 0x1f || b >= 0x7f || b == 0x2f || common_reserved_byte(b)
}

/// Whether a byte is escaped when it stands in a path segment.
pub open spec fn path_byte_escaped(b: u8) -> bool {
    b <= 0x1f || b >= 0x7f || common_reserved_byte(b)
}

fn common_reserved_byte_exec(b: u8) -> (r: bool)
    ensures
        r == common_reserved_byte(b),
{
    b == 0x20 || b == 0x3a || b == 0x2c || b == 0x3f || b == 0x23 || b == 0x5b || b == 0x5d
        || b == 0x7b || b == 0x7d || b == 0x7c || b == 0x40 || b == 0x21 || b == 0x24 || b == 0x26
        || b == 0x27 || b == 0x28 || b == 0x29 || b == 0x2a || b == 0x2b || b == 0x3b || b == 0x3d
        || b == 0x25 || b == 0x3c || b == 0x3e || b == 0x22 || b == 0x5e || b == 0x60 || b == 0x5c
}

// ----------------------------------------------------------------------------
// Escaping, byte by byte
// ----------------------------------------------------------------------------

/// Characters emitted for one byte: `%XX` when escaped, the byte itself
/// otherwise.
pub open spec fn spec_escape_byte(b: u8, escaped: bool) -> Seq<char> {
    if escaped {
        seq!['%', spec_hex_digit_upper(b as int / 16), spec_hex_digit_upper(b as int % 16)]
    } else {
        seq![b as char]
    }
}

/// Characters emitted for a byte sequence under a byte-wise escaping rule.
pub open spec fn spec_escape_bytes(bytes: Seq<u8>, rule: spec_fn(u8) -> bool) -> Seq<char>
    decreases bytes.len(),
{
    if bytes.len() == 0 {
        Seq::empty()
    } else {
        spec_escape_byte(bytes.first(), rule(bytes.first())) + spec_escape_bytes(
            bytes.drop_first(),
            rule,
        )
    }
}

proof fn lemma_escape_bytes_push(bytes: Seq<u8>, b: u8, rule: spec_fn(u8) -> bool)
    ensures
        spec_escape_bytes(bytes.push(b), rule) == spec_escape_bytes(bytes, rule)
            + spec_escape_byte(b, rule(b)),
    decreases bytes.len(),
{
    if bytes.len() == 0 {
        assert(bytes.push(b).first() == b);
        assert(bytes.push(b).drop_first() =~= Seq::<u8>::empty());
        assert(spec_escape_bytes(Seq::<u8>::empty(), rule) =~= Seq::<char>::empty());
        assert(spec_escape_bytes(bytes.push(b), rule) =~= spec_escape_byte(b, rule(b)));
        assert(spec_escape_bytes(bytes, rule) + spec_escape_byte(b, rule(b)) =~= spec_escape_byte(
            b,
            rule(b),
        ));
    } else {
        assert(bytes.push(b).drop_first() =~= bytes.drop_first().push(b));
        lemma_escape_bytes_push(bytes.drop_first(), b, rule);
        assert(spec_escape_bytes(bytes.push(b), rule) =~= spec_escape_bytes(bytes, rule)
            + spec_escape_byte(b, rule(b)));
    }
}

/// The query escaping rule as a first-class function.
pub open spec fn query_rule() -> spec_fn(u8) -> bool {
    (|b: u8| query_byte_escaped(b))
}

/// The path escaping rule as a first-class function.
pub open spec fn path_rule() -> spec_fn(u8) -> bool {
    (|b: u8| path_byte_escaped(b))
}

/// Percent-encoding of a string for use in a query key or value: its UTF-8
/// bytes, each escaped under the query rule.
pub open spec fn spec_percent_encode_query(s: Seq<char>) -> Seq<char> {
    spec_escape_bytes(encode_utf8(s), query_rule())
}

/// Percent-encoding of a string for use in the action path: its UTF-8 bytes,
/// each escaped under the path rule, which lets `/` through.
pub open spec fn spec_percent_encode_path(s: Seq<char>) -> Seq<char> {
    spec_escape_bytes(encode_utf8(s), path_rule())
}

fn escape_into(r: &mut String, b: u8, escaped: bool)
    requires
        escaped || b < 0x80,
    ensures
        final(r)@ == old(r)@ + spec_escape_byte(b, escaped),
{
    if escaped {
        push_char(r, '%');
        push_char(r, hex_digit_upper(b / 16));
        push_char(r, hex_digit_upper(b % 16));
        proof {
            assert(final(r)@ =~= old(r)@ + spec_escape_byte(b, escaped));
        }
    } else {
        push_char(r, b as char);
        proof {
            assert(final(r)@ =~= old(r)@ + spec_escape_byte(b, escaped));
        }
    }
}

/// Percent-encode a query key or value.
pub fn percent_encode_query(value: &str) -> (r: String)
    ensures
        r@ == spec_percent_encode_query(value@),
{
    let bs = value.as_bytes();
    let mut r = String::new();
    let n = bs.len();
    proof {
        assert(bs@.take(0) =~= Seq::<u8>::empty());
    }
    for i in 0..n
        invariant
            n == bs@.len(),
            bs@ == encode_utf8(value@),
            r@ == spec_escape_bytes(bs@.take(i as int), query_rule()),
    {
        let b = bs[i];
        escape_into(&mut r, b, b <= 0x1f || b >= 0x7f || b == 0x2f || common_reserved_byte_exec(b));
        proof {
            assert(bs@.take(i + 1) =~= bs@.take(i as int).push(bs@[i as int]));
            lemma_escape_bytes_push(bs@.take(i as int), bs@[i as int], query_rule());
        }
    }
    proof {
        assert(bs@.take(n as int) =~= bs@);
    }
    r
}

/// Percent-encode an action path, leaving `/` unescaped.
pub fn percent_encode_path(value: &str) -> (r: String)
    ensures
        r@ == spec_percent_encode_path(value@),
{
    let bs = value.as_bytes();
    let mut r = String::new();
    let n = bs.len();
    proof {
        assert(bs@.take(0) =~= Seq::<u8>::empty());
    }
    for i in 0..n
        invariant
            n == bs@.len(),
            bs@ == encode_utf8(value@),
            r@ == spec_escape_bytes(bs@.take(i as int), path_rule()),
    {
        let b = bs[i];
        escape_into(&mut r, b, b <= 0x1f || b >= 0x7f || common_reserved_byte_exec(b));
        proof {
            assert(bs@.take(i + 1) =~= bs@.take(i as int).push(bs@[i as int]));
            lemma_escape_bytes_push(bs@.take(i as int), bs@[i as int], path_rule());
        }
    }
    proof {
        assert(bs@.take(n as int) =~= bs@);
    }
    r
}

} // verus!
