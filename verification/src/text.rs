use vstd::prelude::*;
use crate::error::S3Error;
use crate::time::{digit_val, is_digit};

verus! {

// ----------------------------------------------------------------------------
// Digits
// ----------------------------------------------------------------------------

/// Character for one digit value in base 16 (lower case letters).
pub open spec fn spec_hex_digit(n: int) -> char {
    if n == 0 {
        '0'
    } else if n == 1 {
        '1'
    } else if n == 2 {
        '2'
    } else if n == 3 {
        '3'
    } else if n == 4 {
        '4'
    } else if n == 5 {
        '5'
    } else if n == 6 {
        '6'
    } else if n == 7 {
        '7'
    } else if n == 8 {
        '8'
    } else if n == 9 {
        '9'
    } else if n == 10 {
        'a'
    } else if n == 11 {
        'b'
    } else if n == 12 {
        'c'
    } else if n == 13 {
        'd'
    } else if n == 14 {
        'e'
    } else {
        'f'
    }
}

/// Character for one digit value in base 16 (upper case letters).
pub open spec fn spec_hex_digit_upper(n: int) -> char {
    if n < 10 {
        spec_hex_digit(n)
    } else if n == 10 {
        'A'
    } else if n == 11 {
        'B'
    } else if n == 12 {
        'C'
    } else if n == 13 {
        'D'
    } else if n == 14 {
        'E'
    } else {
        'F'
    }
}

pub fn hex_digit(n: u8) -> (c: char)
    requires
        n < 16,
    ensures
        c == spec_hex_digit(n as int),
{
    match n {
        0 => '0',
        1 => '1',
        2 => '2',
        3 => '3',
        4 => '4',
        5 => '5',
        6 => '6',
        7 => '7',
        8 => '8',
        9 => '9',
        10 => 'a',
        11 => 'b',
        12 => 'c',
        13 => 'd',
        14 => 'e',
        _ => 'f',
    }
}

pub fn hex_digit_upper(n: u8) -> (c: char)
    requires
        n < 16,
    ensures
        c == spec_hex_digit_upper(n as int),
{
    match n {
        0 => '0',
        1 => '1',
        2 => '2',
        3 => '3',
        4 => '4',
        5 => '5',
        6 => '6',
        7 => '7',
        8 => '8',
        9 => '9',
        10 => 'A',
        11 => 'B',
        12 => 'C',
        13 => 'D',
        14 => 'E',
        _ => 'F',
    }
}

// ----------------------------------------------------------------------------
// Appending one character to a String
// ----------------------------------------------------------------------------

/// Relies on String::push: appends exactly the given character.
#[verifier::external_body]
pub(crate) fn push_char(s: &mut String, c: char)
    ensures
        final(s)@ == old(s)@.push(c),
{
    s.push(c);
}

// ----------------------------------------------------------------------------
// Lower-case hex encoding of bytes
// ----------------------------------------------------------------------------

/// The two lower-case hex characters of one byte.
pub open spec fn spec_hex_byte(b: u8) -> Seq<char> {
    seq![spec_hex_digit(b as int / 16), spec_hex_digit(b as int % 16)]
}

/// Lower-case hex encoding of a byte sequence, two characters per byte.
pub open spec fn spec_hex_lower(bytes: Seq<u8>) -> Seq<char>
    decreases bytes.len(),
{
    if bytes.len() == 0 {
        Seq::empty()
    } else {
        spec_hex_byte(bytes.first()) + spec_hex_lower(bytes.drop_first())
    }
}

proof fn lemma_hex_lower_push(bytes: Seq<u8>, b: u8)
    ensures
        spec_hex_lower(bytes.push(b)) == spec_hex_lower(bytes) + spec_hex_byte(b),
    decreases bytes.len(),
{
    if bytes.len() == 0 {
        assert(bytes.push(b).first() == b);
        assert(bytes.push(b).drop_first() =~= Seq::<u8>::empty());
        assert(spec_hex_lower(Seq::<u8>::empty()) =~= Seq::<char>::empty());
        assert(spec_hex_lower(bytes.push(b)) =~= spec_hex_byte(b));
        assert(spec_hex_lower(bytes) + spec_hex_byte(b) =~= spec_hex_byte(b));
    } else {
        assert(bytes.push(b).drop_first() =~= bytes.drop_first().push(b));
        lemma_hex_lower_push(bytes.drop_first(), b);
        assert(spec_hex_lower(bytes.push(b)) =~= spec_hex_lower(bytes) + spec_hex_byte(b));
    }
}

/// Lower-case hex string of a byte slice.
pub fn to_hex_lower(data: &[u8]) -> (r: String)
    ensures
        r@ == spec_hex_lower(data@),
        r@.len() == 2 * data@.len(),
{
    let mut r = String::new();
    let n = data.len();
    for i in 0..n
        invariant
            n == data@.len(),
            r@ == spec_hex_lower(data@.take(i as int)),
            r@.len() == 2 * i,
    {
        let b = data[i];
        push_char(&mut r, hex_digit(b / 16));
        push_char(&mut r, hex_digit(b % 16));
        proof {
            assert(data@.take(i + 1) =~= data@.take(i as int).push(data@[i as int]));
            lemma_hex_lower_push(data@.take(i as int), data@[i as int]);
            assert(r@ =~= spec_hex_lower(data@.take(i as int)) + spec_hex_byte(data@[i as int]));
        }
    }
    proof {
        assert(data@.take(n as int) =~= data@);
    }
    r
}

// ----------------------------------------------------------------------------
// Decimal formatting
// ----------------------------------------------------------------------------

/// Decimal digit sequence of a natural number, no sign, no leading zeros
/// (the single digit `0` for zero).
pub open spec fn spec_udec(n: nat) -> Seq<char>
    decreases n,
{
    if n < 10 {
        seq![spec_hex_digit(n as int)]
    } else {
        spec_udec(n / 10).push(spec_hex_digit(n as int % 10))
    }
}

/// Decimal digit sequence of an integer, with `-` for negative values.
pub open spec fn spec_idec(n: int) -> Seq<char> {
    if n >= 0 {
        spec_udec(n as nat)
    } else {
        seq!['-'] + spec_udec((-n) as nat)
    }
}

/// Decimal string of an unsigned value.
pub fn u64_to_string(n: u64) -> (r: String)
    ensures
        r@ == spec_udec(n as nat),
    decreases n,
{
    if n < 10 {
        let mut r = String::new();
        push_char(&mut r, hex_digit(n as u8));
        proof {
            assert(r@ =~= spec_udec(n as nat));
        }
        r
    } else {
        let mut r = u64_to_string(n / 10);
        push_char(&mut r, hex_digit((n % 10) as u8));
        r
    }
}

/// Decimal string of a signed value.
pub fn i64_to_string(n: i64) -> (r: String)
    ensures
        r@ == spec_idec(n as int),
{
    if n >= 0 {
        u64_to_string(n as u64)
    } else {
        let mag: u64 = (-(n + 1)) as u64 + 1;
        let mut r = String::new();
        push_char(&mut r, '-');
        let digits = u64_to_string(mag);
        r.append(digits.as_str());
        proof {
            assert(mag as int == -(n as int));
            assert(r@ =~= seq!['-'] + spec_udec((-(n as int)) as nat));
        }
        r
    }
}

/// Decimal string of an `i32`.
pub fn i32_to_string(n: i32) -> (r: String)
    ensures
        r@ == spec_idec(n as int),
{
    i64_to_string(n as i64)
}

// ----------------------------------------------------------------------------
// Decimal parsing
// ----------------------------------------------------------------------------

/// A non-empty run of decimal digits.
pub open spec fn spec_dec_digits_ok(s: Seq<char>) -> bool {
    s.len() > 0 && (forall|i: int| 0 <= i < s.len() ==> is_digit(#[trigger] s[i]))
}

/// Value of a digit sequence, most significant first.
pub open spec fn spec_dec_value(s: Seq<char>) -> int
    decreases s.len(),
{
    if s.len() == 0 {
        0
    } else {
        spec_dec_value(s.drop_last()) * 10 + digit_val(s.last())
    }
}

/// An unsigned decimal literal with an optional leading `+`, as the standard
/// library parses it for an unsigned target: `None` for an empty or
/// non-digit body and for values above the target's maximum.
pub open spec fn spec_parse_usize(s: Seq<char>) -> Option<int> {
    let body = if s.len() > 0 && s[0] == '+' {
        s.drop_first()
    } else {
        s
    };
    if spec_dec_digits_ok(body) && spec_dec_value(body) <= usize::MAX {
        Some(spec_dec_value(body))
    } else {
        None
    }
}

/// A signed decimal literal with an optional sign, as the standard library
/// parses it for an `i32` target.
pub open spec fn spec_parse_i32(s: Seq<char>) -> Option<int> {
    if s.len() > 0 && (s[0] == '+' || s[0] == '-') {
        let body = s.drop_first();
        if spec_dec_digits_ok(body) {
            let v = if s[0] == '-' {
                -spec_dec_value(body)
            } else {
                spec_dec_value(body)
            };
            if i32::MIN <= v <= i32::MAX {
                Some(v)
            } else {
                None
            }
        } else {
            None
        }
    } else {
        if spec_dec_digits_ok(s) && spec_dec_value(s) <= i32::MAX {
            Some(spec_dec_value(s))
        } else {
            None
        }
    }
}

proof fn lemma_dec_value_nonneg(s: Seq<char>)
    requires
        forall|i: int| 0 <= i < s.len() ==> is_digit(#[trigger] s[i]),
    ensures
        spec_dec_value(s) >= 0,
    decreases s.len(),
{
    if s.len() > 0 {
        lemma_dec_value_nonneg(s.drop_last());
    }
}

proof fn lemma_dec_value_prefix_le(s: Seq<char>, i: int)
    requires
        0 <= i <= s.len(),
        forall|j: int| 0 <= j < s.len() ==> is_digit(#[trigger] s[j]),
    ensures
        spec_dec_value(s.take(i)) <= spec_dec_value(s),
    decreases s.len() - i,
{
    if i < s.len() {
        lemma_dec_value_prefix_le(s, i + 1);
        let p = s.take(i + 1);
        assert(p.drop_last() =~= s.take(i));
        assert(p.last() == s[i]);
        lemma_dec_value_nonneg(s.take(i));
        assert(spec_dec_value(s.take(i)) <= spec_dec_value(s.take(i)) * 10 + digit_val(s[i]));
    } else {
        assert(s.take(i) =~= s);
    }
}

/// Parse the digits of `s` from `start` on, refusing values above `cap`.
fn parse_digits(s: &str, start: usize, cap: u64) -> (r: Result<u64, S3Error>)
    requires
        start as int <= s@.len(),
    ensures
        r matches Ok(v) ==> spec_dec_digits_ok(s@.skip(start as int)) && v == spec_dec_value(
            s@.skip(start as int),
        ) && v <= cap,
        r is Err ==> !(spec_dec_digits_ok(s@.skip(start as int)) && spec_dec_value(
            s@.skip(start as int),
        ) <= cap),
        r matches Err(e) ==> e == S3Error::DecodeError,
{
    let n = s.unicode_len();
    if start >= n {
        proof {
            assert(s@.skip(start as int).len() == 0);
        }
        return Err(S3Error::DecodeError);
    }
    // every character must be a digit
    let mut i: usize = start;
    while i < n
        invariant
            start <= i <= n,
            n == s@.len(),
            forall|j: int| start <= j < i ==> is_digit(#[trigger] s@[j]),
        decreases n - i,
    {
        let c = s.get_char(i);
        let u = c as u32;
        if !(48 <= u && u <= 57) {
            proof {
                assert(s@.skip(start as int)[i - start] == s@[i as int]);
                assert(!is_digit(s@[i as int]));
            }
            return Err(S3Error::DecodeError);
        }
        i = i + 1;
    }
    proof {
        assert forall|j: int| 0 <= j < s@.skip(start as int).len() implies is_digit(
            #[trigger] s@.skip(start as int)[j],
        ) by {
            assert(s@.skip(start as int)[j] == s@[j + start]);
        }
    }
    // accumulate, refusing overflow past the cap
    let mut acc: u64 = 0;
    let mut k: usize = start;
    proof {
        assert(s@.skip(start as int).take(0) =~= Seq::<char>::empty());
    }
    while k < n
        invariant
            start <= k <= n,
            n == s@.len(),
            forall|j: int| start <= j < n ==> is_digit(#[trigger] s@[j]),
            forall|j: int|
                0 <= j < s@.skip(start as int).len() ==> is_digit(
                    #[trigger] s@.skip(start as int)[j],
                ),
            acc == spec_dec_value(s@.skip(start as int).take(k - start)),
            acc <= cap,
        decreases n - k,
    {
        let c = s.get_char(k);
        let u = c as u32;
        let d: u64 = (u - 48) as u64;
        proof {
            assert(is_digit(s@[k as int]));
            assert(d == digit_val(s@[k as int]));
            assert(d <= 9);
        }
        if acc > cap / 10 || d > cap || 10 * acc > cap - d {
            proof {
                let body = s@.skip(start as int);
                let p = body.take(k - start + 1);
                assert(p.drop_last() =~= body.take(k - start));
                assert(p.last() == body[k - start] && body[k - start] == s@[k as int]);
                assert(spec_dec_value(p) == acc * 10 + d);
                lemma_dec_value_prefix_le(body, k - start + 1);
                assert(spec_dec_value(body) > cap);
            }
            return Err(S3Error::DecodeError);
        }
        acc = 10 * acc + d;
        k = k + 1;
        proof {
            let body = s@.skip(start as int);
            let p = body.take(k - start);
            assert(p.drop_last() =~= body.take(k - 1 - start));
            assert(p.last() == body[k - 1 - start] && body[k - 1 - start] == s@[k - 1]);
        }
    }
    proof {
        assert(s@.skip(start as int).take(n - start) =~= s@.skip(start as int));
    }
    Ok(acc)
}

/// Parse an unsigned decimal string as the standard library would for
/// `usize`.
pub fn parse_usize_str(s: &str) -> (r: Result<usize, S3Error>)
    ensures
        r matches Ok(v) ==> spec_parse_usize(s@) == Some(v as int),
        r is Err ==> spec_parse_usize(s@) is None,
        r matches Err(e) ==> e == S3Error::DecodeError,
{
    let n = s.unicode_len();
    let start: usize = if n > 0 && s.get_char(0) == '+' {
        1
    } else {
        0
    };
    proof {
        if start == 0 {
            assert(s@.skip(0) =~= s@);
        } else {
            assert(s@.skip(1) =~= s@.drop_first());
        }
    }
    let v = parse_digits(s, start, usize::MAX as u64)?;
    Ok(v as usize)
}

/// Parse a signed decimal string as the standard library would for `i32`.
pub fn parse_i32_str(s: &str) -> (r: Result<i32, S3Error>)
    ensures
        r matches Ok(v) ==> spec_parse_i32(s@) == Some(v as int),
        r is Err ==> spec_parse_i32(s@) is None,
        r matches Err(e) ==> e == S3Error::DecodeError,
{
    let n = s.unicode_len();
    if n > 0 && s.get_char(0) == '-' {
        proof {
            assert(s@.skip(1) =~= s@.drop_first());
        }
        let v = parse_digits(s, 1, 2147483648u64)?;
        if v == 2147483648 {
            Ok(i32::MIN)
        } else {
            Ok(-(v as i32))
        }
    } else {
        let start: usize = if n > 0 && s.get_char(0) == '+' {
            1
        } else {
            0
        };
        proof {
            if start == 0 {
                assert(s@.skip(0) =~= s@);
            } else {
                assert(s@.skip(1) =~= s@.drop_first());
            }
        }
        let v = parse_digits(s, start, 2147483647u64)?;
        Ok(v as i32)
    }
}


proof fn lemma_udec_digits(n: nat)
    ensures
        spec_udec(n).len() > 0,
        forall|i: int| 0 <= i < spec_udec(n).len() ==> is_digit(#[trigger] spec_udec(n)[i]),
        spec_dec_value(spec_udec(n)) == n,
    decreases n,
{
    if n < 10 {
        assert(spec_udec(n) =~= seq![spec_hex_digit(n as int)]);
        assert(is_digit(spec_hex_digit(n as int)));
        assert(spec_udec(n).drop_last() =~= Seq::<char>::empty());
        assert(spec_udec(n).last() == spec_hex_digit(n as int));
        assert(spec_dec_value(Seq::<char>::empty()) == 0);
        assert(spec_dec_value(spec_udec(n)) == digit_val(spec_hex_digit(n as int)));
        assert(digit_val(spec_hex_digit(n as int)) == n);
    } else {
        lemma_udec_digits(n / 10);
        let s = spec_udec(n);
        assert(s == spec_udec(n / 10).push(spec_hex_digit(n as int % 10)));
        assert(s.drop_last() =~= spec_udec(n / 10));
        assert(s.last() == spec_hex_digit(n as int % 10));
        assert(digit_val(spec_hex_digit(n as int % 10)) == n as int % 10);
        assert(spec_dec_value(s) == spec_dec_value(spec_udec(n / 10)) * 10 + n as int % 10);
        assert(forall|i: int| 0 <= i < s.len() - 1 ==> s[i] == #[trigger] spec_udec(n / 10)[i]);
        assert(is_digit(spec_hex_digit(n as int % 10)));
    }
}

/// The decimal digits of an unsigned value parse back to that value.
pub proof fn lemma_udec_round_trip(n: nat)
    requires
        n <= usize::MAX,
    ensures
        spec_parse_usize(spec_udec(n)) == Some(n as int),
{
    lemma_udec_digits(n);
    let s = spec_udec(n);
    assert(s[0] != '+') by {
        assert(is_digit(s[0]));
        assert(('+' as u32) == 43);
    }
    assert(spec_dec_digits_ok(s));
}

} // verus!
