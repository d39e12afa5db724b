use vstd::prelude::*;
use vstd::relations::sorted_by;
use vstd::seq_lib::lemma_sorted_unique;
use crate::order::{
    lemma_pair_le_total_ordering, pair_le, pair_leq, pair_view, pair_views, seq_char_le,
    sort_pairs,
};
use crate::text::push_char;

verus! {

// ----------------------------------------------------------------------------
// ASCII lower-casing of header names
// ----------------------------------------------------------------------------

/// ASCII lower case of one character; anything but `A`..=`Z` is unchanged.
pub open spec fn lower_char(c: char) -> char {
    if 'A' <= c && c <= 'Z' {
        ((c as u32) + 32) as char
    } else {
        c
    }
}

/// ASCII lower case of a character sequence.
pub open spec fn spec_lower(s: Seq<char>) -> Seq<char> {
    s.map_values(|c: char| lower_char(c))
}

pub fn lower_char_exec(c: char) -> (r: char)
    ensures
        r == lower_char(c),
{
    broadcast use vstd::utf8::char_u32_cast;

    match c {
        'A' => 'a',
        'B' => 'b',
        'C' => 'c',
        'D' => 'd',
        'E' => 'e',
        'F' => 'f',
        'G' => 'g',
        'H' => 'h',
        'I' => 'i',
        'J' => 'j',
        'K' => 'k',
        'L' => 'l',
        'M' => 'm',
        'N' => 'n',
        'O' => 'o',
        'P' => 'p',
        'Q' => 'q',
        'R' => 'r',
        'S' => 's',
        'T' => 't',
        'U' => 'u',
        'V' => 'v',
        'W' => 'w',
        'X' => 'x',
        'Y' => 'y',
        'Z' => 'z',
        other => other,
    }
}

/// ASCII lower case of a string.
pub fn lower_str(s: &str) -> (r: String)
    ensures
        r@ == spec_lower(s@),
{
    let n = s.unicode_len();
    let mut r = String::new();
    proof {
        assert(r@ =~= spec_lower(s@.take(0)));
    }
    for i in 0..n
        invariant
            n == s@.len(),
            r@ == spec_lower(s@.take(i as int)),
    {
        let c = s.get_char(i);
        push_char(&mut r, lower_char_exec(c));
        proof {
            assert(r@ =~= spec_lower(s@.take(i + 1)));
        }
    }
    proof {
        assert(s@.take(n as int) =~= s@);
    }
    r
}

// ----------------------------------------------------------------------------
// Canonical query string
// ----------------------------------------------------------------------------

/// `key=value` pairs joined with `&`, in the order given.
pub open spec fn spec_join_query(pairs: Seq<(Seq<char>, Seq<char>)>) -> Seq<char>
    decreases pairs.len(),
{
    if pairs.len() == 0 {
        Seq::empty()
    } else if pairs.len() == 1 {
        pairs.first().0 + seq!['='] + pairs.first().1
    } else {
        pairs.first().0 + seq!['='] + pairs.first().1 + seq!['&'] + spec_join_query(
            pairs.drop_first(),
        )
    }
}

/// The canonical query string: already-encoded pairs sorted by key then
/// value, joined `key=value` with `&`.  The empty list canonicalizes to the
/// empty string.
pub open spec fn spec_canonical_query(pairs: Seq<(Seq<char>, Seq<char>)>) -> Seq<char> {
    spec_join_query(pairs.sort_by(pair_leq()))
}

proof fn lemma_join_query_snoc(pairs: Seq<(Seq<char>, Seq<char>)>)
    requires
        pairs.len() > 0,
    ensures
        spec_join_query(pairs) == if pairs.len() == 1 {
            pairs.last().0 + seq!['='] + pairs.last().1
        } else {
            (spec_join_query(pairs.drop_last()) + seq!['&'] + pairs.last().0 + seq!['=']
                + pairs.last().1)
        },
    decreases pairs.len(),
{
    if pairs.len() == 1 {
        assert(pairs.first() == pairs.last());
        assert(spec_join_query(pairs) =~= pairs.last().0 + seq!['='] + pairs.last().1);
    } else {
        lemma_join_query_snoc(pairs.drop_first());
        assert(pairs.drop_first().last() == pairs.last());
        if pairs.len() == 2 {
            assert(pairs.drop_first().len() == 1);
            assert(pairs.drop_last().len() == 1);
            assert(pairs.drop_last().first() == pairs.first());
            assert(spec_join_query(pairs) =~= spec_join_query(pairs.drop_last()) + seq!['&']
                + pairs.last().0 + seq!['='] + pairs.last().1);
        } else {
            assert(pairs.drop_first().drop_last() =~= pairs.drop_last().drop_first());
            assert(pairs.drop_last().len() >= 2);
            assert(pairs.drop_last().first() == pairs.first());
            assert(spec_join_query(pairs.drop_last()) =~= pairs.first().0 + seq!['=']
                + pairs.first().1 + seq!['&'] + spec_join_query(pairs.drop_last().drop_first()));
            assert(spec_join_query(pairs) =~= spec_join_query(pairs.drop_last()) + seq!['&']
                + pairs.last().0 + seq!['='] + pairs.last().1);
        }
    }
}

/// Join pairs into `key=value&key=value` text, in the order given.
pub fn join_pairs(pairs: &Vec<(String, String)>) -> (r: String)
    ensures
        r@ == spec_join_query(pair_views(pairs@)),
{
    let mut r = String::new();
    let n = pairs.len();
    proof {
        assert(pair_views(pairs@).take(0) =~= pair_views(pairs@.take(0)));
        assert(r@ =~= spec_join_query(pair_views(pairs@).take(0)));
    }
    for i in 0..n
        invariant
            n == pairs@.len(),
            r@ == spec_join_query(pair_views(pairs@).take(i as int)),
    {
        if i > 0 {
            push_char(&mut r, '&');
        }
        r.append(pairs[i].0.as_str());
        push_char(&mut r, '=');
        r.append(pairs[i].1.as_str());
        proof {
            let pv = pair_views(pairs@);
            assert(pv.take(i + 1).drop_last() =~= pv.take(i as int));
            assert(pv.take(i + 1).last() == pair_view(pairs@[i as int]));
            lemma_join_query_snoc(pv.take(i + 1));
        }
    }
    proof {
        assert(pair_views(pairs@).take(n as int) =~= pair_views(pairs@));
    }
    r
}

/// The canonical query string of a list of already-encoded pairs.
pub fn canonical_query_string(pairs: &Vec<(String, String)>) -> (r: String)
    ensures
        r@ == spec_canonical_query(pair_views(pairs@)),
{
    let sorted = sort_pairs(pairs);
    proof {
        lemma_pair_le_total_ordering();
        pair_views(pairs@).lemma_sort_by_ensures(pair_leq());
        lemma_sorted_unique(
            pair_views(sorted@),
            pair_views(pairs@).sort_by(pair_leq()),
            pair_leq(),
        );
    }
    join_pairs(&sorted)
}

/// The canonical query string does not depend on the order in which the
/// pairs were given: any two lists with the same pairs (with multiplicity)
/// canonicalize to the same text.
pub proof fn lemma_canonical_query_order_independent(
    q1: Seq<(Seq<char>, Seq<char>)>,
    q2: Seq<(Seq<char>, Seq<char>)>,
)
    requires
        q1.to_multiset() == q2.to_multiset(),
    ensures
        spec_canonical_query(q1) == spec_canonical_query(q2),
{
    lemma_pair_le_total_ordering();
    q1.lemma_sort_by_ensures(pair_leq());
    q2.lemma_sort_by_ensures(pair_leq());
    lemma_sorted_unique(q1.sort_by(pair_leq()), q2.sort_by(pair_leq()), pair_leq());
}

/// The empty query list canonicalizes to the empty string.
pub proof fn lemma_canonical_query_empty()
    ensures
        spec_canonical_query(Seq::empty()) == Seq::<char>::empty(),
{
    lemma_pair_le_total_ordering();
    let e = Seq::<(Seq<char>, Seq<char>)>::empty();
    e.lemma_sort_by_ensures(pair_leq());
    broadcast use vstd::seq_lib::group_to_multiset_ensures;

    let s = e.sort_by(pair_leq());
    assert(s.to_multiset() =~= e.to_multiset());
    assert(s.len() == s.to_multiset().len());
    assert(e.len() == e.to_multiset().len());
    assert(s.len() == 0);
}

// ----------------------------------------------------------------------------
// Canonical headers
// ----------------------------------------------------------------------------

/// One line `name:value\n` per pair, in the order given.
pub open spec fn spec_header_lines(pairs: Seq<(Seq<char>, Seq<char>)>) -> Seq<char>
    decreases pairs.len(),
{
    if pairs.len() == 0 {
        Seq::empty()
    } else {
        pairs.first().0 + seq![':'] + pairs.first().1 + seq!['\n'] + spec_header_lines(
            pairs.drop_first(),
        )
    }
}

/// Names joined with `;`, in the order given.
pub open spec fn spec_signed_list(pairs: Seq<(Seq<char>, Seq<char>)>) -> Seq<char>
    decreases pairs.len(),
{
    if pairs.len() == 0 {
        Seq::empty()
    } else if pairs.len() == 1 {
        pairs.first().0
    } else {
        pairs.first().0 + seq![';'] + spec_signed_list(pairs.drop_first())
    }
}

/// The full signed header set: the caller's `x-amz-*` headers with their
/// names lower-cased, plus the three mandatory headers, sorted by name then
/// value.
pub open spec fn spec_signed_header_pairs(
    xamz: Seq<(Seq<char>, Seq<char>)>,
    host: Seq<char>,
    payload_hash: Seq<char>,
    amz_date: Seq<char>,
) -> Seq<(Seq<char>, Seq<char>)> {
    (xamz.map_values(|p: (Seq<char>, Seq<char>)| (spec_lower(p.0), p.1)) + seq![
        ("host"@, host),
        ("x-amz-content-sha256"@, payload_hash),
        ("x-amz-date"@, amz_date),
    ]).sort_by(pair_leq())
}

/// The canonical header block: one `name:value\n` line per signed header,
/// ending with a newline after the last line.
pub open spec fn spec_canonical_header_block(
    xamz: Seq<(Seq<char>, Seq<char>)>,
    host: Seq<char>,
    payload_hash: Seq<char>,
    amz_date: Seq<char>,
) -> Seq<char> {
    spec_header_lines(spec_signed_header_pairs(xamz, host, payload_hash, amz_date))
}

/// The signed-header list: the same names in the same order, `;`-joined.
pub open spec fn spec_signed_header_list(
    xamz: Seq<(Seq<char>, Seq<char>)>,
    host: Seq<char>,
    payload_hash: Seq<char>,
    amz_date: Seq<char>,
) -> Seq<char> {
    spec_signed_list(spec_signed_header_pairs(xamz, host, payload_hash, amz_date))
}

proof fn lemma_header_lines_snoc(pairs: Seq<(Seq<char>, Seq<char>)>)
    requires
        pairs.len() > 0,
    ensures
        spec_header_lines(pairs) == spec_header_lines(pairs.drop_last()) + pairs.last().0
            + seq![':'] + pairs.last().1 + seq!['\n'],
    decreases pairs.len(),
{
    if pairs.len() == 1 {
        assert(pairs.drop_last() =~= Seq::<(Seq<char>, Seq<char>)>::empty());
        assert(spec_header_lines(pairs.drop_last()) =~= Seq::<char>::empty());
        assert(pairs.first() == pairs.last());
        assert(spec_header_lines(pairs) =~= spec_header_lines(pairs.drop_last()) + pairs.last().0
            + seq![':'] + pairs.last().1 + seq!['\n']);
    } else {
        lemma_header_lines_snoc(pairs.drop_first());
        assert(pairs.drop_first().last() == pairs.last());
        assert(pairs.drop_first().drop_last() =~= pairs.drop_last().drop_first());
        assert(pairs.drop_last().len() > 0);
        assert(pairs.drop_last().first() == pairs.first());
        assert(spec_header_lines(pairs.drop_last()) =~= pairs.first().0 + seq![':']
            + pairs.first().1 + seq!['\n'] + spec_header_lines(pairs.drop_last().drop_first()));
        assert(spec_header_lines(pairs.drop_first()) == spec_header_lines(
            pairs.drop_last().drop_first(),
        ) + pairs.last().0 + seq![':'] + pairs.last().1 + seq!['\n']);
        assert(spec_header_lines(pairs) == pairs.first().0 + seq![':'] + pairs.first().1
            + seq!['\n'] + spec_header_lines(pairs.drop_first()));
        assert(spec_header_lines(pairs) =~= spec_header_lines(pairs.drop_last()) + pairs.last().0
            + seq![':'] + pairs.last().1 + seq!['\n']);
    }
}

proof fn lemma_signed_list_snoc(pairs: Seq<(Seq<char>, Seq<char>)>)
    requires
        pairs.len() > 0,
    ensures
        spec_signed_list(pairs) == if pairs.len() == 1 {
            pairs.last().0
        } else {
            spec_signed_list(pairs.drop_last()) + seq![';'] + pairs.last().0
        },
    decreases pairs.len(),
{
    if pairs.len() == 1 {
        assert(pairs.first() == pairs.last());
    } else {
        lemma_signed_list_snoc(pairs.drop_first());
        assert(pairs.drop_first().last() == pairs.last());
        if pairs.len() == 2 {
            assert(pairs.drop_last().len() == 1);
            assert(pairs.drop_last().first() == pairs.first());
            assert(spec_signed_list(pairs) =~= spec_signed_list(pairs.drop_last()) + seq![';']
                + pairs.last().0);
        } else {
            assert(pairs.drop_first().drop_last() =~= pairs.drop_last().drop_first());
            assert(pairs.drop_last().len() >= 2);
            assert(pairs.drop_last().first() == pairs.first());
            assert(spec_signed_list(pairs.drop_last()) =~= pairs.first().0 + seq![';']
                + spec_signed_list(pairs.drop_last().drop_first()));
            assert(spec_signed_list(pairs) =~= spec_signed_list(pairs.drop_last()) + seq![';']
                + pairs.last().0);
        }
    }
}

/// The canonical header block and the signed-header list of a request.
///
/// `xamz` holds the caller's `x-amz-*` headers; `host`, `payload_hash` and
/// `amz_date` become the values of the three mandatory headers.
pub fn canonical_headers(
    xamz: &Vec<(String, String)>,
    host: &str,
    payload_hash: &str,
    amz_date: &str,
) -> (r: (String, String))
    ensures
        r.0@ == spec_canonical_header_block(pair_views(xamz@), host@, payload_hash@, amz_date@),
        r.1@ == spec_signed_header_list(pair_views(xamz@), host@, payload_hash@, amz_date@),
{
    let mut all: Vec<(String, String)> = Vec::new();
    let n = xamz.len();
    proof {
        assert(pair_views(all@) =~= pair_views(xamz@).take(0).map_values(
            |p: (Seq<char>, Seq<char>)| (spec_lower(p.0), p.1),
        ));
    }
    for i in 0..n
        invariant
            n == xamz@.len(),
            pair_views(all@) == pair_views(xamz@).take(i as int).map_values(
                |p: (Seq<char>, Seq<char>)| (spec_lower(p.0), p.1),
            ),
    {
        let name = lower_str(xamz[i].0.as_str());
        let value = xamz[i].1.clone();
        let ghost before = all@;
        all.push((name, value));
        proof {
            let f = (|p: (Seq<char>, Seq<char>)| (spec_lower(p.0), p.1));
            assert(all@ == before.push((name, value)));
            assert(pair_views(all@) =~= pair_views(before).push((name@, value@)));
            assert((name@, value@) == f(pair_view(xamz@[i as int])));
            assert(pair_views(xamz@).take(i as int).map_values(f).push(
                f(pair_view(xamz@[i as int])),
            ) =~= pair_views(xamz@).take(i + 1).map_values(f));
            assert(pair_views(all@) =~= pair_views(xamz@).take(i + 1).map_values(f));
        }
    }
    let mut host_s = String::new();
    host_s.append("host");
    let mut sha_s = String::new();
    sha_s.append("x-amz-content-sha256");
    let mut date_s = String::new();
    date_s.append("x-amz-date");
    let mut host_v = String::new();
    host_v.append(host);
    let mut payload_v = String::new();
    payload_v.append(payload_hash);
    let mut date_v = String::new();
    date_v.append(amz_date);
    all.push((host_s, host_v));
    all.push((sha_s, payload_v));
    all.push((date_s, date_v));
    proof {
        assert(pair_views(xamz@).take(n as int) =~= pair_views(xamz@));
        assert(pair_views(all@) =~= pair_views(xamz@).map_values(
            |p: (Seq<char>, Seq<char>)| (spec_lower(p.0), p.1),
        ) + seq![("host"@, host@), ("x-amz-content-sha256"@, payload_hash@), ("x-amz-date"@, amz_date@)]);
    }
    let sorted = sort_pairs(&all);
    proof {
        lemma_pair_le_total_ordering();
        pair_views(all@).lemma_sort_by_ensures(pair_leq());
        lemma_sorted_unique(pair_views(sorted@), pair_views(all@).sort_by(pair_leq()), pair_leq());
        assert(pair_views(sorted@) == spec_signed_header_pairs(
            pair_views(xamz@),
            host@,
            payload_hash@,
            amz_date@,
        ));
    }
    // header block
    let mut block = String::new();
    let sn = sorted.len();
    proof {
        assert(pair_views(sorted@).take(0) =~= Seq::<(Seq<char>, Seq<char>)>::empty());
        assert(block@ =~= spec_header_lines(pair_views(sorted@).take(0)));
    }
    for i in 0..sn
        invariant
            sn == sorted@.len(),
            block@ == spec_header_lines(pair_views(sorted@).take(i as int)),
    {
        block.append(sorted[i].0.as_str());
        push_char(&mut block, ':');
        block.append(sorted[i].1.as_str());
        push_char(&mut block, '\n');
        proof {
            let pv = pair_views(sorted@);
            assert(pv.take(i + 1).drop_last() =~= pv.take(i as int));
            assert(pv.take(i + 1).last() == pair_view(sorted@[i as int]));
            lemma_header_lines_snoc(pv.take(i + 1));
            assert(block@ =~= spec_header_lines(pv.take(i + 1)));
        }
    }
    // signed-header list
    let mut signed = String::new();
    proof {
        assert(signed@ =~= spec_signed_list(pair_views(sorted@).take(0)));
    }
    for i in 0..sn
        invariant
            sn == sorted@.len(),
            signed@ == spec_signed_list(pair_views(sorted@).take(i as int)),
    {
        if i > 0 {
            push_char(&mut signed, ';');
        }
        signed.append(sorted[i].0.as_str());
        proof {
            let pv = pair_views(sorted@);
            assert(pv.take(i + 1).drop_last() =~= pv.take(i as int));
            assert(pv.take(i + 1).last() == pair_view(sorted@[i as int]));
            lemma_signed_list_snoc(pv.take(i + 1));
        }
    }
    proof {
        assert(pair_views(sorted@).take(sn as int) =~= pair_views(sorted@));
    }
    (block, signed)
}


/// With no caller-supplied x-amz headers, the canonical header block holds
/// exactly the three mandatory lines, in their sorted order, and the
/// signed-header list exactly their three names.
pub proof fn lemma_empty_xamz_canonical_headers(
    host: Seq<char>,
    payload_hash: Seq<char>,
    amz_date: Seq<char>,
)
    ensures
        spec_canonical_header_block(Seq::empty(), host, payload_hash, amz_date) == "host:"@ + host
            + "\n"@ + "x-amz-content-sha256:"@ + payload_hash + "\n"@ + "x-amz-date:"@ + amz_date
            + "\n"@,
        spec_signed_header_list(Seq::empty(), host, payload_hash, amz_date)
            == "host;x-amz-content-sha256;x-amz-date"@,
{
    lemma_pair_le_total_ordering();
    let base = Seq::<(Seq<char>, Seq<char>)>::empty().map_values(
        |p: (Seq<char>, Seq<char>)| (spec_lower(p.0), p.1),
    ) + seq![
        ("host"@, host),
        ("x-amz-content-sha256"@, payload_hash),
        ("x-amz-date"@, amz_date),
    ];
    let plain = seq![
        ("host"@, host),
        ("x-amz-content-sha256"@, payload_hash),
        ("x-amz-date"@, amz_date),
    ];
    assert(base =~= plain);
    reveal_strlit("host");
    reveal_strlit("x-amz-content-sha256");
    reveal_strlit("x-amz-date");
    assert(("host"@).len() == 4 && ("x-amz-content-sha256"@).len() == 20 && ("x-amz-date"@).len()
        == 10);
    // the three names stand in strictly increasing order
    assert(seq_char_le("host"@, "x-amz-content-sha256"@)) by {
        assert(("host"@)[0] == 'h' && ("x-amz-content-sha256"@)[0] == 'x');
        assert(("host"@).first() != ("x-amz-content-sha256"@).first());
        assert(('h' as u32) < ('x' as u32));
    }
    assert("host"@ != "x-amz-content-sha256"@);
    assert(seq_char_le("host"@, "x-amz-date"@)) by {
        assert(("host"@)[0] == 'h' && ("x-amz-date"@)[0] == 'x');
        assert(('h' as u32) < ('x' as u32));
    }
    assert("host"@ != "x-amz-date"@);
    assert(seq_char_le("x-amz-content-sha256"@, "x-amz-date"@)) by {
        reveal_with_fuel(seq_char_le, 9);
        assert(("x-amz-content-sha256"@).skip(6) =~= "content-sha256"@) by {
            reveal_strlit("content-sha256");
        }
        assert(("x-amz-date"@).skip(6) =~= "date"@) by {
            reveal_strlit("date");
        }
        lemma_seq_char_le_prefix_step("x-amz-content-sha256"@, "x-amz-date"@, 6);
        assert(("content-sha256"@)[0] == 'c' && ("date"@)[0] == 'd') by {
            reveal_strlit("content-sha256");
            reveal_strlit("date");
        }
        assert(seq_char_le("content-sha256"@, "date"@)) by {
            reveal_strlit("content-sha256");
            reveal_strlit("date");
            assert(('c' as u32) < ('d' as u32));
        }
    }
    assert("x-amz-content-sha256"@ != "x-amz-date"@);
    assert(sorted_by(plain, pair_leq()));
    // the sorted set is that same order
    base.lemma_sort_by_ensures(pair_leq());
    lemma_sorted_unique(base.sort_by(pair_leq()), plain, pair_leq());
    assert(spec_signed_header_pairs(Seq::empty(), host, payload_hash, amz_date) == plain);
    // and the block and list spell out
    assert(spec_header_lines(plain) =~= "host:"@ + host + "\n"@ + "x-amz-content-sha256:"@
        + payload_hash + "\n"@ + "x-amz-date:"@ + amz_date + "\n"@) by {
        reveal_with_fuel(spec_header_lines, 5);
        reveal_strlit("host");
        reveal_strlit("x-amz-content-sha256");
        reveal_strlit("x-amz-date");
        reveal_strlit("\n");
        reveal_strlit("host:");
        reveal_strlit("x-amz-content-sha256:");
        reveal_strlit("x-amz-date:");
        assert(plain.drop_first() =~= plain.subrange(1, 3));
        assert(plain.drop_first().drop_first() =~= plain.subrange(2, 3));
        assert(plain.drop_first().drop_first().drop_first() =~= Seq::<(Seq<char>, Seq<char>)>::empty());
    }
    assert(spec_signed_list(plain) =~= "host;x-amz-content-sha256;x-amz-date"@) by {
        reveal_with_fuel(spec_signed_list, 5);
        reveal_strlit("host");
        reveal_strlit("x-amz-content-sha256");
        reveal_strlit("x-amz-date");
        reveal_strlit("host;x-amz-content-sha256;x-amz-date");
        assert(plain.drop_first() =~= plain.subrange(1, 3));
        assert(plain.drop_first().drop_first() =~= plain.subrange(2, 3));
    }
}

/// Two character sequences that agree on a common prefix compare as their
/// tails compare.
proof fn lemma_seq_char_le_prefix_step(a: Seq<char>, b: Seq<char>, k: int)
    requires
        0 <= k <= a.len(),
        k <= b.len(),
        forall|j: int| 0 <= j < k ==> a[j] == b[j],
        seq_char_le(a.skip(k), b.skip(k)),
    ensures
        seq_char_le(a, b),
    decreases k,
{
    if k > 0 {
        assert(a.len() > 0 && b.len() > 0);
        assert(a.first() == b.first());
        assert(a.drop_first() =~= a.skip(1));
        assert(b.drop_first() =~= b.skip(1));
        assert(a.skip(1).skip(k - 1) =~= a.skip(k));
        assert(b.skip(1).skip(k - 1) =~= b.skip(k));
        lemma_seq_char_le_prefix_step(a.skip(1), b.skip(1), k - 1);
    } else {
        assert(a.skip(0) =~= a);
        assert(b.skip(0) =~= b);
    }
}

} // verus!
