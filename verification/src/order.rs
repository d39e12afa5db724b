use vstd::prelude::*;
use vstd::relations::{sorted_by, total_ordering};
use vstd::seq_lib::group_to_multiset_ensures;

verus! {

// ----------------------------------------------------------------------------
// Lexicographic order on character sequences, by code point.  This is the
// order in which canonical query pairs and canonical headers are emitted.
// ----------------------------------------------------------------------------

pub open spec fn seq_char_le(a: Seq<char>, b: Seq<char>) -> bool
    decreases a.len(),
{
    if a.len() == 0 {
        true
    } else if b.len() == 0 {
        false
    } else if a.first() == b.first() {
        seq_char_le(a.drop_first(), b.drop_first())
    } else {
        (a.first() as u32) < (b.first() as u32)
    }
}

pub proof fn lemma_seq_char_le_refl(a: Seq<char>)
    ensures
        seq_char_le(a, a),
    decreases a.len(),
{
    if a.len() > 0 {
        lemma_seq_char_le_refl(a.drop_first());
    }
}

pub proof fn lemma_seq_char_le_total(a: Seq<char>, b: Seq<char>)
    ensures
        seq_char_le(a, b) || seq_char_le(b, a),
    decreases a.len(),
{
    if a.len() > 0 && b.len() > 0 {
        if a.first() == b.first() {
            lemma_seq_char_le_total(a.drop_first(), b.drop_first());
        } else {
            vstd::utf8::char_u32_cast(a.first(), a.first() as u32);
            vstd::utf8::char_u32_cast(b.first(), b.first() as u32);
        }
    }
}

pub proof fn lemma_seq_char_le_antisym(a: Seq<char>, b: Seq<char>)
    requires
        seq_char_le(a, b),
        seq_char_le(b, a),
    ensures
        a == b,
    decreases a.len(),
{
    if a.len() == 0 {
        assert(b.len() == 0);
        assert(a =~= b);
    } else {
        assert(b.len() > 0);
        assert(a.first() == b.first());
        lemma_seq_char_le_antisym(a.drop_first(), b.drop_first());
        assert(a =~= seq![a.first()] + a.drop_first());
        assert(b =~= seq![b.first()] + b.drop_first());
    }
}

pub proof fn lemma_seq_char_le_trans(a: Seq<char>, b: Seq<char>, c: Seq<char>)
    requires
        seq_char_le(a, b),
        seq_char_le(b, c),
    ensures
        seq_char_le(a, c),
    decreases a.len(),
{
    if a.len() > 0 && b.len() > 0 && c.len() > 0 {
        if a.first() == b.first() && b.first() == c.first() {
            lemma_seq_char_le_trans(a.drop_first(), b.drop_first(), c.drop_first());
        }
    }
}

// ----------------------------------------------------------------------------
// Order on (name, value) pairs: by name, then by value.
// ----------------------------------------------------------------------------

pub open spec fn pair_le(a: (Seq<char>, Seq<char>), b: (Seq<char>, Seq<char>)) -> bool {
    if a.0 != b.0 {
        seq_char_le(a.0, b.0)
    } else {
        seq_char_le(a.1, b.1)
    }
}

/// The pair order as a first-class function, for `sort_by` and `sorted_by`.
pub open spec fn pair_leq() -> spec_fn((Seq<char>, Seq<char>), (Seq<char>, Seq<char>)) -> bool {
    (|x: (Seq<char>, Seq<char>), y: (Seq<char>, Seq<char>)| pair_le(x, y))
}

pub proof fn lemma_pair_le_total(x: (Seq<char>, Seq<char>), y: (Seq<char>, Seq<char>))
    ensures
        pair_le(x, y) || pair_le(y, x),
{
    if x.0 == y.0 {
        lemma_seq_char_le_total(x.1, y.1);
    } else {
        lemma_seq_char_le_total(x.0, y.0);
    }
}

pub proof fn lemma_pair_le_antisym(x: (Seq<char>, Seq<char>), y: (Seq<char>, Seq<char>))
    requires
        pair_le(x, y),
        pair_le(y, x),
    ensures
        x == y,
{
    if x.0 != y.0 {
        lemma_seq_char_le_antisym(x.0, y.0);
    } else {
        lemma_seq_char_le_antisym(x.1, y.1);
    }
}

pub proof fn lemma_pair_le_trans(
    x: (Seq<char>, Seq<char>),
    y: (Seq<char>, Seq<char>),
    z: (Seq<char>, Seq<char>),
)
    requires
        pair_le(x, y),
        pair_le(y, z),
    ensures
        pair_le(x, z),
{
    if x.0 == y.0 && y.0 == z.0 {
        lemma_seq_char_le_trans(x.1, y.1, z.1);
    } else if x.0 == y.0 {
    } else if y.0 == z.0 {
    } else {
        lemma_seq_char_le_trans(x.0, y.0, z.0);
        if x.0 == z.0 {
            assert(seq_char_le(y.0, x.0));
            lemma_seq_char_le_antisym(x.0, y.0);
        }
    }
}

pub proof fn lemma_pair_le_total_ordering()
    ensures
        total_ordering(pair_leq()),
{
    let leq = pair_leq();
    assert forall|x: (Seq<char>, Seq<char>)| #[trigger] leq(x, x) by {
        lemma_seq_char_le_refl(x.0);
        lemma_seq_char_le_refl(x.1);
    }
    assert forall|x: (Seq<char>, Seq<char>), y: (Seq<char>, Seq<char>)| #[trigger] leq(x, y)
        && #[trigger] leq(y, x) implies x == y by {
        lemma_pair_le_antisym(x, y);
    }
    assert forall|x: (Seq<char>, Seq<char>), y: (Seq<char>, Seq<char>), z: (Seq<char>, Seq<char>)|
        #[trigger] leq(x, y) && #[trigger] leq(y, z) implies leq(x, z) by {
        lemma_pair_le_trans(x, y, z);
    }
    assert forall|x: (Seq<char>, Seq<char>), y: (Seq<char>, Seq<char>)| #[trigger] leq(x, y)
        || #[trigger] leq(y, x) by {
        lemma_pair_le_total(x, y);
    }
}

// ----------------------------------------------------------------------------
// Executable comparison
// ----------------------------------------------------------------------------

proof fn lemma_seq_char_le_skip_step(a: Seq<char>, b: Seq<char>, i: int)
    requires
        0 <= i < a.len(),
        i < b.len(),
        a[i] == b[i],
    ensures
        seq_char_le(a.skip(i), b.skip(i)) == seq_char_le(a.skip(i + 1), b.skip(i + 1)),
{
    assert(a.skip(i).first() == a[i]);
    assert(b.skip(i).first() == b[i]);
    assert(a.skip(i).drop_first() =~= a.skip(i + 1));
    assert(b.skip(i).drop_first() =~= b.skip(i + 1));
}

/// Whether `a` precedes `b` (or equals it) in code-point lexicographic order.
pub fn str_le(a: &str, b: &str) -> (r: bool)
    ensures
        r == seq_char_le(a@, b@),
{
    let alen = a.unicode_len();
    let blen = b.unicode_len();
    let mut i: usize = 0;
    proof {
        assert(a@.skip(0) =~= a@);
        assert(b@.skip(0) =~= b@);
    }
    loop
        invariant
            alen == a@.len(),
            blen == b@.len(),
            i <= alen,
            i <= blen,
            seq_char_le(a@, b@) == seq_char_le(a@.skip(i as int), b@.skip(i as int)),
        ensures
            i <= alen,
            i <= blen,
            i >= alen || i >= blen,
            seq_char_le(a@, b@) == seq_char_le(a@.skip(i as int), b@.skip(i as int)),
        decreases alen - i,
    {
        if i >= alen || i >= blen {
            break;
        }
        let ca = a.get_char(i);
        let cb = b.get_char(i);
        if ca != cb {
            proof {
                assert(a@.skip(i as int).first() == a@[i as int]);
                assert(b@.skip(i as int).first() == b@[i as int]);
            }
            return (ca as u32) < (cb as u32);
        }
        proof {
            lemma_seq_char_le_skip_step(a@, b@, i as int);
        }
        i = i + 1;
    }
    proof {
        if i >= alen {
            assert(a@.skip(i as int).len() == 0);
        } else {
            assert(b@.skip(i as int).len() == 0);
            assert(a@.skip(i as int).len() > 0);
        }
    }
    i >= alen
}

/// Whether two strings hold the same characters.
pub fn str_eq(a: &str, b: &str) -> (r: bool)
    ensures
        r == (a@ == b@),
{
    let le1 = str_le(a, b);
    let le2 = str_le(b, a);
    proof {
        if le1 && le2 {
            lemma_seq_char_le_antisym(a@, b@);
        }
        if a@ == b@ {
            lemma_seq_char_le_refl(a@);
        }
    }
    le1 && le2
}

/// Pair view of a `(String, String)` element.
pub open spec fn pair_view(p: (String, String)) -> (Seq<char>, Seq<char>) {
    (p.0@, p.1@)
}

/// Views of a sequence of string pairs.
pub open spec fn pair_views(s: Seq<(String, String)>) -> Seq<(Seq<char>, Seq<char>)> {
    s.map_values(|p: (String, String)| pair_view(p))
}

/// Whether pair `a` precedes pair `b`: by name, then by value.
pub fn pair_le_exec(a: &(String, String), b: &(String, String)) -> (r: bool)
    ensures
        r == pair_le(pair_view(*a), pair_view(*b)),
{
    if a.0 == b.0 {
        str_le(a.1.as_str(), b.1.as_str())
    } else {
        str_le(a.0.as_str(), b.0.as_str())
    }
}

// ----------------------------------------------------------------------------
// Sorting pairs
// ----------------------------------------------------------------------------

/// Insertion sort of `(name, value)` pairs under `pair_le`.
pub fn sort_pairs(v: &Vec<(String, String)>) -> (r: Vec<(String, String)>)
    ensures
        sorted_by(pair_views(r@), pair_leq()),
        pair_views(r@).to_multiset() == pair_views(v@).to_multiset(),
        r@.len() == v@.len(),
{
    broadcast use group_to_multiset_ensures;

    let mut r: Vec<(String, String)> = Vec::new();
    let n = v.len();
    proof {
        assert(pair_views(v@.take(0)) =~= pair_views(r@));
    }
    for idx in 0..n
        invariant
            n == v@.len(),
            r@.len() == idx,
            sorted_by(pair_views(r@), pair_leq()),
            pair_views(r@).to_multiset() == pair_views(v@.take(idx as int)).to_multiset(),
    {
        let x = (v[idx].0.clone(), v[idx].1.clone());
        let ghost xv = pair_view(x);
        let mut j: usize = 0;
        loop
            invariant
                xv == pair_view(x),
                j <= r@.len(),
                forall|k: int| 0 <= k < j ==> pair_le(#[trigger] pair_views(r@)[k], xv),
            ensures
                j <= r@.len(),
                forall|k: int| 0 <= k < j ==> pair_le(#[trigger] pair_views(r@)[k], xv),
                j < r@.len() ==> !pair_le(pair_views(r@)[j as int], xv),
            decreases r@.len() - j,
        {
            if j >= r.len() {
                break;
            }
            let keep_going = pair_le_exec(&r[j], &x);
            proof {
                assert(pair_views(r@)[j as int] == pair_view(r@[j as int]));
            }
            if !keep_going {
                break;
            }
            j = j + 1;
        }
        let ghost old_r = r@;
        let ghost jj = j as int;
        r.insert(j, x);
        proof {
            broadcast use group_to_multiset_ensures;

            let s = pair_views(old_r);
            let s2 = pair_views(r@);
            let leq = pair_leq();
            assert(s2 =~= s.insert(jj, xv));
            s.insert_ensures(jj, xv);
            if jj < s.len() {
                assert(!pair_le(s[jj], xv));
                lemma_pair_le_total(s[jj], xv);
                assert(pair_le(xv, s[jj]));
            }
            // sortedness of the new sequence
            assert forall|p: int, q: int| 0 <= p < q < s2.len() implies #[trigger] leq(
                s2[p],
                s2[q],
            ) by {
                if q < jj {
                    assert(s2[p] == s[p] && s2[q] == s[q]);
                    assert(leq(s[p], s[q]));
                } else if q == jj {
                    assert(s2[p] == s[p]);
                    assert(pair_le(s[p], xv));
                } else if p < jj {
                    assert(s2[p] == s[p] && s2[q] == s[q - 1]);
                    assert(pair_le(xv, s[jj]));
                    if jj < q - 1 {
                        assert(leq(s[jj], s[q - 1]));
                        lemma_pair_le_trans(xv, s[jj], s[q - 1]);
                    }
                    if jj == q - 1 {
                        assert(pair_le(xv, s[q - 1]));
                    }
                    assert(pair_le(s[p], xv));
                    lemma_pair_le_trans(s[p], xv, s[q - 1]);
                } else if p == jj {
                    assert(s2[q] == s[q - 1]);
                    assert(pair_le(xv, s[jj]));
                    if jj < q - 1 {
                        assert(leq(s[jj], s[q - 1]));
                        lemma_pair_le_trans(xv, s[jj], s[q - 1]);
                    }
                } else {
                    assert(s2[p] == s[p - 1] && s2[q] == s[q - 1]);
                    assert(leq(s[p - 1], s[q - 1]));
                }
            }
            // multiset of the new sequence
            assert(s2.to_multiset() == s.insert(jj, xv).to_multiset());
            assert(s.insert(jj, xv).to_multiset() == s.to_multiset().insert(xv));
            assert(pair_views(v@.take(idx + 1)) =~= pair_views(v@.take(idx as int)).push(
                pair_view(v@[idx as int]),
            ));
            assert(xv == pair_view(v@[idx as int]));
            assert(pair_views(v@.take(idx as int)).push(xv).to_multiset() == pair_views(
                v@.take(idx as int),
            ).to_multiset().insert(xv));
        }
    }
    proof {
        assert(v@.take(n as int) =~= v@);
    }
    r
}

} // verus!
