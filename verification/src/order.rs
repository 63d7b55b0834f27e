//! Insertion sort for lists of strings in lexicographic order, with the
//! facts the rest of the library needs: the result is sorted, and it holds
//! exactly the elements that went in.

use vstd::prelude::*;
use crate::strings::{lex_le, str_le};

verus! {

/// Lexicographic order is total.
pub proof fn lemma_lex_le_total(a: Seq<char>, b: Seq<char>)
    ensures
        lex_le(a, b) || lex_le(b, a),
    decreases a.len(),
{
    if a.len() == 0 || b.len() == 0 {
    } else if a[0] == b[0] {
        lemma_lex_le_total(a.drop_first(), b.drop_first());
    } else {
        assert((a[0] as u32) != (b[0] as u32)) by {
            vstd::utf8::char_u32_cast(a[0], a[0] as u32);
            vstd::utf8::char_u32_cast(b[0], b[0] as u32);
        }
    }
}

/// Lexicographic order is transitive.
pub proof fn lemma_lex_le_trans(a: Seq<char>, b: Seq<char>, c: Seq<char>)
    requires
        lex_le(a, b),
        lex_le(b, c),
    ensures
        lex_le(a, c),
    decreases a.len(),
{
    if a.len() == 0 || b.len() == 0 || c.len() == 0 {
    } else if a[0] == b[0] && b[0] == c[0] {
        lemma_lex_le_trans(a.drop_first(), b.drop_first(), c.drop_first());
    }
}

/// A sequence of strings in ascending lexicographic order.
pub open spec fn sorted_lex(s: Seq<Seq<char>>) -> bool {
    forall|i: int, j: int| 0 <= i < j < s.len() ==> lex_le(s[i], s[j])
}

/// `x` placed into `s` after every element at or before it in the order.
pub open spec fn insert_lex(s: Seq<Seq<char>>, x: Seq<char>) -> Seq<Seq<char>>
    decreases s.len(),
{
    if s.len() == 0 {
        seq![x]
    } else if lex_le(s[0], x) {
        seq![s[0]] + insert_lex(s.drop_first(), x)
    } else {
        seq![x] + s
    }
}

/// The list sorted ascending, elements inserted left to right.
pub open spec fn sort_lex(s: Seq<Seq<char>>) -> Seq<Seq<char>>
    decreases s.len(),
{
    if s.len() == 0 {
        Seq::<Seq<char>>::empty()
    } else {
        insert_lex(sort_lex(s.drop_last()), s.last())
    }
}

/// Inserting keeps exactly the old elements plus the new one.
pub proof fn lemma_insert_lex_elems(s: Seq<Seq<char>>, x: Seq<char>)
    ensures
        insert_lex(s, x).len() == s.len() + 1,
        insert_lex(s, x).to_multiset() =~= s.to_multiset().insert(x),
    decreases s.len(),
{
    broadcast use vstd::multiset::group_multiset_axioms;

    if s.len() == 0 {
        assert(insert_lex(s, x) =~= s.insert(0, x));
        vstd::seq_lib::to_multiset_insert(s, 0, x);
    } else if lex_le(s[0], x) {
        lemma_insert_lex_elems(s.drop_first(), x);
        assert(insert_lex(s, x) =~= seq![s[0]] + insert_lex(s.drop_first(), x));
        lemma_multiset_cons(s[0], insert_lex(s.drop_first(), x));
        lemma_multiset_cons(s[0], s.drop_first());
        assert(s =~= seq![s[0]] + s.drop_first());
        assert(insert_lex(s, x).to_multiset() =~= s.drop_first().to_multiset().insert(x).insert(
            s[0],
        ));
        assert(s.drop_first().to_multiset().insert(x).insert(s[0]) =~= s.drop_first().to_multiset().insert(
            s[0],
        ).insert(x));
    } else {
        lemma_multiset_cons(x, s);
        assert(insert_lex(s, x) =~= seq![x] + s);
    }
}

/// Prepending one element adds it to the multiset of the rest.
proof fn lemma_multiset_cons(x: Seq<char>, s: Seq<Seq<char>>)
    ensures
        (seq![x] + s).to_multiset() =~= s.to_multiset().insert(x),
{
    assert(seq![x] + s =~= s.insert(0, x));
    vstd::seq_lib::to_multiset_insert(s, 0, x);
}

/// Inserting into a sorted list keeps it sorted.
pub proof fn lemma_insert_lex_sorted(s: Seq<Seq<char>>, x: Seq<char>)
    requires
        sorted_lex(s),
    ensures
        sorted_lex(insert_lex(s, x)),
    decreases s.len(),
{
    if s.len() == 0 {
    } else if lex_le(s[0], x) {
        assert(sorted_lex(s.drop_first()));
        lemma_insert_lex_sorted(s.drop_first(), x);
        lemma_insert_lex_elems(s.drop_first(), x);
        let t = insert_lex(s.drop_first(), x);
        let r = seq![s[0]] + t;
        assert forall|i: int, j: int| 0 <= i < j < r.len() implies lex_le(r[i], r[j]) by {
            if i == 0 {
                let e = t[j - 1];
                assert(t.to_multiset().contains(e)) by {
                    broadcast use vstd::seq_lib::group_to_multiset_ensures;

                    assert(t[j - 1] == e);
                }
                assert(s.drop_first().to_multiset().insert(x).contains(e));
                if e == x {
                    assert(lex_le(s[0], e));
                } else {
                    assert(s.drop_first().to_multiset().contains(e));
                    broadcast use vstd::seq_lib::group_to_multiset_ensures;

                    let k = choose|k: int|
                        0 <= k < s.drop_first().len() && s.drop_first()[k] == e;
                    assert(lex_le(s[0], s[k + 1]));
                }
            } else {
                assert(lex_le(t[i - 1], t[j - 1]));
            }
        }
    } else {
        lemma_lex_le_total(s[0], x);
        let r = seq![x] + s;
        assert forall|i: int, j: int| 0 <= i < j < r.len() implies lex_le(r[i], r[j]) by {
            if i == 0 {
                if j == 1 {
                } else {
                    assert(lex_le(s[0], s[j - 1]));
                    lemma_lex_le_trans(x, s[0], s[j - 1]);
                }
            } else {
                assert(lex_le(s[i - 1], s[j - 1]));
            }
        }
    }
}

/// The sort returns a sorted arrangement of exactly the input's elements.
pub proof fn lemma_sort_lex_ensures(s: Seq<Seq<char>>)
    ensures
        sorted_lex(sort_lex(s)),
        sort_lex(s).len() == s.len(),
        sort_lex(s).to_multiset() =~= s.to_multiset(),
    decreases s.len(),
{
    broadcast use vstd::seq_lib::group_to_multiset_ensures;

    if s.len() == 0 {
    } else {
        lemma_sort_lex_ensures(s.drop_last());
        lemma_insert_lex_sorted(sort_lex(s.drop_last()), s.last());
        lemma_insert_lex_elems(sort_lex(s.drop_last()), s.last());
        assert(s =~= s.drop_last().push(s.last()));
        assert(s.drop_last().push(s.last()).to_multiset() =~= s.drop_last().to_multiset().insert(
            s.last(),
        ));
    }
}

/// Where the first `pos` elements are at or before `x` and the element at
/// `pos` (if any) is not, the insertion lands exactly at `pos`.
proof fn lemma_insert_lex_at(s: Seq<Seq<char>>, x: Seq<char>, pos: int)
    requires
        0 <= pos <= s.len(),
        forall|j: int| 0 <= j < pos ==> lex_le(s[j], x),
        pos < s.len() ==> !lex_le(s[pos], x),
    ensures
        insert_lex(s, x) =~= s.insert(pos, x),
    decreases pos,
{
    if s.len() == 0 {
        assert(insert_lex(s, x) =~= s.insert(0, x));
    } else if pos == 0 {
        assert(insert_lex(s, x) =~= seq![x] + s);
        assert(s.insert(0, x) =~= seq![x] + s);
    } else {
        assert(lex_le(s[0], x));
        lemma_insert_lex_at(s.drop_first(), x, pos - 1);
        assert(insert_lex(s, x) =~= seq![s[0]] + s.drop_first().insert(pos - 1, x));
        assert(s.insert(pos, x) =~= seq![s[0]] + s.drop_first().insert(pos - 1, x));
    }
}

/// `x` added to the ascending list `v` at its place in the order.
pub fn insert_sorted_string(v: &mut Vec<String>, x: String)
    ensures
        final(v).deep_view() == insert_lex(old(v).deep_view(), x@),
{
    let mut i: usize = 0;
    while i < v.len() && str_le(v[i].as_str(), x.as_str())
        invariant
            i <= v@.len(),
            forall|j: int| 0 <= j < i ==> lex_le(v.deep_view()[j], x@),
        decreases v@.len() - i,
    {
        i += 1;
    }
    proof {
        lemma_insert_lex_at(v.deep_view(), x@, i as int);
    }
    let ghost pre = v.deep_view();
    v.insert(i, x);
    proof {
        assert(v.deep_view() =~= pre.insert(i as int, x@));
    }
}

/// The list sorted ascending in lexicographic order.
pub fn sort_strings(v: Vec<String>) -> (r: Vec<String>)
    ensures
        r.deep_view() == sort_lex(v.deep_view()),
{
    let mut r: Vec<String> = Vec::new();
    let mut i: usize = 0;
    let n = v.len();
    while i < n
        invariant
            i <= n,
            n == v@.len(),
            r.deep_view() == sort_lex(v.deep_view().take(i as int)),
        decreases n - i,
    {
        let x = v[i].clone();
        proof {
            assert(x@ == v.deep_view()[i as int]);
            assert(v.deep_view().take(i + 1 as int).drop_last() =~= v.deep_view().take(i as int));
            assert(v.deep_view().take(i + 1 as int).last() == v.deep_view()[i as int]);
        }
        insert_sorted_string(&mut r, x);
        i += 1;
    }
    proof {
        assert(v.deep_view().take(n as int) =~= v.deep_view());
    }
    r
}

} // verus!
