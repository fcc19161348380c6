//! Stable insertion sort for listings (directory entries, disk-usage rows,
//! trash items), ordered by a total preorder that each item type supplies.

use vstd::prelude::*;

verus! {

/// A total preorder on values, with an executable comparison.
pub trait KeyOrder: Sized {
    /// `self` may come before `other`.
    spec fn sort_le(&self, other: &Self) -> bool;

    fn key_le(&self, other: &Self) -> (r: bool)
        ensures
            r == self.sort_le(other),
    ;

    proof fn lemma_total(a: &Self, b: &Self)
        ensures
            a.sort_le(b) || b.sort_le(a),
    ;

    proof fn lemma_trans(a: &Self, b: &Self, c: &Self)
        requires
            a.sort_le(b),
            b.sort_le(c),
        ensures
            a.sort_le(c),
    ;
}

/// `x` inserted into `s` after every trailing element that is not above it:
/// the insertion step of a stable insertion sort.
pub open spec fn ins<T: KeyOrder>(s: Seq<T>, x: T) -> Seq<T>
    decreases s.len(),
{
    if s.len() == 0 {
        seq![x]
    } else if s.last().sort_le(&x) {
        s.push(x)
    } else {
        ins(s.drop_last(), x).push(s.last())
    }
}

/// The stable sort of `s`: the elements inserted one by one, in input order.
pub open spec fn insort<T: KeyOrder>(s: Seq<T>) -> Seq<T>
    decreases s.len(),
{
    if s.len() == 0 {
        s
    } else {
        ins(insort(s.drop_last()), s.last())
    }
}

/// Every element is `sort_le` every later element.
pub open spec fn sorted<T: KeyOrder>(s: Seq<T>) -> bool {
    forall|i: int, j: int| #![trigger s[i], s[j]] 0 <= i < j < s.len() ==> s[i].sort_le(&s[j])
}

proof fn lemma_ins_at<T: KeyOrder>(s: Seq<T>, x: T, p: int)
    requires
        0 <= p <= s.len(),
        forall|k: int| p <= k < s.len() ==> !(#[trigger] s[k]).sort_le(&x),
        p == 0 || s[p - 1].sort_le(&x),
    ensures
        ins(s, x) == s.take(p).push(x) + s.skip(p),
    decreases s.len(),
{
    if s.len() == 0 {
        assert(s.take(p).push(x) + s.skip(p) =~= seq![x]);
    } else if p == s.len() {
        assert(s.take(p).push(x) + s.skip(p) =~= s.push(x));
    } else {
        let t = s.drop_last();
        assert(!s.last().sort_le(&x));
        assert forall|k: int| p <= k < t.len() implies !(#[trigger] t[k]).sort_le(&x) by {
            assert(t[k] == s[k]);
        }
        lemma_ins_at(t, x, p);
        assert(t.take(p).push(x) + t.skip(p) + seq![s.last()] =~= s.take(p).push(x) + s.skip(p));
        assert(ins(t, x).push(s.last()) =~= ins(t, x) + seq![s.last()]);
    }
}

proof fn lemma_ins_sorted<T: KeyOrder>(s: Seq<T>, x: T)
    requires
        sorted(s),
    ensures
        sorted(ins(s, x)),
        ins(s, x).to_multiset() == s.to_multiset().insert(x),
        ins(s, x).len() == s.len() + 1,
    decreases s.len(),
{
    broadcast use vstd::seq_lib::group_to_multiset_ensures;

    if s.len() == 0 {
        assert(ins(s, x) =~= seq![x]);
        assert(seq![x] =~= s.push(x));
    } else if s.last().sort_le(&x) {
        let r = s.push(x);
        assert forall|i: int, j: int| #![trigger r[i], r[j]] 0 <= i < j < r.len() implies r[i].sort_le(
            &r[j],
        ) by {
            if j == s.len() {
                if i < s.len() - 1 {
                    T::lemma_trans(&s[i], &s.last(), &x);
                }
            }
        }
    } else {
        let t = s.drop_last();
        assert forall|i: int, j: int| #![trigger t[i], t[j]] 0 <= i < j < t.len() implies t[i].sort_le(
            &t[j],
        ) by {
            assert(t[i] == s[i] && t[j] == s[j]);
        }
        lemma_ins_sorted(t, x);
        let u = ins(t, x);
        let r = u.push(s.last());
        T::lemma_total(&s.last(), &x);
        // every element of u is le s.last()
        assert forall|i: int| 0 <= i < u.len() implies (#[trigger] u[i]).sort_le(&s.last()) by {
            assert(u.to_multiset().count(u[i]) > 0);
            assert(t.to_multiset().insert(x).count(u[i]) > 0);
            if u[i] != x {
                assert(t.to_multiset().count(u[i]) > 0);
                assert(t.contains(u[i]));
                let k = choose|k: int| 0 <= k < t.len() && t[k] == u[i];
                assert(s[k] == t[k]);
            }
        }
        assert forall|i: int, j: int| #![trigger r[i], r[j]] 0 <= i < j < r.len() implies r[i].sort_le(
            &r[j],
        ) by {
            if j == u.len() {
                assert(r[i] == u[i]);
            } else {
                assert(r[i] == u[i] && r[j] == u[j]);
            }
        }
        assert(s =~= t.push(s.last()));
    }
}

/// `insort` yields a sorted rearrangement of its input.
pub proof fn lemma_insort<T: KeyOrder>(s: Seq<T>)
    ensures
        sorted(insort(s)),
        insort(s).to_multiset() == s.to_multiset(),
        insort(s).len() == s.len(),
    decreases s.len(),
{
    broadcast use vstd::seq_lib::group_to_multiset_ensures;

    if s.len() > 0 {
        lemma_insort(s.drop_last());
        lemma_ins_sorted(insort(s.drop_last()), s.last());
        assert(s =~= s.drop_last().push(s.last()));
    }
}

/// Where `x` goes in `out`: after the last element that is `sort_le` it.
fn insert_pos<T: KeyOrder>(out: &Vec<T>, x: &T) -> (p: usize)
    ensures
        p <= out@.len(),
        forall|k: int| p <= k < out@.len() ==> !(#[trigger] out@[k]).sort_le(x),
        p == 0 || out@[p - 1].sort_le(x),
{
    let mut p = out.len();
    while p > 0 && !out[p - 1].key_le(x)
        invariant
            p <= out@.len(),
            forall|k: int| p <= k < out@.len() ==> !(#[trigger] out@[k]).sort_le(x),
        decreases p,
    {
        p = p - 1;
    }
    p
}

/// Sorts `v` stably: equal elements keep their input order.
pub fn stable_sort<T: KeyOrder>(v: Vec<T>) -> (out: Vec<T>)
    ensures
        out@ == insort(v@),
        sorted(out@),
        out@.to_multiset() == v@.to_multiset(),
{
    let mut out: Vec<T> = Vec::new();
    let ghost input = v@;
    for x in it: v
        invariant
            it.seq() == input,
            out@ == insort(input.take(it.index() as int)),
    {
        let ghost i = it.index() as int;
        proof {
            assert(input.take(i + 1).drop_last() =~= input.take(i));
        }
        let p = insert_pos(&out, &x);
        let ghost before = out@;
        proof {
            lemma_ins_at(out@, x, p as int);
        }
        out.insert(p, x);
        proof {
            assert(out@ =~= before.take(p as int).push(x) + before.skip(p as int));
            assert(input.take(i + 1).last() == x);
            assert(out@ == insort(input.take(i + 1)));
        }
    }
    assert(input.take(input.len() as int) =~= input);
    proof {
        lemma_insort(input);
    }
    out
}

} // verus!
