//! A fixed order for the records that are written: by creation time, then
//! by identifier.

use vstd::prelude::*;
use crate::record::{views, Record, RecordView};

verus! {

/// Whether `a` comes before `b`, or equals it, in the order of the
/// dictionary: the first byte that differs decides, and a prefix comes
/// first.
pub open spec fn bytes_le(a: Seq<u8>, b: Seq<u8>) -> bool
    decreases a.len(),
{
    if a.len() == 0 {
        true
    } else if b.len() == 0 {
        false
    } else if a[0] != b[0] {
        a[0] < b[0]
    } else {
        bytes_le(a.skip(1), b.skip(1))
    }
}

/// Whether `a` is written before `b`, or may stand at its place: by
/// creation time first, by identifier where the times agree.
pub open spec fn key_le(a: RecordView, b: RecordView) -> bool {
    a.created_at < b.created_at || (a.created_at == b.created_at && bytes_le(a.id, b.id))
}

/// Whether every record stands before all that follow it.
pub open spec fn sorted(s: Seq<RecordView>) -> bool {
    forall|i: int, j: int| 0 <= i < j < s.len() ==> key_le(#[trigger] s[i], #[trigger] s[j])
}

/// Whether `p` is the place of `x` in `s`: behind every leading record that
/// may stand before `x`, and in front of the first that may not.
pub open spec fn is_insert_pos(s: Seq<RecordView>, x: RecordView, p: int) -> bool {
    &&& 0 <= p <= s.len()
    &&& forall|j: int| 0 <= j < p ==> key_le(#[trigger] s[j], x)
    &&& p < s.len() ==> !key_le(s[p], x)
}

/// The place of `x` in `s`.
pub open spec fn insert_pos(s: Seq<RecordView>, x: RecordView) -> int {
    choose|p: int| is_insert_pos(s, x, p)
}

/// The records in order: each is put, in turn, at its place among those
/// before it. Records with equal keys keep the order in which they came.
pub open spec fn sort_spec(s: Seq<RecordView>) -> Seq<RecordView>
    decreases s.len(),
{
    if s.len() == 0 {
        Seq::empty()
    } else {
        let prev = sort_spec(s.drop_last());
        prev.insert(insert_pos(prev, s.last()), s.last())
    }
}

/// Of two byte strings one comes before the other, or they are equal.
pub proof fn lemma_bytes_le_total(a: Seq<u8>, b: Seq<u8>)
    ensures
        bytes_le(a, b) || bytes_le(b, a),
    decreases a.len(),
{
    if a.len() > 0 && b.len() > 0 && a[0] == b[0] {
        lemma_bytes_le_total(a.skip(1), b.skip(1));
    }
}

/// The order of byte strings is transitive.
pub proof fn lemma_bytes_le_transitive(a: Seq<u8>, b: Seq<u8>, c: Seq<u8>)
    requires
        bytes_le(a, b),
        bytes_le(b, c),
    ensures
        bytes_le(a, c),
    decreases a.len(),
{
    if a.len() > 0 && b.len() > 0 && c.len() > 0 && a[0] == b[0] && b[0] == c[0] {
        lemma_bytes_le_transitive(a.skip(1), b.skip(1), c.skip(1));
    }
}

/// Of two records one may stand before the other.
pub proof fn lemma_key_le_total(a: RecordView, b: RecordView)
    ensures
        key_le(a, b) || key_le(b, a),
{
    lemma_bytes_le_total(a.id, b.id);
}

/// The order of records is transitive.
pub proof fn lemma_key_le_transitive(a: RecordView, b: RecordView, c: RecordView)
    requires
        key_le(a, b),
        key_le(b, c),
    ensures
        key_le(a, c),
{
    if a.created_at == b.created_at && b.created_at == c.created_at {
        lemma_bytes_le_transitive(a.id, b.id, c.id);
    }
}

/// Every record has exactly one place in every sequence.
pub proof fn lemma_insert_pos_unique(s: Seq<RecordView>, x: RecordView, p: int)
    requires
        is_insert_pos(s, x, p),
    ensures
        insert_pos(s, x) == p,
{
    let q = insert_pos(s, x);
    assert(is_insert_pos(s, x, q));
    if q < p {
        assert(key_le(s[q], x));
    }
    if p < q {
        assert(key_le(s[p], x));
    }
}

proof fn lemma_insert_pos_from(s: Seq<RecordView>, x: RecordView, i: int)
    requires
        0 <= i <= s.len(),
        forall|j: int| 0 <= j < i ==> key_le(#[trigger] s[j], x),
    ensures
        is_insert_pos(s, x, insert_pos(s, x)),
    decreases s.len() - i,
{
    if i < s.len() && key_le(s[i], x) {
        lemma_insert_pos_from(s, x, i + 1);
    } else {
        assert(is_insert_pos(s, x, i));
    }
}

/// Sorting gives an ordered sequence that holds each record as often as the
/// input does.
pub proof fn lemma_sort_sorted_permutation(s: Seq<RecordView>)
    ensures
        sorted(sort_spec(s)),
        sort_spec(s).to_multiset() == s.to_multiset(),
        sort_spec(s).len() == s.len(),
    decreases s.len(),
{
    broadcast use vstd::seq_lib::group_to_multiset_ensures;

    if s.len() == 0 {
        assert(sort_spec(s).to_multiset() =~= s.to_multiset());
    } else {
        let init = s.drop_last();
        let x = s.last();
        let prev = sort_spec(init);
        lemma_sort_sorted_permutation(init);
        lemma_insert_pos_from(prev, x, 0);
        let p = insert_pos(prev, x);
        let r = prev.insert(p, x);
        assert(r == sort_spec(s));
        assert forall|i: int, j: int| 0 <= i < j < r.len() implies key_le(
            #[trigger] r[i],
            #[trigger] r[j],
        ) by {
            if j == p {
                assert(r[i] == prev[i]);
            } else if i == p {
                assert(r[j] == prev[j - 1]);
                lemma_key_le_total(prev[p], x);
                if j - 1 > p {
                    assert(key_le(prev[p], prev[j - 1]));
                    lemma_key_le_transitive(x, prev[p], prev[j - 1]);
                }
            } else {
                let i0 = if i < p { i } else { i - 1 };
                let j0 = if j < p { j } else { j - 1 };
                assert(r[i] == prev[i0] && r[j] == prev[j0]);
                assert(key_le(prev[i0], prev[j0]));
            }
        }
        assert(r.remove(p) =~= prev);
        assert(r[p] == x);
        assert(init.push(x) =~= s);
        assert(r.to_multiset() =~= prev.to_multiset().insert(x)) by {
            assert(r.remove(p).to_multiset() =~= r.to_multiset().remove(x));
            assert(r.contains(x));
            assert(r.to_multiset().count(x) > 0);
        }
        assert(r.to_multiset() =~= s.to_multiset());
    }
}

/// An ordered sequence is left as it is.
pub proof fn lemma_sort_fixed_point(s: Seq<RecordView>)
    requires
        sorted(s),
    ensures
        sort_spec(s) == s,
    decreases s.len(),
{
    if s.len() == 0 {
        assert(s =~= Seq::empty());
    } else {
        let init = s.drop_last();
        assert forall|i: int, j: int| 0 <= i < j < init.len() implies key_le(
            #[trigger] init[i],
            #[trigger] init[j],
        ) by {
            assert(init[i] == s[i] && init[j] == s[j]);
        }
        lemma_sort_fixed_point(init);
        assert forall|j: int| 0 <= j < init.len() implies key_le(#[trigger] init[j], s.last()) by {
            assert(init[j] == s[j]);
        }
        assert(is_insert_pos(init, s.last(), init.len() as int));
        lemma_insert_pos_unique(init, s.last(), init.len() as int);
        assert(init.insert(init.len() as int, s.last()) =~= s);
    }
}

/// Sorting twice gives what sorting once gives.
pub proof fn lemma_sort_idempotent(s: Seq<RecordView>)
    ensures
        sort_spec(sort_spec(s)) == sort_spec(s),
{
    lemma_sort_sorted_permutation(s);
    lemma_sort_fixed_point(sort_spec(s));
}

/// Whether `a` comes before `b`, or equals it, in the order of the
/// dictionary.
pub fn bytes_before_or_equal(a: &Vec<u8>, b: &Vec<u8>) -> (r: bool)
    ensures
        r == bytes_le(a@, b@),
{
    let mut i: usize = 0;
    assert(a@.skip(0) =~= a@ && b@.skip(0) =~= b@);
    loop
        invariant
            i <= a.len(),
            i <= b.len(),
            bytes_le(a@, b@) == bytes_le(a@.skip(i as int), b@.skip(i as int)),
        decreases a.len() - i,
    {
        if i == a.len() {
            return true;
        }
        if i == b.len() {
            return false;
        }
        if a[i] != b[i] {
            return a[i] < b[i];
        }
        proof {
            assert(a@.skip(i as int).skip(1) =~= a@.skip(i + 1));
            assert(b@.skip(i as int).skip(1) =~= b@.skip(i + 1));
        }
        i += 1;
    }
}

/// Whether `a` is written before `b`, or may stand at its place.
pub fn key_before_or_equal(a: &Record, b: &Record) -> (r: bool)
    ensures
        r == key_le(a@, b@),
{
    a.created_at < b.created_at || (a.created_at == b.created_at && bytes_before_or_equal(
        &a.id,
        &b.id,
    ))
}

/// Puts the records in order: by creation time, and by identifier where the
/// times agree. No record is added, dropped or changed, and records with
/// equal keys keep the order in which they came.
pub fn sort_records(records: Vec<Record>) -> (out: Vec<Record>)
    ensures
        views(out@) == sort_spec(views(records@)),
        forall|i: int| 0 <= i < out@.len() ==> records@.contains(#[trigger] out@[i]),
{
    let ghost all = records@;
    let mut out: Vec<Record> = Vec::new();
    assert(views(out@) =~= sort_spec(views(all.take(0))));
    for r in iter: records
        invariant
            iter.seq() == all,
            views(out@) == sort_spec(views(all.take(iter.index()))),
            forall|i: int| 0 <= i < out@.len() ==> all.contains(#[trigger] out@[i]),
    {
        let ghost k = iter.index();
        let ghost before = out@;
        proof {
            assert(views(all.take(k + 1)).drop_last() =~= views(all.take(k)));
            assert(views(all.take(k + 1)).last() == r@);
            assert(all[k] == r);
        }
        let mut p: usize = 0;
        while p < out.len() && key_before_or_equal(&out[p], &r)
            invariant
                out@ == before,
                p <= out.len(),
                forall|j: int| 0 <= j < p ==> key_le(#[trigger] views(before)[j], r@),
            decreases out.len() - p,
        {
            p += 1;
        }
        proof {
            assert(is_insert_pos(views(before), r@, p as int));
            lemma_insert_pos_unique(views(before), r@, p as int);
        }
        out.insert(p, r);
        proof {
            assert(views(out@) =~= views(before).insert(p as int, r@));
            assert forall|i: int| 0 <= i < out@.len() implies all.contains(#[trigger] out@[i]) by {
                if i < p {
                    assert(out@[i] == before[i]);
                } else if i > p {
                    assert(out@[i] == before[i - 1]);
                }
            }
        }
    }
    proof {
        assert(all.take(all.len() as int) =~= all);
    }
    out
}

} // verus!
