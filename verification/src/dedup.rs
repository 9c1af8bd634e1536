//! Deduplication of records by structural equality.

use vstd::prelude::*;
use crate::record::{views, Record};

verus! {

/// The sequence with every later copy of a value removed: each value stays
/// at the place of its first occurrence.
pub open spec fn dedup_spec<A>(s: Seq<A>) -> Seq<A>
    decreases s.len(),
{
    if s.len() == 0 {
        Seq::empty()
    } else {
        let prev = dedup_spec(s.drop_last());
        if prev.contains(s.last()) {
            prev
        } else {
            prev.push(s.last())
        }
    }
}

/// Deduplication neither adds nor loses a value.
pub proof fn lemma_dedup_members<A>(s: Seq<A>)
    ensures
        forall|x: A| dedup_spec(s).contains(x) <==> s.contains(x),
        dedup_spec(s).to_set() == s.to_set(),
    decreases s.len(),
{
    let d = dedup_spec(s);
    if s.len() > 0 {
        let init = s.drop_last();
        let last = s.last();
        let prev = dedup_spec(init);
        lemma_dedup_members(init);
        assert(d == if prev.contains(last) { prev } else { prev.push(last) });
        assert forall|x: A| s.contains(x) implies d.contains(x) by {
            let i = choose|i: int| 0 <= i < s.len() && s[i] == x;
            if i < s.len() - 1 {
                assert(init[i] == x);
                assert(init.contains(x));
                assert(prev.contains(x));
                let k = choose|k: int| 0 <= k < prev.len() && prev[k] == x;
                assert(d[k] == x);
            } else if prev.contains(last) {
                assert(prev.contains(x));
            } else {
                assert(d[prev.len() as int] == x);
            }
        }
        assert forall|x: A| d.contains(x) implies s.contains(x) by {
            let k = choose|k: int| 0 <= k < d.len() && d[k] == x;
            if k < prev.len() {
                assert(prev[k] == x);
                assert(prev.contains(x));
                assert(init.contains(x));
                let i = choose|i: int| 0 <= i < init.len() && init[i] == x;
                assert(s[i] == x);
            } else {
                assert(s[s.len() - 1] == x);
            }
        }
    } else {
        assert(d.len() == 0);
    }
    assert(d.to_set() =~= s.to_set());
}

/// After deduplication no value occurs twice, and nothing was added.
pub proof fn lemma_dedup_no_duplicates<A>(s: Seq<A>)
    ensures
        dedup_spec(s).no_duplicates(),
        dedup_spec(s).len() <= s.len(),
    decreases s.len(),
{
    if s.len() > 0 {
        lemma_dedup_no_duplicates(s.drop_last());
    }
}

/// A sequence in which nothing occurs twice is left as it is.
pub proof fn lemma_dedup_fixed_point<A>(s: Seq<A>)
    requires
        s.no_duplicates(),
    ensures
        dedup_spec(s) == s,
    decreases s.len(),
{
    if s.len() > 0 {
        let init = s.drop_last();
        lemma_dedup_fixed_point(init);
        if init.contains(s.last()) {
            let i = choose|i: int| 0 <= i < init.len() && init[i] == s.last();
            assert(s[i] == s[s.len() - 1]);
        }
        assert(init.push(s.last()) =~= s);
    } else {
        assert(s =~= Seq::empty());
    }
}

/// Deduplicating twice gives what deduplicating once gives.
pub proof fn lemma_dedup_idempotent<A>(s: Seq<A>)
    ensures
        dedup_spec(dedup_spec(s)) == dedup_spec(s),
{
    lemma_dedup_no_duplicates(s);
    lemma_dedup_fixed_point(dedup_spec(s));
}

/// Two values are merged into one exactly when they are equal.
pub proof fn lemma_dedup_pair<A>(a: A, b: A)
    ensures
        a == b ==> dedup_spec(seq![a, b]) == seq![a],
        a != b ==> dedup_spec(seq![a, b]) == seq![a, b],
{
    let s = seq![a, b];
    let one = s.drop_last();
    assert(one =~= seq![a]);
    assert(one.drop_last() =~= Seq::<A>::empty());
    assert(dedup_spec(one.drop_last()) =~= Seq::<A>::empty());
    assert(!Seq::<A>::empty().contains(a));
    assert(dedup_spec(one) =~= seq![a]);
    assert(seq![a][0] == a);
    if a != b {
        assert(!seq![a].contains(b));
        assert(seq![a].push(b) =~= seq![a, b]);
    } else {
        assert(seq![a].contains(b));
    }
}

/// Two records that differ in any one field are both kept; two that agree in
/// every field are merged.
pub proof fn lemma_records_merge_iff_equal(a: Record, b: Record)
    ensures
        dedup_spec(views(seq![a, b])).len() == 1 <==> (a.content@ == b.content@ && a.pubkey@
            == b.pubkey@ && a.created_at == b.created_at && a.sig@ == b.sig@
            && a.tags.deep_view() == b.tags.deep_view() && a.id@ == b.id@),
        dedup_spec(views(seq![a, b])).len() == 1 || dedup_spec(views(seq![a, b])).len() == 2,
{
    assert(views(seq![a, b]) =~= seq![a@, b@]);
    lemma_dedup_pair(a@, b@);
}

/// Whether `list` holds a record structurally equal to `r`.
pub fn contains_record(list: &Vec<Record>, r: &Record) -> (found: bool)
    ensures
        found == views(list@).contains(r@),
{
    let mut i: usize = 0;
    while i < list.len()
        invariant
            i <= list.len(),
            forall|j: int| 0 <= j < i ==> views(list@)[j] != r@,
        decreases list.len() - i,
    {
        if list[i].same(r) {
            assert(views(list@)[i as int] == r@);
            return true;
        }
        i += 1;
    }
    false
}

/// Removes every record that is structurally equal to an earlier one. Each
/// record that stays is one of those handed in, at the place of its first
/// occurrence.
pub fn dedup(records: Vec<Record>) -> (out: Vec<Record>)
    ensures
        views(out@) == dedup_spec(views(records@)),
        forall|i: int| 0 <= i < out@.len() ==> records@.contains(#[trigger] out@[i]),
{
    let ghost all = records@;
    let mut out: Vec<Record> = Vec::new();
    assert(views(out@) =~= dedup_spec(views(all.take(0))));
    for r in iter: records
        invariant
            iter.seq() == all,
            views(out@) == dedup_spec(views(all.take(iter.index()))),
            forall|i: int| 0 <= i < out@.len() ==> all.contains(#[trigger] out@[i]),
    {
        let ghost k = iter.index();
        proof {
            assert(all.take(k + 1).drop_last() =~= all.take(k));
            assert(views(all.take(k + 1)).drop_last() =~= views(all.take(k)));
            assert(views(all.take(k + 1)).last() == r@);
        }
        if !contains_record(&out, &r) {
            let ghost before = out@;
            out.push(r);
            proof {
                assert(views(out@) =~= views(before).push(r@));
                assert(all[k] == r);
            }
        }
    }
    proof {
        assert(all.take(all.len() as int) =~= all);
    }
    out
}

} // verus!
