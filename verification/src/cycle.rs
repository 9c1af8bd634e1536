//! One cycle: from the answer to a query to the records that are written.

use vstd::prelude::*;
use crate::dedup::{
    dedup, dedup_spec, lemma_dedup_fixed_point, lemma_dedup_members, lemma_dedup_no_duplicates,
};
use crate::error::{CycleError, QueryFailure};
use crate::order::{
    lemma_sort_fixed_point, lemma_sort_sorted_permutation, sort_records, sort_spec, sorted,
};
use crate::parse::{parse_all, parse_all_spec, RawRecord};
use crate::record::{views, Record, RecordView};

verus! {

/// What one cycle writes, or the error on which it ends: a failed query and
/// an event that is not a record both end it; otherwise every record of the
/// answer, each once, in the fixed order. The lower bound on the creation
/// time belongs to the query alone: what the session hands back is not
/// filtered again.
pub open spec fn outcome_spec(response: Result<Seq<RawRecord>, QueryFailure>) -> Result<
    Seq<RecordView>,
    CycleError,
> {
    match response {
        Err(f) => Err(CycleError::Query(f)),
        Ok(raws) => match parse_all_spec(raws) {
            Err(e) => Err(CycleError::Deserialization(e)),
            Ok(parsed) => Ok(sort_spec(dedup_spec(parsed))),
        },
    }
}

/// The value of a query's answer.
pub open spec fn response_view(response: Result<Vec<RawRecord>, QueryFailure>) -> Result<
    Seq<RawRecord>,
    QueryFailure,
> {
    match response {
        Ok(raws) => Ok(raws@),
        Err(f) => Err(f),
    }
}

/// What is written holds exactly the distinct records: none twice, none
/// lost, none added, as many as there are distinct ones, and in order.
pub proof fn lemma_written_distinct_sorted(records: Seq<RecordView>)
    ensures
        ({
            let out = sort_spec(dedup_spec(records));
            &&& out.no_duplicates()
            &&& sorted(out)
            &&& out.to_set() == records.to_set()
            &&& out.len() == records.to_set().len()
        }),
{
    broadcast use vstd::seq_lib::group_to_multiset_ensures;

    let once = dedup_spec(records);
    let out = sort_spec(once);
    lemma_dedup_no_duplicates(records);
    lemma_dedup_members(records);
    lemma_sort_sorted_permutation(once);
    once.lemma_multiset_has_no_duplicates();
    out.lemma_multiset_has_no_duplicates_conv();
    assert forall|x: RecordView| out.contains(x) <==> once.contains(x) by {
        assert(out.to_multiset().count(x) == once.to_multiset().count(x));
    }
    assert(out.to_set() =~= records.to_set());
    out.unique_seq_to_set();
}

/// A cycle whose events are all records writes exactly the distinct records
/// of the answer, whatever their creation times: none twice, none lost, none
/// added, and in order.
pub proof fn lemma_outcome_holds_distinct_records(raws: Seq<RawRecord>)
    requires
        parse_all_spec(raws) is Ok,
    ensures
        ({
            let parsed = parse_all_spec(raws)->Ok_0;
            &&& outcome_spec(Ok(raws)) is Ok
            &&& outcome_spec(Ok(raws))->Ok_0.no_duplicates()
            &&& sorted(outcome_spec(Ok(raws))->Ok_0)
            &&& outcome_spec(Ok(raws))->Ok_0.to_set() == parsed.to_set()
            &&& outcome_spec(Ok(raws))->Ok_0.len() == parsed.to_set().len()
        }),
{
    lemma_written_distinct_sorted(parse_all_spec(raws)->Ok_0);
}

/// What a cycle writes is left as it is when it is deduplicated and ordered
/// once more.
pub proof fn lemma_written_is_stable(records: Seq<RecordView>)
    ensures
        ({
            let out = sort_spec(dedup_spec(records));
            dedup_spec(out) == out && sort_spec(out) == out
        }),
{
    let out = sort_spec(dedup_spec(records));
    lemma_written_distinct_sorted(records);
    lemma_dedup_fixed_point(out);
    lemma_sort_fixed_point(out);
}

/// A failed query ends the cycle with a query error: there is nothing to
/// write.
pub proof fn lemma_failed_query_writes_nothing(failure: QueryFailure)
    ensures
        outcome_spec(Err(failure)) == Err::<Seq<RecordView>, CycleError>(
            CycleError::Query(failure),
        ),
{
}

/// Decides what a cycle does with the answer to its query. `Ok` holds the
/// records with which the output file is to be overwritten: every record of
/// the answer, each once, ordered by creation time and identifier. On `Err`
/// the cycle ends and nothing is to be written: the file stays as the cycle
/// before left it.
pub fn process_response(response: Result<Vec<RawRecord>, QueryFailure>) -> (r: Result<
    Vec<Record>,
    CycleError,
>)
    ensures
        match r {
            Ok(out) => outcome_spec(response_view(response)) == Ok::<Seq<RecordView>, CycleError>(
                views(out@),
            ) && forall|i: int| 0 <= i < out@.len() ==> (#[trigger] out@[i]).wf(),
            Err(e) => outcome_spec(response_view(response)) == Err::<Seq<RecordView>, CycleError>(
                e,
            ),
        },
{
    let raws = match response {
        Ok(raws) => raws,
        Err(f) => { return Err(CycleError::Query(f)); },
    };
    let parsed = match parse_all(raws) {
        Ok(parsed) => parsed,
        Err(e) => { return Err(CycleError::Deserialization(e)); },
    };
    let once = dedup(parsed);
    let out = sort_records(once);
    proof {
        assert forall|i: int| 0 <= i < out@.len() implies (#[trigger] out@[i]).wf() by {
            assert(once@.contains(out@[i]));
            let m = choose|m: int| 0 <= m < once@.len() && once@[m] == out@[i];
            assert(parsed@.contains(once@[m]));
        }
    }
    Ok(out)
}

/// The end of a cycle, given whether the output file was written.
pub fn finish_cycle(written: bool) -> (r: Result<(), CycleError>)
    ensures
        written ==> r == Ok::<(), CycleError>(()),
        !written ==> r == Err::<(), CycleError>(CycleError::Io),
{
    if written {
        Ok(())
    } else {
        Err(CycleError::Io)
    }
}

} // verus!
