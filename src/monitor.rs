//! One probe run: placeholders are written before any probe starts, and the
//! completed observations are written back as one batch.
use vstd::prelude::*;
use crate::dataset::DocumentStore;
use crate::health::{
    local_count, placeholder_records, record_of, remote_count, success_count, summarize,
    url_docs, MonitorRecord, ProbeSummary,
};
use crate::table::{key_bound, lemma_key_bound, new_rows, updated_rows, HealthTable, Statement};

verus! {

/// Starts a probe run at second `now`: appends one placeholder row per stored
/// document with a URL, keyed with fresh keys from the table's key bound on,
/// and returns those rows, which are the work to probe. Rows are written
/// before any probe can start. `None`, with the table unchanged, when the
/// fresh keys would not fit in `u64`.
pub fn begin_run(table: &mut HealthTable, store: &DocumentStore, now: i64) -> (r: Option<Vec<MonitorRecord>>)
    requires
        old(table).wf(),
    ensures
        final(table).wf(),
        r is None <==> key_bound(old(table)@) + store@.len() > u64::MAX,
        r is None ==> final(table)@ == old(table)@,
        r is Some ==> {
            let recs = r->Some_0@;
            &&& recs.len() == url_docs(store@).len()
            &&& forall|k: int|
                0 <= k < recs.len() ==> record_of(
                    url_docs(store@)[k],
                    (key_bound(old(table)@) + k) as u64,
                    now,
                    #[trigger] recs[k],
                )
            &&& forall|j: int, k: int|
                0 <= j < old(table)@.len() && 0 <= k < recs.len() ==> (#[trigger] old(table)@[j]).record.id
                    < (#[trigger] recs[k]).id
            &&& final(table)@ == old(table)@ + new_rows(recs, now)
        },
{
    proof {
        lemma_key_bound(table@);
    }
    let first_id = match table.next_key() {
        Some(k) => k,
        None => return None,
    };
    if store.len() as u64 > u64::MAX - first_id {
        return None;
    }
    let records = placeholder_records(store, table, now);
    table.insert(&records, now);
    Some(records)
}

/// Ends a probe run at second `now`: writes the completed observations back
/// as one batch update and returns the run's counts with the statements issued.
pub fn finish_run(table: &mut HealthTable, results: &Vec<MonitorRecord>, now: i64) -> (r: (ProbeSummary, Vec<Statement>))
    requires
        old(table).wf(),
    ensures
        final(table).wf(),
        updated_rows(old(table)@, final(table)@, results@, now),
        r.0.total == results@.len(),
        r.0.success == success_count(results@),
        r.0.local_issues == local_count(results@),
        r.0.remote_issues == remote_count(results@),
        r.0.local_warning == (10 * local_count(results@) > results@.len()),
        results@.len() == 0 ==> r.1@.len() == 0,
        results@.len() > 0 ==> r.1@.len() == 4,
{
    let plan = table.update(results, now);
    (summarize(results), plan)
}

} // verus!
