//! The analytical table of health records and its batch write discipline.
use vstd::prelude::*;
use vstd::hash_map::HashMapWithView;
use crate::health::{completed, is_placeholder, same_identity, MonitorRecord, ResponseInfo};

verus! {

/// A statement sent to the analytical store.
#[derive(Clone, Copy, Debug, PartialEq, Eq, Structural)]
pub enum Statement {
    /// Appends rows to the health table in one pass.
    AppendRows(usize),
    /// Creates the temporary staging table.
    CreateStaging,
    /// Appends rows to the staging table in one pass.
    AppendStaging(usize),
    /// Updates the health table from the staging table, joined on the row key.
    JoinUpdate,
    /// Drops the staging table.
    DropStaging,
}

/// The position of the last row of `batch` keyed `id`.
pub open spec fn last_with_id(batch: Seq<MonitorRecord>, id: u64) -> Option<int>
    decreases batch.len(),
{
    if batch.len() == 0 {
        None
    } else if batch.last().id == id {
        Some(batch.len() - 1)
    } else {
        last_with_id(batch.drop_last(), id)
    }
}

/// `after` carries the result fields of `source` and the identity of `before`.
pub open spec fn takes_results(before: MonitorRecord, after: MonitorRecord, source: MonitorRecord) -> bool {
    &&& same_identity(before, after)
    &&& after.check_time == source.check_time
    &&& after.status_code == source.status_code
    &&& after.status_text == source.status_text
    &&& after.error_category == source.error_category
    &&& after.error_msg == source.error_msg
    &&& after.error_detail == source.error_detail
    &&& after.response_time_ms == source.response_time_ms
    &&& after.is_likely_local_issue == source.is_likely_local_issue
    &&& after.headers == source.headers
}

/// A row of the health table: an observation with the seconds at which the
/// row was created and last written.
#[derive(Debug)]
pub struct StoredRow {
    pub record: MonitorRecord,
    pub created_at: i64,
    pub updated_at: i64,
}

/// The rows that appending `records` at second `now` adds.
pub open spec fn new_rows(records: Seq<MonitorRecord>, now: i64) -> Seq<StoredRow> {
    records.map_values(|r: MonitorRecord| StoredRow { record: r, created_at: now, updated_at: now })
}

/// `after` is `before` with every row whose key occurs in `batch` given the
/// result fields of the last batch row with that key and the write second
/// `now`; other rows are unchanged.
pub open spec fn updated_rows(
    before: Seq<StoredRow>,
    after: Seq<StoredRow>,
    batch: Seq<MonitorRecord>,
    now: i64,
) -> bool {
    &&& after.len() == before.len()
    &&& forall|k: int|
        0 <= k < before.len() ==> match last_with_id(batch, #[trigger] before[k].record.id) {
            Some(j) => takes_results(before[k].record, after[k].record, batch[j])
                && after[k].created_at == before[k].created_at && after[k].updated_at == now,
            None => after[k] == before[k],
        }
}

/// One more than the largest row key of `rows`, 0 when there is none: every
/// key from it on is fresh.
pub open spec fn key_bound(rows: Seq<StoredRow>) -> int
    decreases rows.len(),
{
    if rows.len() == 0 {
        0
    } else {
        let b = key_bound(rows.drop_last());
        if rows.last().record.id + 1 > b {
            rows.last().record.id + 1
        } else {
            b
        }
    }
}

/// Every row key lies below the key bound.
pub proof fn lemma_key_bound(rows: Seq<StoredRow>)
    ensures
        key_bound(rows) >= 0,
        forall|k: int| 0 <= k < rows.len() ==> (#[trigger] rows[k]).record.id < key_bound(rows),
    decreases rows.len(),
{
    if rows.len() > 0 {
        lemma_key_bound(rows.drop_last());
        assert forall|k: int| 0 <= k < rows.len() implies (#[trigger] rows[k]).record.id < key_bound(
            rows,
        ) by {
            if k < rows.len() - 1 {
                assert(rows[k] == rows.drop_last()[k]);
            }
        }
    }
}

/// The health table: one row per observation.
pub struct HealthTable {
    rows: Vec<StoredRow>,
    bound: u128,
}

impl View for HealthTable {
    type V = Seq<StoredRow>;

    closed spec fn view(&self) -> Seq<StoredRow> {
        self.rows@
    }
}

impl HealthTable {
    /// The table keeps its key bound up to date.
    pub closed spec fn wf(&self) -> bool {
        self.bound == key_bound(self.rows@)
    }

    /// An empty table.
    pub fn new() -> (r: HealthTable)
        ensures
            r@ == Seq::<StoredRow>::empty(),
            r.wf(),
    {
        HealthTable { rows: Vec::new(), bound: 0 }
    }

    /// Number of rows.
    pub fn len(&self) -> (r: usize)
        ensures
            r == self@.len(),
    {
        self.rows.len()
    }

    /// The first fresh row key: one more than the largest key in the table,
    /// or `None` when that does not fit in `u64`.
    pub fn next_key(&self) -> (r: Option<u64>)
        requires
            self.wf(),
        ensures
            r == (if key_bound(self@) <= u64::MAX {
                Some(key_bound(self@) as u64)
            } else {
                None::<u64>
            }),
    {
        if self.bound <= u64::MAX as u128 {
            Some(self.bound as u64)
        } else {
            None
        }
    }

    /// The row at `i`.
    pub fn row(&self, i: usize) -> (r: &StoredRow)
        requires
            i < self@.len(),
        ensures
            *r == self@[i as int],
    {
        &self.rows[i]
    }

    /// Appends every record in one pass, created and written at second
    /// `now`, and returns the statements issued: none for an empty batch,
    /// else a single append.
    pub fn insert(&mut self, records: &Vec<MonitorRecord>, now: i64) -> (r: Vec<Statement>)
        requires
            old(self).wf(),
        ensures
            final(self).wf(),
            final(self)@ == old(self)@ + new_rows(records@, now),
            records@.len() == 0 ==> r@ == Seq::<Statement>::empty(),
            records@.len() > 0 ==> r@ == seq![Statement::AppendRows(records@.len() as usize)],
    {
        let n = records.len();
        let ghost start = self@;
        let mut i: usize = 0;
        while i < n
            invariant
                i <= n,
                n == records@.len(),
                self@ == start + new_rows(records@.take(i as int), now),
                self.wf(),
            decreases n - i,
        {
            let ghost before = self@;
            let id = records[i].id;
            self.rows.push(StoredRow { record: records[i].clone(), created_at: now, updated_at: now });
            proof {
                assert(self@.drop_last() =~= before);
                lemma_key_bound(before);
            }
            if id as u128 + 1 > self.bound {
                self.bound = id as u128 + 1;
            }
            assert(new_rows(records@.take(i + 1), now) =~= new_rows(records@.take(i as int), now).push(
                StoredRow { record: records@[i as int], created_at: now, updated_at: now },
            ));
            i += 1;
        }
        assert(records@.take(n as int) =~= records@);
        if n == 0 {
            return Vec::new();
        }
        let mut plan: Vec<Statement> = Vec::new();
        plan.push(Statement::AppendRows(n));
        plan
    }

    /// Applies a batch of completed observations at second `now`: the batch
    /// is staged, one update joined on the row key copies the result fields
    /// into the matching rows, and the staging table is dropped. Returns the
    /// statements issued: none for an empty batch, else the same four
    /// whatever its size.
    pub fn update(&mut self, records: &Vec<MonitorRecord>, now: i64) -> (r: Vec<Statement>)
        requires
            old(self).wf(),
        ensures
            final(self).wf(),
            updated_rows(old(self)@, final(self)@, records@, now),
            records@.len() == 0 ==> r@ == Seq::<Statement>::empty() && final(self)@ == old(
                self,
            )@,
            records@.len() > 0 ==> r@ == seq![
                Statement::CreateStaging,
                Statement::AppendStaging(records@.len() as usize),
                Statement::JoinUpdate,
                Statement::DropStaging,
            ],
    {
        let n = records.len();
        if n == 0 {
            assert forall|k: int| 0 <= k < self@.len() implies last_with_id(
                records@,
                #[trigger] self@[k].record.id,
            ) is None by {
                reveal_with_fuel(last_with_id, 1);
            }
            return Vec::new();
        }
        let mut staging: HashMapWithView<u64, usize> = HashMapWithView::new();
        let mut j: usize = 0;
        while j < n
            invariant
                j <= n,
                n == records@.len(),
                forall|id: u64|
                    #[trigger] staging@.contains_key(id) <==> last_with_id(
                        records@.take(j as int),
                        id,
                    ) is Some,
                forall|id: u64|
                    staging@.contains_key(id) ==> Some(#[trigger] staging@[id] as int)
                        == last_with_id(records@.take(j as int), id),
            decreases n - j,
        {
            proof {
                assert(records@.take(j + 1).drop_last() =~= records@.take(j as int));
            }
            staging.insert(records[j].id, j);
            j += 1;
        }
        assert(records@.take(n as int) =~= records@);
        let ghost start = self@;
        let mut i: usize = 0;
        while i < self.rows.len()
            invariant
                i <= self.rows.len(),
                self@.len() == start.len(),
                self.bound == key_bound(start),
                n == records@.len(),
                forall|id: u64|
                    #[trigger] staging@.contains_key(id) <==> last_with_id(records@, id) is Some,
                forall|id: u64|
                    staging@.contains_key(id) ==> Some(#[trigger] staging@[id] as int)
                        == last_with_id(records@, id),
                forall|k: int|
                    0 <= k < start.len() ==> if k < i {
                        match last_with_id(records@, #[trigger] start[k].record.id) {
                            Some(j) => takes_results(start[k].record, self@[k].record, records@[j])
                                && self@[k].created_at == start[k].created_at && self@[k].updated_at
                                == now,
                            None => self@[k] == start[k],
                        }
                    } else {
                        self@[k] == start[k]
                    },
            decreases self.rows.len() - i,
        {
            let key = self.rows[i].record.id;
            match staging.get(&key) {
                Some(jr) => {
                    let jj = *jr;
                    proof {
                        lemma_last_in_range(records@, key);
                    }
                    let old_row = &self.rows[i].record;
                    let mut record = records[jj].clone();
                    record.id = old_row.id;
                    record.raw_id = old_row.raw_id.clone();
                    record.url = old_row.url.clone();
                    record.name = old_row.name.clone();
                    record.center_name = old_row.center_name.clone();
                    record.date_published = old_row.date_published.clone();
                    let row = StoredRow { record, created_at: self.rows[i].created_at, updated_at: now };
                    self.rows.set(i, row);
                },
                None => {},
            }
            i += 1;
        }
        let mut plan: Vec<Statement> = Vec::new();
        plan.push(Statement::CreateStaging);
        plan.push(Statement::AppendStaging(n));
        plan.push(Statement::JoinUpdate);
        plan.push(Statement::DropStaging);
        proof {
            assert forall|k: int| 0 <= k < start.len() implies #[trigger] self@[k].record.id == start[k].record.id by {
                lemma_last_in_range(records@, start[k].record.id);
            }
            lemma_key_bound_same_ids(start, self@);
        }
        plan
    }
}

proof fn lemma_key_bound_same_ids(a: Seq<StoredRow>, b: Seq<StoredRow>)
    requires
        a.len() == b.len(),
        forall|k: int| 0 <= k < a.len() ==> #[trigger] a[k].record.id == b[k].record.id,
    ensures
        key_bound(a) == key_bound(b),
    decreases a.len(),
{
    if a.len() > 0 {
        assert forall|k: int| 0 <= k < a.len() - 1 implies #[trigger] a.drop_last()[k].record.id
            == b.drop_last()[k].record.id by {
            assert(a.drop_last()[k] == a[k]);
            assert(b.drop_last()[k] == b[k]);
        }
        lemma_key_bound_same_ids(a.drop_last(), b.drop_last());
    }
}

proof fn lemma_bound_exhausted(rows: Seq<StoredRow>, i: int)
    requires
        0 <= i < rows.len(),
        rows[i].record.id == u64::MAX,
    ensures
        key_bound(rows) > u64::MAX,
    decreases rows.len(),
{
    lemma_key_bound(rows);
}

proof fn lemma_last_in_range(batch: Seq<MonitorRecord>, id: u64)
    ensures
        match last_with_id(batch, id) {
            Some(j) => 0 <= j < batch.len() && batch[j].id == id,
            None => true,
        },
    decreases batch.len(),
{
    if batch.len() > 0 && batch.last().id != id {
        lemma_last_in_range(batch.drop_last(), id);
    }
}

/// A placeholder row appended to the table at second `created` and then
/// updated at second `written` with the same observation completed by a
/// successful probe reads back with exactly the probe's fields set, its
/// identity and creation second unchanged; the other rows stay as they were.
pub proof fn lemma_insert_update_round_trip(
    rows: Seq<StoredRow>,
    placeholder: MonitorRecord,
    done: MonitorRecord,
    info: ResponseInfo,
    elapsed_ms: u64,
    checked: i64,
    created: i64,
    written: i64,
    after: Seq<StoredRow>,
)
    requires
        is_placeholder(placeholder),
        forall|k: int| 0 <= k < rows.len() ==> (#[trigger] rows[k]).record.id != placeholder.id,
        completed(placeholder, done, Ok(info), elapsed_ms, checked),
        updated_rows(rows + new_rows(seq![placeholder], created), after, seq![done], written),
    ensures
        after.len() == rows.len() + 1,
        after.take(rows.len() as int) == rows,
        same_identity(after.last().record, placeholder),
        after.last().created_at == created,
        after.last().updated_at == written,
        after.last().record.check_time == checked,
        after.last().record.response_time_ms == Some(elapsed_ms),
        after.last().record.status_code == Some(info.status_code),
        after.last().record.status_text == Some(info.status_text),
        after.last().record.headers == info.headers,
        after.last().record.error_category is None,
        after.last().record.error_msg is None,
        after.last().record.error_detail is None,
        !after.last().record.is_likely_local_issue,
{
    let before = rows + new_rows(seq![placeholder], created);
    let batch = seq![done];
    assert(batch.drop_last() =~= Seq::<MonitorRecord>::empty());
    assert forall|k: int| 0 <= k < rows.len() implies after[k] == rows[k] by {
        assert(before[k] == rows[k]);
        assert(batch.last() == done);
        assert(last_with_id(batch.drop_last(), before[k].record.id) is None);
        assert(last_with_id(batch, before[k].record.id) is None);
    }
    assert(before[rows.len() as int] == StoredRow { record: placeholder, created_at: created, updated_at: created });
    assert(last_with_id(batch, before[rows.len() as int].record.id) == Some(0int));
    assert(after.take(rows.len() as int) =~= rows);
}

} // verus!
