//! Discovery of new record ids and the ledger that remembers every id seen.
use vstd::prelude::*;
use vstd::hash_set::StringHashSet;
use crate::json::{is_json, json_text, json_view, parse_json, text_at, text_member, JsonView};

verus! {

/// The set of texts that a sequence of strings holds.
pub open spec fn ids_of(v: Seq<String>) -> Set<Seq<char>> {
    Set::new(|x: Seq<char>| exists|k: int| 0 <= k < v.len() && #[trigger] v[k]@ == x)
}

/// No text occurs twice in `v`.
pub open spec fn distinct(v: Seq<String>) -> bool {
    forall|i: int, j: int| 0 <= i < j < v.len() ==> #[trigger] v[i]@ != #[trigger] v[j]@
}

/// The texts of `fetched` that `known` lacks, each once, in order of first
/// occurrence.
pub open spec fn fresh_ids(fetched: Seq<Seq<char>>, known: Set<Seq<char>>) -> Seq<Seq<char>>
    decreases fetched.len(),
{
    if fetched.len() == 0 {
        Seq::empty()
    } else {
        let p = fresh_ids(fetched.drop_last(), known);
        let x = fetched.last();
        if known.contains(x) || p.contains(x) {
            p
        } else {
            p.push(x)
        }
    }
}

/// The ids of `fetched` that `known` lacks, each once, in order of first
/// occurrence.
pub fn new_ids(fetched: &Vec<String>, known: &Vec<String>) -> (r: Vec<String>)
    ensures
        ids_of(r@) == ids_of(fetched@).difference(ids_of(known@)),
        distinct(r@),
        views(r@) == fresh_ids(views(fetched@), ids_of(known@)),
{
    let mut known_set = StringHashSet::new();
    let mut i: usize = 0;
    while i < known.len()
        invariant
            i <= known.len(),
            forall|x: Seq<char>|
                known_set@.contains(x) <==> exists|k: int| 0 <= k < i && #[trigger] known@[k]@ == x,
        decreases known.len() - i,
    {
        known_set.insert(known[i].clone());
        i += 1;
    }
    assert(known_set@ =~= ids_of(known@));
    let mut seen = StringHashSet::new();
    let mut r: Vec<String> = Vec::new();
    let mut j: usize = 0;
    while j < fetched.len()
        invariant
            j <= fetched.len(),
            known_set@ == ids_of(known@),
            seen@ =~= ids_of(r@),
            distinct(r@),
            views(r@) == fresh_ids(views(fetched@.take(j as int)), ids_of(known@)),
            forall|x: Seq<char>|
                seen@.contains(x) <==> (exists|k: int| 0 <= k < j && #[trigger] fetched@[k]@ == x)
                    && !known_set@.contains(x),
        decreases fetched.len() - j,
    {
        let id = &fetched[j];
        proof {
            assert(views(fetched@.take(j + 1)) =~= views(fetched@.take(j as int)).push(id@));
            assert(views(fetched@.take(j + 1)).drop_last() =~= views(fetched@.take(j as int)));
            assert(views(r@).contains(id@) <==> ids_of(r@).contains(id@)) by {
                if views(r@).contains(id@) {
                    let k = choose|k: int| 0 <= k < views(r@).len() && views(r@)[k] == id@;
                    assert(r@[k]@ == id@);
                }
                if ids_of(r@).contains(id@) {
                    let k = choose|k: int| 0 <= k < r@.len() && #[trigger] r@[k]@ == id@;
                    assert(views(r@)[k] == id@);
                }
            }
        }
        if !known_set.contains(id.as_str()) && !seen.contains(id.as_str()) {
            let ghost before = r@;
            seen.insert(id.clone());
            r.push(id.clone());
            proof {
                assert(views(r@) =~= views(before).push(id@));
                assert(r@ == before.push(r@.last()));
                assert(r@.last()@ == id@);
                assert forall|x: Seq<char>| ids_of(r@).contains(x) <==> seen@.contains(x) by {
                    if seen@.contains(x) && x != id@ {
                        assert(ids_of(before).contains(x));
                        let k = choose|k: int| 0 <= k < before.len() && #[trigger] before[k]@ == x;
                        assert(r@[k]@ == x);
                    }
                    if seen@.contains(x) && x == id@ {
                        assert(r@[r@.len() - 1]@ == x);
                    }
                    if ids_of(r@).contains(x) {
                        let k = choose|k: int| 0 <= k < r@.len() && #[trigger] r@[k]@ == x;
                        if k < r@.len() - 1 {
                            assert(before[k] == r@[k]);
                            assert(ids_of(before).contains(x));
                        }
                    }
                }
                assert forall|a: int, b: int| 0 <= a < b < r@.len() implies #[trigger] r@[a]@
                    != #[trigger] r@[b]@ by {
                    if b == r@.len() - 1 {
                        assert(before[a] == r@[a]);
                        assert(ids_of(before).contains(before[a]@));
                    } else {
                        assert(before[a] == r@[a]);
                        assert(before[b] == r@[b]);
                    }
                }
            }
        }
        proof {
            assert forall|x: Seq<char>|
                seen@.contains(x) <== (exists|k: int| 0 <= k < j + 1 && #[trigger] fetched@[k]@ == x)
                    && !known_set@.contains(x) by {
                if (exists|k: int| 0 <= k < j + 1 && #[trigger] fetched@[k]@ == x)
                    && !known_set@.contains(x) {
                    let k = choose|k: int| 0 <= k < j + 1 && #[trigger] fetched@[k]@ == x;
                    if k < j {
                    }
                }
            }
        }
        j += 1;
    }
    assert(seen@ =~= ids_of(fetched@).difference(ids_of(known@)));
    assert(fetched@.take(fetched@.len() as int) =~= fetched@);
    r
}

/// Workflow state of one discovered id.
#[derive(Clone, Copy, Debug, PartialEq, Eq, Structural)]
pub enum IdStatus {
    /// Discovered, details not yet stored.
    Pending,
    /// Details stored in the document store.
    Processed,
}

/// Dedup and workflow state of one provider and external id.
#[derive(Debug)]
pub struct ProcessedIdRecord {
    pub center_name: String,
    pub dataset_id: String,
    pub status: IdStatus,
    pub created_at: i64,
    pub updated_at: i64,
}

/// What a ledger record holds, as mathematical values.
pub struct IdRecordView {
    pub provider: Seq<char>,
    pub id: Seq<char>,
    pub status: IdStatus,
    pub created_at: i64,
    pub updated_at: i64,
}

impl View for ProcessedIdRecord {
    type V = IdRecordView;

    open spec fn view(&self) -> IdRecordView {
        IdRecordView {
            provider: self.center_name@,
            id: self.dataset_id@,
            status: self.status,
            created_at: self.created_at,
            updated_at: self.updated_at,
        }
    }
}

/// Every id recorded for `provider`, whatever its status.
pub open spec fn known_ids(l: Seq<IdRecordView>, provider: Seq<char>) -> Set<Seq<char>> {
    Set::new(
        |x: Seq<char>|
            exists|k: int| 0 <= k < l.len() && #[trigger] l[k].provider == provider && l[k].id == x,
    )
}

/// The ids recorded for `provider` that are still pending.
pub open spec fn pending_ids(l: Seq<IdRecordView>, provider: Seq<char>) -> Set<Seq<char>> {
    Set::new(
        |x: Seq<char>|
            exists|k: int|
                0 <= k < l.len() && #[trigger] l[k].provider == provider && l[k].id == x && l[k].status
                    == IdStatus::Pending,
    )
}

/// No provider and id pair is recorded twice.
pub open spec fn unique_records(l: Seq<IdRecordView>) -> bool {
    forall|i: int, j: int|
        0 <= i < j < l.len() ==> !(#[trigger] l[i].provider == #[trigger] l[j].provider && l[i].id
            == l[j].id)
}

/// One discovery for `provider` over the fetched ids `fetched`, at second
/// `now`, took the ledger from `before` to `after` and reported `count`:
/// exactly the fetched ids that were not yet known are appended, once each,
/// as pending records of that provider, and nothing else changes.
pub open spec fn discovery_step(
    before: Seq<IdRecordView>,
    after: Seq<IdRecordView>,
    provider: Seq<char>,
    fetched: Set<Seq<char>>,
    now: i64,
    count: nat,
) -> bool {
    &&& after.len() == before.len() + count
    &&& after.subrange(0, before.len() as int) == before
    &&& forall|k: int|
        before.len() <= k < after.len() ==> (#[trigger] after[k]).provider == provider
            && after[k].status == IdStatus::Pending && after[k].created_at == now
            && after[k].updated_at == now
    &&& Set::new(
        |x: Seq<char>| exists|k: int| before.len() <= k < after.len() && #[trigger] after[k].id == x,
    ) == fetched.difference(known_ids(before, provider))
    &&& forall|i: int, j: int|
        before.len() <= i < j < after.len() ==> #[trigger] after[i].id != #[trigger] after[j].id
}

/// `after` is `before` with the records of `provider` and `id` marked
/// processed at second `now`; every other record is unchanged.
pub open spec fn processed_step(
    before: Seq<IdRecordView>,
    after: Seq<IdRecordView>,
    provider: Seq<char>,
    id: Seq<char>,
    now: i64,
) -> bool {
    &&& after.len() == before.len()
    &&& forall|k: int|
        0 <= k < before.len() ==> {
            let o = before[k];
            let n = #[trigger] after[k];
            &&& n.provider == o.provider
            &&& n.id == o.id
            &&& n.created_at == o.created_at
            &&& if o.provider == provider && o.id == id {
                n.status == IdStatus::Processed && n.updated_at == now
            } else {
                n.status == o.status && n.updated_at == o.updated_at
            }
        }
}

/// The dedup and workflow state of every id ever discovered.
pub struct IdLedger {
    records: Vec<ProcessedIdRecord>,
}

impl View for IdLedger {
    type V = Seq<IdRecordView>;

    closed spec fn view(&self) -> Seq<IdRecordView> {
        self.records@.map_values(|r: ProcessedIdRecord| r@)
    }
}

impl IdLedger {
    /// An empty ledger.
    pub fn new() -> (r: IdLedger)
        ensures
            r@ == Seq::<IdRecordView>::empty(),
            unique_records(r@),
    {
        let r = IdLedger { records: Vec::new() };
        assert(r@ =~= Seq::<IdRecordView>::empty());
        r
    }

    /// Number of records.
    pub fn len(&self) -> (r: usize)
        ensures
            r == self@.len(),
    {
        self.records.len()
    }

    /// The record at `i`: provider, id and status.
    pub fn record(&self, i: usize) -> (r: (String, String, IdStatus))
        requires
            i < self@.len(),
        ensures
            r.0@ == self@[i as int].provider,
            r.1@ == self@[i as int].id,
            r.2 == self@[i as int].status,
    {
        let rec = &self.records[i];
        (rec.center_name.clone(), rec.dataset_id.clone(), rec.status)
    }

    /// Every id recorded for `provider`, whatever its status.
    pub fn known_for(&self, provider: &str) -> (r: Vec<String>)
        ensures
            ids_of(r@) == known_ids(self@, provider@),
    {
        let p = String::from_str(provider);
        let mut r: Vec<String> = Vec::new();
        let mut i: usize = 0;
        while i < self.records.len()
            invariant
                i <= self.records.len(),
                p@ == provider@,
                forall|x: Seq<char>|
                    ids_of(r@).contains(x) <==> exists|k: int|
                        0 <= k < i && #[trigger] self@[k].provider == provider@ && self@[k].id == x,
            decreases self.records.len() - i,
        {
            let ghost before = r@;
            let take = self.records[i].center_name == p;
            if take {
                r.push(self.records[i].dataset_id.clone());
            }
            proof {
                assert forall|x: Seq<char>|
                    ids_of(r@).contains(x) <==> exists|k: int|
                        0 <= k < i + 1 && #[trigger] self@[k].provider == provider@ && self@[k].id
                            == x by {
                    assert(self@[i as int] == self.records@[i as int]@);
                    if ids_of(r@).contains(x) {
                        let k = choose|k: int| 0 <= k < r@.len() && #[trigger] r@[k]@ == x;
                        if k < before.len() {
                            assert(r@[k] == before[k]);
                            assert(ids_of(before).contains(x));
                            let k2 = choose|k2: int|
                                0 <= k2 < i && #[trigger] self@[k2].provider == provider@
                                    && self@[k2].id == x;
                            assert(self@[k2].provider == provider@);
                        } else {
                            assert(take);
                            assert(self@[i as int].id == x);
                            assert(self@[i as int].provider == provider@);
                        }
                    }
                    if exists|k: int|
                        0 <= k < i + 1 && #[trigger] self@[k].provider == provider@ && self@[k].id
                            == x {
                        let k = choose|k: int|
                            0 <= k < i + 1 && #[trigger] self@[k].provider == provider@
                                && self@[k].id == x;
                        if k < i {
                            assert(ids_of(before).contains(x));
                            let m = choose|m: int| 0 <= m < before.len() && #[trigger] before[m]@ == x;
                            assert(r@[m] == before[m]);
                        } else {
                            assert(r@[r@.len() - 1]@ == x);
                        }
                    }
                }
            }
            i += 1;
        }
        assert(ids_of(r@) =~= known_ids(self@, provider@));
        r
    }

    /// The ids of `provider` that are still pending.
    pub fn pending_for(&self, provider: &str) -> (r: Vec<String>)
        ensures
            ids_of(r@) == pending_ids(self@, provider@),
    {
        let p = String::from_str(provider);
        let mut r: Vec<String> = Vec::new();
        let mut i: usize = 0;
        while i < self.records.len()
            invariant
                i <= self.records.len(),
                p@ == provider@,
                forall|x: Seq<char>|
                    ids_of(r@).contains(x) <==> exists|k: int|
                        0 <= k < i && #[trigger] self@[k].provider == provider@ && self@[k].id == x
                            && self@[k].status == IdStatus::Pending,
            decreases self.records.len() - i,
        {
            let ghost before = r@;
            let take = self.records[i].center_name == p && self.records[i].status
                == IdStatus::Pending;
            if take {
                r.push(self.records[i].dataset_id.clone());
            }
            proof {
                assert forall|x: Seq<char>|
                    ids_of(r@).contains(x) <==> exists|k: int|
                        0 <= k < i + 1 && #[trigger] self@[k].provider == provider@ && self@[k].id
                            == x && self@[k].status == IdStatus::Pending by {
                    assert(self@[i as int] == self.records@[i as int]@);
                    if ids_of(r@).contains(x) {
                        let k = choose|k: int| 0 <= k < r@.len() && #[trigger] r@[k]@ == x;
                        if k < before.len() {
                            assert(r@[k] == before[k]);
                            assert(ids_of(before).contains(x));
                            let k2 = choose|k2: int|
                                0 <= k2 < i && #[trigger] self@[k2].provider == provider@
                                    && self@[k2].id == x && self@[k2].status == IdStatus::Pending;
                            assert(self@[k2].provider == provider@);
                        } else {
                            assert(take);
                            assert(self@[i as int].id == x);
                            assert(self@[i as int].provider == provider@);
                        }
                    }
                    if exists|k: int|
                        0 <= k < i + 1 && #[trigger] self@[k].provider == provider@ && self@[k].id
                            == x && self@[k].status == IdStatus::Pending {
                        let k = choose|k: int|
                            0 <= k < i + 1 && #[trigger] self@[k].provider == provider@
                                && self@[k].id == x && self@[k].status == IdStatus::Pending;
                        if k < i {
                            assert(ids_of(before).contains(x));
                            let m = choose|m: int| 0 <= m < before.len() && #[trigger] before[m]@ == x;
                            assert(r@[m] == before[m]);
                        } else {
                            assert(r@[r@.len() - 1]@ == x);
                        }
                    }
                }
            }
            i += 1;
        }
        assert(ids_of(r@) =~= pending_ids(self@, provider@));
        r
    }

    /// Records as pending, for `provider`, every id of `fetched` that the
    /// ledger does not know for that provider yet, whatever its status, and
    /// returns how many were recorded.
    pub fn discover(&mut self, provider: &str, fetched: &Vec<String>, now: i64) -> (r: usize)
        requires
            unique_records(old(self)@),
        ensures
            discovery_step(old(self)@, final(self)@, provider@, ids_of(fetched@), now, r as nat),
            unique_records(final(self)@),
            final(self)@.subrange(old(self)@.len() as int, final(self)@.len() as int).map_values(
                |rec: IdRecordView| rec.id,
            ) == fresh_ids(views(fetched@), known_ids(old(self)@, provider@)),
    {
        let known = self.known_for(provider);
        let fresh = new_ids(fetched, &known);
        let ghost start = self@;
        let mut i: usize = 0;
        while i < fresh.len()
            invariant
                i <= fresh.len(),
                self@.len() == start.len() + i,
                self@.subrange(0, start.len() as int) == start,
                unique_records(start),
                distinct(fresh@),
                ids_of(fresh@) == ids_of(fetched@).difference(known_ids(start, provider@)),
                forall|k: int|
                    start.len() <= k < self@.len() ==> (#[trigger] self@[k]).provider == provider@
                        && self@[k].status == IdStatus::Pending && self@[k].created_at == now
                        && self@[k].updated_at == now && self@[k].id == fresh@[k - start.len()]@,
                unique_records(self@),
            decreases fresh.len() - i,
        {
            let ghost before = self@;
            let rec = ProcessedIdRecord {
                center_name: String::from_str(provider),
                dataset_id: fresh[i].clone(),
                status: IdStatus::Pending,
                created_at: now,
                updated_at: now,
            };
            self.records.push(rec);
            proof {
                assert(self@ =~= before.push(rec@));
                assert(self@.subrange(0, start.len() as int) =~= before.subrange(
                    0,
                    start.len() as int,
                ));
                assert forall|a: int, b: int| 0 <= a < b < self@.len() implies !(
                #[trigger] self@[a].provider == #[trigger] self@[b].provider && self@[a].id
                    == self@[b].id) by {
                    if b == self@.len() - 1 && self@[a].provider == provider@ {
                        if a < start.len() {
                            assert(start[a] == self@[a]);
                            if self@[a].id == fresh@[i as int]@ {
                                assert(known_ids(start, provider@).contains(self@[a].id));
                                assert(ids_of(fresh@).contains(fresh@[i as int]@));
                            }
                        } else {
                            assert(self@[a].id == fresh@[a - start.len()]@);
                        }
                    }
                }
            }
            i += 1;
        }
        proof {
            let added = Set::new(
                |x: Seq<char>|
                    exists|k: int| start.len() <= k < self@.len() && #[trigger] self@[k].id == x,
            );
            assert forall|x: Seq<char>| added.contains(x) <==> ids_of(fresh@).contains(x) by {
                if added.contains(x) {
                    let k = choose|k: int|
                        start.len() <= k < self@.len() && #[trigger] self@[k].id == x;
                    assert(fresh@[k - start.len()]@ == x);
                }
                if ids_of(fresh@).contains(x) {
                    let m = choose|m: int| 0 <= m < fresh@.len() && #[trigger] fresh@[m]@ == x;
                    assert(self@[m + start.len()].id == x);
                }
            }
            assert(added =~= ids_of(fetched@).difference(known_ids(start, provider@)));
            assert forall|a: int, b: int|
                start.len() <= a < b < self@.len() implies #[trigger] self@[a].id
                != #[trigger] self@[b].id by {
                assert(fresh@[a - start.len()]@ != fresh@[b - start.len()]@);
            }
            assert(self@.subrange(start.len() as int, self@.len() as int).map_values(
                |rec: IdRecordView| rec.id,
            ) =~= views(fresh@));
        }
        fresh.len()
    }

    /// Marks `id` of `provider` as processed at second `now`. Records of
    /// other ids and providers are left as they are; a processed record never
    /// becomes pending again.
    pub fn mark_processed(&mut self, provider: &str, id: &str, now: i64)
        ensures
            processed_step(old(self)@, final(self)@, provider@, id@, now),
            unique_records(old(self)@) ==> unique_records(final(self)@),
    {
        let p = String::from_str(provider);
        let d = String::from_str(id);
        let ghost start = self@;
        let mut i: usize = 0;
        while i < self.records.len()
            invariant
                i <= self.records.len(),
                self@.len() == start.len(),
                p@ == provider@,
                d@ == id@,
                forall|k: int|
                    0 <= k < start.len() ==> {
                        let o = start[k];
                        let n = #[trigger] self@[k];
                        &&& n.provider == o.provider
                        &&& n.id == o.id
                        &&& n.created_at == o.created_at
                        &&& if k < i && o.provider == provider@ && o.id == id@ {
                            n.status == IdStatus::Processed && n.updated_at == now
                        } else {
                            n.status == o.status && n.updated_at == o.updated_at
                        }
                    },
            decreases self.records.len() - i,
        {
            if self.records[i].center_name == p && self.records[i].dataset_id == d {
                let ghost before = self@;
                let rec = ProcessedIdRecord {
                    center_name: self.records[i].center_name.clone(),
                    dataset_id: self.records[i].dataset_id.clone(),
                    status: IdStatus::Processed,
                    created_at: self.records[i].created_at,
                    updated_at: now,
                };
                self.records.set(i, rec);
                assert(self@ =~= before.update(i as int, rec@));
            }
            i += 1;
        }
    }
}

/// Discovery persists exactly the fetched ids that were not known, and a
/// second discovery over the same fetched ids records nothing and leaves the
/// ledger as it was.
pub proof fn lemma_discovery_idempotent(
    l0: Seq<IdRecordView>,
    l1: Seq<IdRecordView>,
    l2: Seq<IdRecordView>,
    provider: Seq<char>,
    fetched: Set<Seq<char>>,
    t1: i64,
    t2: i64,
    n1: nat,
    n2: nat,
)
    requires
        discovery_step(l0, l1, provider, fetched, t1, n1),
        discovery_step(l1, l2, provider, fetched, t2, n2),
    ensures
        known_ids(l1, provider) == known_ids(l0, provider).union(fetched),
        pending_ids(l1, provider) == pending_ids(l0, provider).union(
            fetched.difference(known_ids(l0, provider)),
        ),
        n2 == 0,
        l2 == l1,
{
    lemma_step_known(l0, l1, provider, fetched, t1, n1);
    assert(fetched.difference(known_ids(l1, provider)) =~= Set::empty());
    if n2 > 0 {
        let k = l1.len() as int;
        assert(l2[k].id == l2[k].id);
        let added = Set::new(
            |x: Seq<char>| exists|j: int| l1.len() <= j < l2.len() && #[trigger] l2[j].id == x,
        );
        assert(added.contains(l2[k].id));
    }
    assert(l2 =~= l2.subrange(0, l1.len() as int));
    assert forall|x: Seq<char>|
        pending_ids(l1, provider).contains(x) <==> pending_ids(l0, provider).union(
            fetched.difference(known_ids(l0, provider)),
        ).contains(x) by {
        let added = Set::new(
            |y: Seq<char>| exists|j: int| l0.len() <= j < l1.len() && #[trigger] l1[j].id == y,
        );
        if pending_ids(l1, provider).contains(x) {
            let k = choose|k: int|
                0 <= k < l1.len() && #[trigger] l1[k].provider == provider && l1[k].id == x
                    && l1[k].status == IdStatus::Pending;
            if k < l0.len() {
                assert(l0[k] == l1.subrange(0, l0.len() as int)[k]);
                assert(l0[k].provider == provider);
            } else {
                assert(added.contains(x));
            }
        }
        if pending_ids(l0, provider).contains(x) {
            let k = choose|k: int|
                0 <= k < l0.len() && #[trigger] l0[k].provider == provider && l0[k].id == x
                    && l0[k].status == IdStatus::Pending;
            assert(l0[k] == l1.subrange(0, l0.len() as int)[k]);
            assert(l1[k].provider == provider);
        }
        if fetched.difference(known_ids(l0, provider)).contains(x) {
            assert(added.contains(x));
            let j = choose|j: int| l0.len() <= j < l1.len() && #[trigger] l1[j].id == x;
            assert(l1[j].provider == provider);
        }
    }
    assert(pending_ids(l1, provider) =~= pending_ids(l0, provider).union(
        fetched.difference(known_ids(l0, provider)),
    ));
}

proof fn lemma_step_known(
    l0: Seq<IdRecordView>,
    l1: Seq<IdRecordView>,
    provider: Seq<char>,
    fetched: Set<Seq<char>>,
    t: i64,
    n: nat,
)
    requires
        discovery_step(l0, l1, provider, fetched, t, n),
    ensures
        known_ids(l1, provider) == known_ids(l0, provider).union(fetched),
{
    let added = Set::new(
        |y: Seq<char>| exists|j: int| l0.len() <= j < l1.len() && #[trigger] l1[j].id == y,
    );
    assert forall|x: Seq<char>|
        known_ids(l1, provider).contains(x) <==> known_ids(l0, provider).union(fetched).contains(
            x,
        ) by {
        if known_ids(l1, provider).contains(x) {
            let k = choose|k: int|
                0 <= k < l1.len() && #[trigger] l1[k].provider == provider && l1[k].id == x;
            if k < l0.len() {
                assert(l0[k] == l1.subrange(0, l0.len() as int)[k]);
                assert(l0[k].provider == provider);
            } else {
                assert(added.contains(x));
            }
        }
        if known_ids(l0, provider).contains(x) {
            let k = choose|k: int|
                0 <= k < l0.len() && #[trigger] l0[k].provider == provider && l0[k].id == x;
            assert(l0[k] == l1.subrange(0, l0.len() as int)[k]);
            assert(l1[k].provider == provider);
        }
        if fetched.contains(x) && !known_ids(l0, provider).contains(x) {
            assert(fetched.difference(known_ids(l0, provider)).contains(x));
            assert(added.contains(x));
            let j = choose|j: int| l0.len() <= j < l1.len() && #[trigger] l1[j].id == x;
            assert(l1[j].provider == provider);
        }
    }
    assert(known_ids(l1, provider) =~= known_ids(l0, provider).union(fetched));
}

/// Why a provider's id list could not be had.
#[derive(Clone, Debug)]
pub enum DiscoveryError {
    /// The list endpoint refused the token (401 or 403); the body is kept.
    Unauthorized(u16, String),
    /// The list endpoint redirected; the body is kept for diagnosis.
    Redirected(u16, String),
    /// The list endpoint answered with another status outside 2xx; the body is kept.
    Status(u16, String),
    /// The body is not JSON; it is kept.
    NotJson(String),
    /// The body is JSON but not an array; it is kept.
    NotArray(String),
}

/// The texts of a sequence of strings.
pub open spec fn views(v: Seq<String>) -> Seq<Seq<char>> {
    v.map_values(|s: String| s@)
}

/// The `id` texts of the elements of a list answer, in order; elements
/// without a string `id` are skipped.
pub open spec fn list_ids(items: Seq<JsonView>) -> Seq<Seq<char>>
    decreases items.len(),
{
    if items.len() == 0 {
        Seq::empty()
    } else {
        let p = list_ids(items.drop_last());
        match text_at(items.last(), "id"@) {
            Some(s) => p.push(s),
            None => p,
        }
    }
}

/// Reads a list endpoint's answer: a JSON array of objects, each with an
/// `id` text. Entries without one are skipped. A status outside 2xx, a
/// redirect included, fails with the body kept for diagnosis.
pub fn parse_list_response(status: u16, body: &str) -> (r: Result<Vec<String>, DiscoveryError>)
    ensures
        (status == 401 || status == 403) ==> (match r {
            Err(DiscoveryError::Unauthorized(s, b)) => s == status && b@ == body@,
            _ => false,
        }),
        (300 <= status <= 399) ==> (match r {
            Err(DiscoveryError::Redirected(s, b)) => s == status && b@ == body@,
            _ => false,
        }),
        (status != 401 && status != 403 && !(300 <= status <= 399) && !(200 <= status <= 299))
            ==> (match r {
            Err(DiscoveryError::Status(s, b)) => s == status && b@ == body@,
            _ => false,
        }),
        (200 <= status <= 299) ==> (match r {
            Ok(ids) => is_json(body@) && json_text(body@) is Array && views(ids@) == list_ids(
                json_text(body@)->Array_0,
            ),
            Err(DiscoveryError::NotJson(b)) => !is_json(body@) && b@ == body@,
            Err(DiscoveryError::NotArray(b)) => is_json(body@) && !(json_text(body@) is Array)
                && b@ == body@,
            _ => false,
        }),
{
    if status == 401 || status == 403 {
        return Err(DiscoveryError::Unauthorized(status, String::from_str(body)));
    }
    if 300 <= status && status <= 399 {
        return Err(DiscoveryError::Redirected(status, String::from_str(body)));
    }
    if !(200 <= status && status <= 299) {
        return Err(DiscoveryError::Status(status, String::from_str(body)));
    }
    let v = match parse_json(body) {
        Ok(v) => v,
        Err(_) => return Err(DiscoveryError::NotJson(String::from_str(body))),
    };
    let items = match v.as_array() {
        Some(a) => a,
        None => return Err(DiscoveryError::NotArray(String::from_str(body))),
    };
    let ghost model = json_text(body@)->Array_0;
    let mut ids: Vec<String> = Vec::new();
    let mut i: usize = 0;
    while i < items.len()
        invariant
            i <= items.len(),
            items@.len() == model.len(),
            forall|k: int| 0 <= k < items@.len() ==> json_view(#[trigger] items@[k]) == model[k],
            views(ids@) == list_ids(model.take(i as int)),
        decreases items.len() - i,
    {
        proof {
            assert(model.take(i + 1).drop_last() =~= model.take(i as int));
            assert(model.take(i + 1).last() == model[i as int]);
        }
        let ghost before = ids@;
        match text_member(&items[i], "id") {
            Some(id) => {
                ids.push(id);
                assert(views(ids@) =~= views(before).push(ids@.last()@));
            },
            None => {},
        }
        i += 1;
    }
    assert(model.take(model.len() as int) =~= model);
    Ok(ids)
}

} // verus!
