//! Health records: the placeholder written before a probe, the outcome of a
//! probe, and the aggregate counts of a run.
use vstd::prelude::*;
use crate::category::{classify_status, local_issue, status_category, ErrorCategory};
use crate::dataset::{date_of, name_of, string_of, url_of, Dataset, DocumentStore};
use crate::table::{key_bound, lemma_key_bound, HealthTable};

verus! {

/// One observation of one dataset's URL.
#[derive(Debug)]
pub struct MonitorRecord {
    /// Synthetic key of the row; the later update is matched on it.
    pub id: u64,
    /// The dataset's external id.
    pub raw_id: Option<String>,
    pub url: String,
    pub name: Option<String>,
    pub center_name: String,
    pub date_published: Option<String>,
    /// Second at which the observation was made.
    pub check_time: i64,
    pub status_code: Option<i32>,
    pub status_text: Option<String>,
    pub error_category: Option<ErrorCategory>,
    pub error_msg: Option<String>,
    pub error_detail: Option<String>,
    pub response_time_ms: Option<u64>,
    pub is_likely_local_issue: bool,
    pub headers: Option<String>,
}

fn copy_text(s: &Option<String>) -> (r: Option<String>)
    ensures
        r == *s,
{
    match s {
        Some(t) => Some(t.clone()),
        None => None,
    }
}

impl Clone for MonitorRecord {
    fn clone(&self) -> (r: Self)
        ensures
            r == *self,
    {
        MonitorRecord {
            id: self.id,
            raw_id: copy_text(&self.raw_id),
            url: self.url.clone(),
            name: copy_text(&self.name),
            center_name: self.center_name.clone(),
            date_published: copy_text(&self.date_published),
            check_time: self.check_time,
            status_code: self.status_code,
            status_text: copy_text(&self.status_text),
            error_category: self.error_category,
            error_msg: copy_text(&self.error_msg),
            error_detail: copy_text(&self.error_detail),
            response_time_ms: self.response_time_ms,
            is_likely_local_issue: self.is_likely_local_issue,
            headers: copy_text(&self.headers),
        }
    }
}

/// A response whose status is no failure.
#[derive(Debug)]
pub struct ResponseInfo {
    pub status_code: i32,
    pub status_text: String,
    pub headers: Option<String>,
}

/// A classified failure of a probe.
#[derive(Debug)]
pub struct CheckError {
    pub category: ErrorCategory,
    pub message: String,
    pub detail: String,
    pub status_code: Option<i32>,
}

/// One observation as reported by the statistics service.
#[derive(Debug)]
pub struct HealthCheck {
    pub check_time: String,
    pub status_code: Option<i32>,
    pub error_category: Option<String>,
    pub response_time_ms: Option<i64>,
    pub is_likely_local_issue: bool,
}

/// Failures of one category, as reported by the statistics service.
#[derive(Debug)]
pub struct ProblemTypeStats {
    pub error_category: Option<String>,
    pub count: i32,
    pub local_issues: i32,
    pub remote_issues: i32,
}

/// The fields that identify an observation, which a probe never changes.
pub open spec fn same_identity(a: MonitorRecord, b: MonitorRecord) -> bool {
    &&& a.id == b.id
    &&& a.raw_id == b.raw_id
    &&& a.url == b.url
    &&& a.name == b.name
    &&& a.center_name == b.center_name
    &&& a.date_published == b.date_published
}

/// An observation whose result fields are all empty.
pub open spec fn is_placeholder(r: MonitorRecord) -> bool {
    &&& r.status_code is None
    &&& r.status_text is None
    &&& r.error_category is None
    &&& r.error_msg is None
    &&& r.error_detail is None
    &&& r.response_time_ms is None
    &&& !r.is_likely_local_issue
    &&& r.headers is None
}

/// `rec` is the placeholder row of document `ds`, keyed `id`, made at `now`.
pub open spec fn record_of(ds: Dataset, id: u64, now: i64, rec: MonitorRecord) -> bool {
    &&& is_placeholder(rec)
    &&& rec.id == id
    &&& rec.check_time == now
    &&& Some(rec.url@) == url_of(ds.url)
    &&& rec.name is Some && rec.name->0@ == name_of(ds.name)
    &&& rec.date_published is Some && rec.date_published->0@ == date_of(ds.date_published)
    &&& rec.raw_id == ds.casdc_id
    &&& rec.center_name@ == match ds.center_name {
        Some(c) => c@,
        None => "Unknown"@,
    }
}

/// Builds the placeholder row for a document, with check time `now`, or
/// `None` when the document has no URL. The row takes the fresh key
/// `run_index` places past the table's key bound: it is above every key in
/// the table, and rows of one run built with different `run_index` get
/// different keys.
pub fn dataset_to_record(ds: &Dataset, table: &HealthTable, run_index: u64, now: i64) -> (r: Option<
    MonitorRecord,
>)
    requires
        table.wf(),
        key_bound(table@) + run_index <= u64::MAX,
    ensures
        r is None <==> url_of(ds.url) is None,
        match r {
            Some(rec) => {
                &&& record_of(*ds, (key_bound(table@) + run_index) as u64, now, rec)
                &&& forall|k: int| 0 <= k < table@.len() ==> (#[trigger] table@[k]).record.id < rec.id
            },
            None => true,
        },
{
    proof {
        lemma_key_bound(table@);
    }
    let id = match table.next_key() {
        Some(first) => first + run_index,
        None => return None,
    };
    let url = match ds.extract_url() {
        Some(u) => u,
        None => return None,
    };
    let center_name = match &ds.center_name {
        Some(c) => c.clone(),
        None => String::from_str("Unknown"),
    };
    let raw_id = match &ds.casdc_id {
        Some(c) => Some(c.clone()),
        None => None,
    };
    Some(
        MonitorRecord {
            id,
            raw_id,
            url,
            name: Some(ds.extract_name()),
            center_name,
            date_published: Some(ds.extract_date_published()),
            check_time: now,
            status_code: None,
            status_text: None,
            error_category: None,
            error_msg: None,
            error_detail: None,
            response_time_ms: None,
            is_likely_local_issue: false,
            headers: None,
        },
    )
}

/// Decimal digits of a number, most significant first.
pub open spec fn decimal_text(n: nat) -> Seq<char>
    decreases n,
{
    if n < 10 {
        seq![digit_char(n)]
    } else {
        decimal_text(n / 10).push(digit_char(n % 10))
    }
}

/// The character of a decimal digit.
pub open spec fn digit_char(d: nat) -> char {
    if d == 0 {
        '0'
    } else if d == 1 {
        '1'
    } else if d == 2 {
        '2'
    } else if d == 3 {
        '3'
    } else if d == 4 {
        '4'
    } else if d == 5 {
        '5'
    } else if d == 6 {
        '6'
    } else if d == 7 {
        '7'
    } else if d == 8 {
        '8'
    } else {
        '9'
    }
}

fn digit_of(d: u16) -> (c: char)
    requires
        d < 10,
    ensures
        c == digit_char(d as nat),
{
    if d == 0 {
        '0'
    } else if d == 1 {
        '1'
    } else if d == 2 {
        '2'
    } else if d == 3 {
        '3'
    } else if d == 4 {
        '4'
    } else if d == 5 {
        '5'
    } else if d == 6 {
        '6'
    } else if d == 7 {
        '7'
    } else if d == 8 {
        '8'
    } else {
        '9'
    }
}

fn decimal_chars(n: u16) -> (r: Vec<char>)
    ensures
        r@ == decimal_text(n as nat),
    decreases n,
{
    if n < 10 {
        let mut v: Vec<char> = Vec::new();
        v.push(digit_of(n));
        assert(v@ =~= decimal_text(n as nat));
        v
    } else {
        let mut v = decimal_chars(n / 10);
        v.push(digit_of(n % 10));
        v
    }
}

/// A number in decimal, without sign or padding.
fn decimal(n: u16) -> (r: String)
    ensures
        r@ == decimal_text(n as nat),
{
    string_of(&decimal_chars(n))
}

/// The status text of a response: the canonical reason phrase, or "Unknown".
pub open spec fn status_text_of(reason: Option<Seq<char>>) -> Seq<char> {
    match reason {
        Some(t) => t,
        None => "Unknown"@,
    }
}

/// The message recorded for a failing status.
pub open spec fn status_message(c: ErrorCategory, code: u16, text: Seq<char>) -> Seq<char> {
    let prefix = if c == ErrorCategory::ServerError {
        "Server error: "@
    } else {
        "Client error: "@
    };
    prefix + decimal_text(code as nat) + " "@ + text
}

/// The detail recorded for a failing status.
pub open spec fn status_detail(code: u16, text: Seq<char>) -> Seq<char> {
    "Status code: "@ + decimal_text(code as nat) + ", reason: "@ + text
}

/// The outcome of a probe that got a response with status `code`, canonical
/// reason phrase `reason` and flattened headers `headers`: a 5xx or 4xx
/// status is a classified failure, anything else is a success.
pub fn response_outcome(code: u16, reason: Option<&str>, headers: String) -> (r: Result<
    ResponseInfo,
    CheckError,
>)
    ensures
        match r {
            Ok(info) => status_category(code) is None && info.status_code == code as i32
                && info.status_text@ == status_text_of(
                match reason {
                    Some(t) => Some(t@),
                    None => None,
                },
            ) && info.headers == Some(headers),
            Err(e) => status_category(code) == Some(e.category) && e.status_code == Some(
                code as i32,
            ) && e.message@ == status_message(
                e.category,
                code,
                status_text_of(
                    match reason {
                        Some(t) => Some(t@),
                        None => None,
                    },
                ),
            ) && e.detail@ == status_detail(
                code,
                status_text_of(
                    match reason {
                        Some(t) => Some(t@),
                        None => None,
                    },
                ),
            ),
        },
{
    let text = match reason {
        Some(t) => String::from_str(t),
        None => String::from_str("Unknown"),
    };
    match classify_status(code) {
        None => Ok(ResponseInfo { status_code: code as i32, status_text: text, headers: Some(headers) }),
        Some(category) => {
            let digits = decimal(code);
            let prefix = if category == ErrorCategory::ServerError {
                String::from_str("Server error: ")
            } else {
                String::from_str("Client error: ")
            };
            let message = prefix.concat(digits.as_str()).concat(" ").concat(text.as_str());
            let detail = String::from_str("Status code: ").concat(digits.as_str()).concat(
                ", reason: ",
            ).concat(text.as_str());
            Err(CheckError { category, message, detail, status_code: Some(code as i32) })
        },
    }
}

/// `after` is `before` completed with a probe outcome, its duration and the
/// second at which it completed.
pub open spec fn completed(
    before: MonitorRecord,
    after: MonitorRecord,
    outcome: Result<ResponseInfo, CheckError>,
    elapsed_ms: u64,
    now: i64,
) -> bool {
    &&& same_identity(before, after)
    &&& after.response_time_ms == Some(elapsed_ms)
    &&& after.check_time == now
    &&& match outcome {
        Ok(info) => {
            &&& after.status_code == Some(info.status_code)
            &&& after.status_text == Some(info.status_text)
            &&& after.headers == info.headers
            &&& after.error_category is None
            &&& after.error_msg is None
            &&& after.error_detail is None
            &&& !after.is_likely_local_issue
        },
        Err(e) => {
            &&& after.status_code == e.status_code
            &&& after.status_text == before.status_text
            &&& after.headers == before.headers
            &&& after.error_category == Some(e.category)
            &&& after.error_msg == Some(e.message)
            &&& after.error_detail == Some(e.detail)
            &&& after.is_likely_local_issue == local_issue(e.category)
        },
    }
}

/// Records a probe outcome, its duration in milliseconds and the second at
/// which it completed.
pub fn apply_outcome(
    record: &mut MonitorRecord,
    outcome: Result<ResponseInfo, CheckError>,
    elapsed_ms: u64,
    now: i64,
)
    ensures
        completed(*old(record), *final(record), outcome, elapsed_ms, now),
{
    record.response_time_ms = Some(elapsed_ms);
    record.check_time = now;
    match outcome {
        Ok(info) => {
            record.status_code = Some(info.status_code);
            record.status_text = Some(info.status_text);
            record.headers = info.headers;
            record.error_category = None;
            record.error_msg = None;
            record.error_detail = None;
            record.is_likely_local_issue = false;
        },
        Err(e) => {
            record.status_code = e.status_code;
            record.is_likely_local_issue = e.category.is_likely_local_issue();
            record.error_category = Some(e.category);
            record.error_msg = Some(e.message);
            record.error_detail = Some(e.detail);
        },
    }
}

/// The stored documents that have a URL, in store order.
pub open spec fn url_docs(s: Seq<(Seq<char>, Dataset)>) -> Seq<Dataset> {
    s.map_values(|e: (Seq<char>, Dataset)| e.1).filter(|d: Dataset| url_of(d.url) is Some)
}

/// One placeholder row for every stored document that has a URL, in store
/// order, keyed with the fresh keys from the table's key bound on;
/// documents without a URL are left out.
pub fn placeholder_records(store: &DocumentStore, table: &HealthTable, now: i64) -> (r: Vec<MonitorRecord>)
    requires
        table.wf(),
        key_bound(table@) + store@.len() <= u64::MAX,
    ensures
        r@.len() == url_docs(store@).len(),
        forall|k: int|
            0 <= k < r@.len() ==> record_of(url_docs(store@)[k], (key_bound(table@) + k) as u64, now, #[trigger] r@[k]),
        forall|j: int, k: int|
            0 <= j < table@.len() && 0 <= k < r@.len() ==> (#[trigger] table@[j]).record.id
                < (#[trigger] r@[k]).id,
{
    proof {
        lemma_key_bound(table@);
    }
    let ghost first_id = key_bound(table@);
    let ghost docs = store@.map_values(|e: (Seq<char>, Dataset)| e.1);
    let ghost keep = |d: Dataset| url_of(d.url) is Some;
    let mut r: Vec<MonitorRecord> = Vec::new();
    let mut i: usize = 0;
    while i < store.len()
        invariant
            i <= store@.len(),
            docs == store@.map_values(|e: (Seq<char>, Dataset)| e.1),
            keep == (|d: Dataset| url_of(d.url) is Some),
            first_id == key_bound(table@),
            first_id + store@.len() <= u64::MAX,
            table.wf(),
            r@.len() == docs.take(i as int).filter(keep).len(),
            r@.len() <= i,
            forall|k: int|
                0 <= k < r@.len() ==> record_of(docs.take(i as int).filter(keep)[k], (first_id + k) as u64, now, #[trigger] r@[k]),
        decreases store@.len() - i,
    {
        let (_, ds) = store.get(i);
        proof {
            assert(docs.take(i + 1) =~= docs.take(i as int).push(*ds));
            docs.take(i as int).lemma_filter_push(*ds, keep);
            docs.take(i as int).lemma_filter_len(keep);
        }
        match dataset_to_record(ds, table, r.len() as u64, now) {
            Some(rec) => r.push(rec),
            None => {},
        }
        i += 1;
    }
    assert(docs.take(store@.len() as int) =~= docs);
    r
}

/// Number of observations with status 200.
pub open spec fn success_count(s: Seq<MonitorRecord>) -> nat
    decreases s.len(),
{
    if s.len() == 0 {
        0
    } else {
        success_count(s.drop_last()) + if s.last().status_code == Some(200i32) {
            1nat
        } else {
            0nat
        }
    }
}

/// Number of observations whose failure points at the monitoring host.
pub open spec fn local_count(s: Seq<MonitorRecord>) -> nat
    decreases s.len(),
{
    if s.len() == 0 {
        0
    } else {
        local_count(s.drop_last()) + if s.last().is_likely_local_issue {
            1nat
        } else {
            0nat
        }
    }
}

/// Number of failed observations that do not point at the monitoring host.
pub open spec fn remote_count(s: Seq<MonitorRecord>) -> nat
    decreases s.len(),
{
    if s.len() == 0 {
        0
    } else {
        remote_count(s.drop_last()) + if s.last().error_category is Some
            && !s.last().is_likely_local_issue {
            1nat
        } else {
            0nat
        }
    }
}

/// Aggregate counts of a probe run.
#[derive(Clone, Copy, Debug, PartialEq, Eq, Structural)]
pub struct ProbeSummary {
    pub total: usize,
    pub success: usize,
    pub local_issues: usize,
    pub remote_issues: usize,
    /// More than a tenth of the probes failed for local reasons: the
    /// monitoring host's network is suspect.
    pub local_warning: bool,
}

proof fn lemma_counts_bounded(s: Seq<MonitorRecord>)
    ensures
        success_count(s) <= s.len(),
        local_count(s) <= s.len(),
        remote_count(s) <= s.len(),
    decreases s.len(),
{
    if s.len() > 0 {
        lemma_counts_bounded(s.drop_last());
    }
}

/// Counts the outcomes of a run and decides whether local failures exceed
/// a tenth of all probes.
pub fn summarize(results: &Vec<MonitorRecord>) -> (r: ProbeSummary)
    ensures
        r.total == results@.len(),
        r.success == success_count(results@),
        r.local_issues == local_count(results@),
        r.remote_issues == remote_count(results@),
        r.local_warning == (10 * local_count(results@) > results@.len()),
{
    let mut success: usize = 0;
    let mut local: usize = 0;
    let mut remote: usize = 0;
    let mut i: usize = 0;
    while i < results.len()
        invariant
            i <= results.len(),
            success == success_count(results@.take(i as int)),
            local == local_count(results@.take(i as int)),
            remote == remote_count(results@.take(i as int)),
        decreases results.len() - i,
    {
        proof {
            assert(results@.take(i + 1).drop_last() =~= results@.take(i as int));
            lemma_counts_bounded(results@.take(i as int));
        }
        let rec = &results[i];
        if rec.status_code == Some(200i32) {
            success += 1;
        }
        if rec.is_likely_local_issue {
            local += 1;
        }
        if rec.error_category.is_some() && !rec.is_likely_local_issue {
            remote += 1;
        }
        i += 1;
    }
    assert(results@.take(results@.len() as int) =~= results@);
    let total = results.len();
    let local_warning = local > total / 10;
    assert(local_warning == (10 * local > total)) by (nonlinear_arith)
        requires
            local_warning == (local > total / 10),
    {}
    ProbeSummary { total, success, local_issues: local, remote_issues: remote, local_warning }
}

} // verus!
