//! Processing of one pending id's detail answer.
use vstd::prelude::*;
use crate::credential::ParseError;
use crate::dataset::{
    clean_json_string, cleaned, document_of, document_shape, unique_docs, upserted, Dataset, DocumentStore,
};
use crate::discovery::{processed_step, IdLedger};
use crate::json::{is_json, json_text};

verus! {

/// Why one id's details could not be stored; the id stays pending.
#[derive(Clone, Copy, Debug, PartialEq, Eq, Structural)]
pub enum DetailFetchError {
    /// The detail endpoint answered with a status outside 2xx.
    Status(u16),
    /// The answer could not be read as a dataset document.
    Parse(ParseError),
}

/// Handles the detail answer for `id` of `provider`, received at second
/// `now` with HTTP status `status`. On a 2xx status the body, with stray
/// control characters removed, is read as a document, stamped with `id`,
/// stored in place of any earlier one for that id, and the id is marked
/// processed; this succeeds exactly when the cleaned body reads as a dataset.
/// On any failure neither the store nor the ledger changes.
pub fn process_detail(
    ledger: &mut IdLedger,
    store: &mut DocumentStore,
    provider: &str,
    id: &str,
    status: u16,
    body: &str,
    now: i64,
) -> (r: Result<(), DetailFetchError>)
    requires
        unique_docs(old(store)@),
    ensures
        unique_docs(final(store)@),
        !(200 <= status <= 299) ==> r == Err::<(), DetailFetchError>(DetailFetchError::Status(status)),
        (200 <= status <= 299 && !is_json(cleaned(body@))) ==> r == Err::<(), DetailFetchError>(
            DetailFetchError::Parse(ParseError::NotJson),
        ),
        (200 <= status <= 299 && is_json(cleaned(body@)) && !document_shape(json_text(cleaned(body@))))
            ==> r == Err::<(), DetailFetchError>(DetailFetchError::Parse(ParseError::Shape)),
        r is Ok <==> 200 <= status <= 299 && is_json(cleaned(body@)) && document_shape(
            json_text(cleaned(body@)),
        ),
        r is Err ==> final(ledger)@ == old(ledger)@ && final(store)@ == old(store)@,
        r is Ok ==> processed_step(old(ledger)@, final(ledger)@, provider@, id@, now),
        r is Ok ==> exists|d: Dataset|
            document_of(d, json_text(cleaned(body@)), id@, now) && #[trigger] upserted(
                old(store)@,
                final(store)@,
                provider@,
                d,
            ),
{
    if !(200 <= status && status <= 299) {
        return Err(DetailFetchError::Status(status));
    }
    let text = clean_json_string(body);
    let doc = match Dataset::from_json(text.as_str(), id, now) {
        Ok(d) => d,
        Err(e) => return Err(DetailFetchError::Parse(e)),
    };
    let ghost d = doc;
    store.upsert(provider, doc);
    ledger.mark_processed(provider, id, now);
    assert(upserted(old(store)@, store@, provider@, d));
    Ok(())
}

} // verus!
