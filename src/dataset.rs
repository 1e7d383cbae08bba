//! Dataset documents: reading a provider's detail answer, the fields the
//! monitor needs, and the store that keeps one document per external id.
use vstd::prelude::*;
use crate::credential::ParseError;
use crate::json::{
    is_json, json_text, json_view, member, member_at, opt_view, parse_json, text_at, text_member,
    JsonView,
};

verus! {

/// Whether a character survives cleaning: every character but the control
/// characters (U+0000 to U+001F and U+007F to U+009F), of which newline,
/// carriage return and tab are kept.
pub open spec fn kept_char(c: char) -> bool {
    c == '\n' || c == '\r' || c == '\t' || (c > '\u{1f}' && !('\u{7f}' <= c && c <= '\u{9f}'))
}

/// A text with the stray control characters removed.
pub open spec fn cleaned(s: Seq<char>) -> Seq<char> {
    s.filter(|c: char| kept_char(c))
}

/// Relies on `Iterator::collect` into a `String`: the characters in order.
#[verifier::external_body]
pub(crate) fn string_of(chars: &Vec<char>) -> (r: String)
    ensures
        r@ == chars@,
{
    chars.iter().collect()
}

/// Removes the control characters (U+0000 to U+001F and U+007F to U+009F)
/// other than newline, carriage return and tab.
pub fn clean_json_string(input: &str) -> (r: String)
    ensures
        r@ == cleaned(input@),
{
    let chars = crate::category::chars_of(input);
    let mut out: Vec<char> = Vec::new();
    let mut i: usize = 0;
    while i < chars.len()
        invariant
            i <= chars.len(),
            chars@ == input@,
            out@ == chars@.take(i as int).filter(|c: char| kept_char(c)),
        decreases chars.len() - i,
    {
        let c = chars[i];
        proof {
            assert(chars@.take(i + 1) == chars@.take(i as int).push(c));
            chars@.take(i as int).lemma_filter_push(c, |c: char| kept_char(c));
        }
        if c == '\n' || c == '\r' || c == '\t' || (c > '\u{1f}' && !('\u{7f}' <= c && c <= '\u{9f}')) {
            out.push(c);
        }
        i += 1;
    }
    assert(chars@.take(chars.len() as int) == chars@);
    string_of(&out)
}

/// One element of an array field, read one level deep.
#[derive(Debug)]
pub enum ItemValue {
    Text(String),
    /// An object, with the text of its `@value` member if it has one.
    Labelled(Option<String>),
    Other,
}

/// A field of a dataset document, as far as the monitor reads it.
#[derive(Debug)]
pub enum FieldValue {
    Text(String),
    /// An object, with the text of its `@value` member if it has one.
    Labelled(Option<String>),
    List(Vec<ItemValue>),
    /// Missing, null, or a value of another kind.
    Other,
}

/// A dataset document as stored.
#[derive(Debug)]
pub struct Dataset {
    /// The document's own `@id`, empty when it has none.
    pub raw_id: String,
    /// The provider's external id, stamped when the document is fetched.
    pub casdc_id: Option<String>,
    pub data_type: FieldValue,
    pub url: FieldValue,
    pub name: FieldValue,
    pub date_published: FieldValue,
    /// Second at which the document was fetched.
    pub sync_date: Option<i64>,
    pub center_name: Option<String>,
}

/// The URL of a document: its `schema:url` when that is text.
pub open spec fn url_of(f: FieldValue) -> Option<Seq<char>> {
    match f {
        FieldValue::Text(s) => Some(s@),
        _ => None,
    }
}

/// The display name of a document's `schema:name` field.
pub open spec fn name_of(f: FieldValue) -> Seq<char> {
    match f {
        FieldValue::Text(s) => s@,
        FieldValue::Labelled(Some(v)) => v@,
        FieldValue::Labelled(None) => "unknown"@,
        FieldValue::List(items) => if items.len() > 0 {
            match items[0] {
                ItemValue::Text(s) => s@,
                ItemValue::Labelled(Some(v)) => v@,
                _ => "unknown"@,
            }
        } else {
            "unknown"@
        },
        FieldValue::Other => "Unknown"@,
    }
}

/// The publication date of a document's `schema:datePublished` field.
pub open spec fn date_of(f: FieldValue) -> Seq<char> {
    match f {
        FieldValue::Text(s) => s@,
        _ => "unknown"@,
    }
}

impl Dataset {
    /// The document's URL, if its URL field is text.
    pub fn extract_url(&self) -> (r: Option<String>)
        ensures
            match r {
                Some(u) => url_of(self.url) == Some(u@),
                None => url_of(self.url) is None,
            },
    {
        match &self.url {
            FieldValue::Text(s) => Some(s.clone()),
            _ => None,
        }
    }

    /// The document's name: plain text, the `@value` of an object, or that of
    /// the first element of a list.
    pub fn extract_name(&self) -> (r: String)
        ensures
            r@ == name_of(self.name),
    {
        match &self.name {
            FieldValue::Text(s) => s.clone(),
            FieldValue::Labelled(Some(v)) => v.clone(),
            FieldValue::Labelled(None) => String::from_str("unknown"),
            FieldValue::List(items) => {
                if items.len() > 0 {
                    match &items[0] {
                        ItemValue::Text(s) => s.clone(),
                        ItemValue::Labelled(Some(v)) => v.clone(),
                        _ => String::from_str("unknown"),
                    }
                } else {
                    String::from_str("unknown")
                }
            },
            FieldValue::Other => String::from_str("Unknown"),
        }
    }

    /// The document's publication date, "unknown" when it is not text.
    pub fn extract_date_published(&self) -> (r: String)
        ensures
            r@ == date_of(self.date_published),
    {
        match &self.date_published {
            FieldValue::Text(s) => s.clone(),
            _ => String::from_str("unknown"),
        }
    }
}

/// `it` reads array element `j`: a string as text, an object by its
/// `@value` text, anything else as `Other`.
pub open spec fn item_matches(it: ItemValue, j: JsonView) -> bool {
    match j {
        JsonView::Str(s) => match it {
            ItemValue::Text(t) => t@ == s,
            _ => false,
        },
        JsonView::Object(_) => match it {
            ItemValue::Labelled(o) => opt_view(o) == text_at(j, "@value"@),
            _ => false,
        },
        _ => it is Other,
    }
}

/// `f` reads the document member `j`, which may be missing.
pub open spec fn field_matches(f: FieldValue, j: Option<JsonView>) -> bool {
    match j {
        Some(JsonView::Str(s)) => match f {
            FieldValue::Text(t) => t@ == s,
            _ => false,
        },
        Some(JsonView::Object(_)) => match f {
            FieldValue::Labelled(o) => opt_view(o) == text_at(j->Some_0, "@value"@),
            _ => false,
        },
        Some(JsonView::Array(items)) => match f {
            FieldValue::List(v) => v@.len() == items.len() && forall|i: int|
                0 <= i < items.len() ==> item_matches(#[trigger] v@[i], items[i]),
            _ => false,
        },
        _ => f is Other,
    }
}

/// Member `key` of `j` is missing or a string, or also null where `null_allowed`.
pub open spec fn optional_text(j: JsonView, key: Seq<char>, null_allowed: bool) -> bool {
    match member_at(j, key) {
        None => true,
        Some(JsonView::Str(_)) => true,
        Some(JsonView::Null) => null_allowed,
        _ => false,
    }
}

/// A JSON document that reads as a dataset: an object whose `@id` is a
/// string if present, and whose `casdc_id` and `centerName` are strings or
/// null if present.
pub open spec fn document_shape(j: JsonView) -> bool {
    &&& j is Object
    &&& optional_text(j, "@id"@, false)
    &&& optional_text(j, "casdc_id"@, true)
    &&& optional_text(j, "centerName"@, true)
}

fn optional_text_member(v: &serde_json::Value, key: &str, null_allowed: bool) -> (r: bool)
    ensures
        r == optional_text(json_view(*v), key@, null_allowed),
{
    match member(v, key) {
        None => true,
        Some(m) => m.as_str().is_some() || (null_allowed && m.is_null()),
    }
}

/// `d` is the document read from the JSON object `j`, stamped with
/// `external_id` and the fetch second `now`.
pub open spec fn document_of(d: Dataset, j: JsonView, external_id: Seq<char>, now: i64) -> bool {
    &&& j is Object
    &&& d.raw_id@ == match text_at(j, "@id"@) {
        Some(s) => s,
        None => Seq::empty(),
    }
    &&& opt_view(d.casdc_id) == Some(external_id)
    &&& field_matches(d.data_type, member_at(j, "@type"@))
    &&& field_matches(d.url, member_at(j, "schema:url"@))
    &&& field_matches(d.name, member_at(j, "schema:name"@))
    &&& field_matches(d.date_published, member_at(j, "schema:datePublished"@))
    &&& d.sync_date == Some(now)
    &&& opt_view(d.center_name) == text_at(j, "centerName"@)
}

fn item_from_json(v: &serde_json::Value) -> (r: ItemValue)
    ensures
        item_matches(r, json_view(*v)),
{
    match v.as_str() {
        Some(s) => ItemValue::Text(String::from_str(s)),
        None => {
            if v.is_object() {
                ItemValue::Labelled(text_member(v, "@value"))
            } else {
                ItemValue::Other
            }
        },
    }
}

fn field_from_json(doc: &serde_json::Value, key: &str) -> (r: FieldValue)
    ensures
        field_matches(r, member_at(json_view(*doc), key@)),
{
    let v = match member(doc, key) {
        Some(v) => v,
        None => return FieldValue::Other,
    };
    match v.as_str() {
        Some(s) => return FieldValue::Text(String::from_str(s)),
        None => {},
    }
    if v.is_object() {
        return FieldValue::Labelled(text_member(v, "@value"));
    }
    match v.as_array() {
        Some(a) => {
            let mut items: Vec<ItemValue> = Vec::new();
            let mut i: usize = 0;
            while i < a.len()
                invariant
                    i <= a.len(),
                    json_view(*v) is Array,
                    a@.len() == json_view(*v)->Array_0.len(),
                    forall|k: int| 0 <= k < a@.len() ==> json_view(#[trigger] a@[k]) == json_view(*v)->Array_0[k],
                    items@.len() == i,
                    forall|k: int| 0 <= k < i ==> item_matches(#[trigger] items@[k], json_view(*v)->Array_0[k]),
                decreases a.len() - i,
            {
                items.push(item_from_json(&a[i]));
                i += 1;
            }
            FieldValue::List(items)
        },
        None => FieldValue::Other,
    }
}

impl Dataset {
    /// Reads a detail answer whose stray control characters were removed,
    /// and stamps it with the provider's external id and the fetch second.
    pub fn from_json(text: &str, external_id: &str, now: i64) -> (r: Result<Dataset, ParseError>)
        ensures
            r == Err::<Dataset, ParseError>(ParseError::NotJson) <==> !is_json(text@),
            r is Ok <==> is_json(text@) && document_shape(json_text(text@)),
            r is Ok ==> document_of(r->Ok_0, json_text(text@), external_id@, now),
    {
        let v = match parse_json(text) {
            Ok(v) => v,
            Err(_) => return Err(ParseError::NotJson),
        };
        if !v.is_object() || !optional_text_member(&v, "@id", false) || !optional_text_member(
            &v,
            "casdc_id",
            true,
        ) || !optional_text_member(&v, "centerName", true) {
            return Err(ParseError::Shape);
        }
        let raw_id = match text_member(&v, "@id") {
            Some(s) => s,
            None => String::new(),
        };
        Ok(Dataset {
            raw_id,
            casdc_id: Some(String::from_str(external_id)),
            data_type: field_from_json(&v, "@type"),
            url: field_from_json(&v, "schema:url"),
            name: field_from_json(&v, "schema:name"),
            date_published: field_from_json(&v, "schema:datePublished"),
            sync_date: Some(now),
            center_name: text_member(&v, "centerName"),
        })
    }
}

/// The external id a document was stamped with, if any.
pub open spec fn doc_key(d: Dataset) -> Option<Seq<char>> {
    match d.casdc_id {
        Some(c) => Some(c@),
        None => None,
    }
}

/// Entry `k` of a store belongs to `provider` and carries external id `key`.
pub open spec fn holds_key(s: Seq<(Seq<char>, Dataset)>, k: int, provider: Seq<char>, key: Option<Seq<char>>) -> bool {
    0 <= k < s.len() && s[k].0 == provider && doc_key(s[k].1) == key
}

/// `after` is `before` with `doc` stored for `provider`: in place of the
/// entry with the same external id, or appended when there is none.
pub open spec fn upserted(
    before: Seq<(Seq<char>, Dataset)>,
    after: Seq<(Seq<char>, Dataset)>,
    provider: Seq<char>,
    doc: Dataset,
) -> bool {
    &&& (exists|k: int| holds_key(before, k, provider, doc_key(doc))) ==> exists|k: int|
        holds_key(before, k, provider, doc_key(doc)) && after == before.update(k, (provider, doc))
    &&& !(exists|k: int| holds_key(before, k, provider, doc_key(doc))) ==> after == before.push(
        (provider, doc),
    )
}

/// No provider and external id pair is stored twice.
pub open spec fn unique_docs(s: Seq<(Seq<char>, Dataset)>) -> bool {
    forall|i: int, j: int|
        0 <= i < j < s.len() ==> !(#[trigger] s[i].0 == #[trigger] s[j].0 && doc_key(s[i].1)
            == doc_key(s[j].1))
}

/// A document together with the provider it came from.
#[derive(Debug)]
pub struct StoredDataset {
    pub provider: String,
    pub doc: Dataset,
}

/// The dataset documents of every provider, one per provider and external id.
pub struct DocumentStore {
    docs: Vec<StoredDataset>,
}

impl View for DocumentStore {
    type V = Seq<(Seq<char>, Dataset)>;

    closed spec fn view(&self) -> Seq<(Seq<char>, Dataset)> {
        self.docs@.map_values(|e: StoredDataset| (e.provider@, e.doc))
    }
}

fn same_key(a: &Option<String>, b: &Option<String>) -> (r: bool)
    ensures
        r == (match (a, b) {
            (Some(x), Some(y)) => x@ == y@,
            (None, None) => true,
            _ => false,
        }),
{
    match (a, b) {
        (Some(x), Some(y)) => *x == *y,
        (None, None) => true,
        _ => false,
    }
}

impl DocumentStore {
    /// An empty store.
    pub fn new() -> (r: DocumentStore)
        ensures
            r@ == Seq::<(Seq<char>, Dataset)>::empty(),
            unique_docs(r@),
    {
        let r = DocumentStore { docs: Vec::new() };
        assert(r@ =~= Seq::<(Seq<char>, Dataset)>::empty());
        r
    }

    /// Number of stored documents.
    pub fn len(&self) -> (r: usize)
        ensures
            r == self@.len(),
    {
        self.docs.len()
    }

    /// The document at `i`, with its provider.
    pub fn get(&self, i: usize) -> (r: (&str, &Dataset))
        requires
            i < self@.len(),
        ensures
            r.0@ == self@[i as int].0,
            *r.1 == self@[i as int].1,
    {
        let e = &self.docs[i];
        (e.provider.as_str(), &e.doc)
    }

    /// Stores `doc` for `provider`, replacing the document with the same
    /// external id, or adding it when there is none.
    pub fn upsert(&mut self, provider: &str, doc: Dataset)
        requires
            unique_docs(old(self)@),
        ensures
            unique_docs(final(self)@),
            upserted(old(self)@, final(self)@, provider@, doc),
    {
        let p = String::from_str(provider);
        let ghost start = self@;
        let mut i: usize = 0;
        while i < self.docs.len()
            invariant
                i <= self.docs.len(),
                p@ == provider@,
                self@ == start,
                start == old(self)@,
                unique_docs(start),
                forall|k: int| 0 <= k < i ==> !holds_key(self@, k, provider@, doc_key(doc)),
            decreases self.docs.len() - i,
        {
            if self.docs[i].provider == p && same_key(&self.docs[i].doc.casdc_id, &doc.casdc_id) {
                let ghost before = self@;
                proof {
                    assert(holds_key(before, i as int, provider@, doc_key(doc)));
                }
                let entry = StoredDataset { provider: p, doc };
                self.docs.set(i, entry);
                proof {
                    assert(self@ =~= before.update(i as int, (provider@, doc)));
                    assert forall|a: int, b: int| 0 <= a < b < self@.len() implies !(
                    #[trigger] self@[a].0 == #[trigger] self@[b].0 && doc_key(self@[a].1) == doc_key(
                        self@[b].1,
                    )) by {
                        assert(before[i as int].0 == self@[i as int].0);
                        assert(doc_key(before[i as int].1) == doc_key(self@[i as int].1));
                        if a == i {
                            assert(before[b] == self@[b]);
                        } else if b == i {
                            assert(before[a] == self@[a]);
                        } else {
                            assert(before[a] == self@[a]);
                            assert(before[b] == self@[b]);
                        }
                    }
                }
                return;
            }
            i += 1;
        }
        let ghost before = self@;
        self.docs.push(StoredDataset { provider: p, doc });
        proof {
            assert(self@ =~= before.push((provider@, doc)));
            assert forall|a: int, b: int| 0 <= a < b < self@.len() implies !(#[trigger] self@[a].0
                == #[trigger] self@[b].0 && doc_key(self@[a].1) == doc_key(self@[b].1)) by {
                if b == before.len() {
                    assert(before[a] == self@[a]);
                    assert(self@[b] == (provider@, doc));
                    assert(!holds_key(before, a, provider@, doc_key(doc)));
                } else {
                    assert(before[a] == self@[a]);
                    assert(before[b] == self@[b]);
                }
            }
        }
    }
}

} // verus!
