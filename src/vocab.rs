use vstd::prelude::*;
use rand::Rng;

verus! {

#[verifier::external_type_specification]
#[verifier::external_body]
pub struct ExJsonValue(serde_json::Value);

#[verifier::external_type_specification]
#[verifier::external_body]
pub struct ExJsonError(serde_json::Error);

/// Relies on `serde_json::Value::as_array`: the elements when the value is a
/// JSON array.
pub assume_specification[ serde_json::Value::as_array ](v: &serde_json::Value) -> Option<
    &Vec<serde_json::Value>,
>;

/// Relies on `serde_json::Value::as_str`: the text when the value is a JSON
/// string.
pub assume_specification[ serde_json::Value::as_str ](v: &serde_json::Value) -> Option<&str>;

/// Whether `serde_json::from_str` accepts the text as JSON.
pub uninterp spec fn is_json(text: Seq<char>) -> bool;

/// Relies on `serde_json::from_str`: the JSON value that `text` holds, or the
/// reason it holds none; which of the two depends on the text alone.
#[verifier::external_body]
fn parse_json(text: &str) -> (r: Result<serde_json::Value, serde_json::Error>)
    ensures
        r is Ok <==> is_json(text@),
{
    serde_json::from_str(text)
}

/// Relies on `serde_json::Value::get` with a string key: the field of that
/// name when the value is a JSON object that has one.
#[verifier::external_body]
fn json_field<'a>(v: &'a serde_json::Value, key: &str) -> Option<&'a serde_json::Value> {
    v.get(key)
}

/// Relies on `rand::Rng::gen_range` over the thread-local generator: an index
/// drawn uniformly below `n`; the range is not empty, so it does not panic.
#[verifier::external_body]
fn random_below(n: usize) -> (r: usize)
    requires
        n > 0,
    ensures
        r < n,
{
    rand::thread_rng().gen_range(0..n)
}

/// A word of the vocabulary: its display text, the romanized form that answers
/// are judged against, and its meaning.
#[derive(Debug)]
pub struct VocabularyEntry {
    pub word: String,
    pub romaji: String,
    pub meaning: String,
}

/// Why a word list could not be loaded.
#[derive(Debug, Clone, Copy, PartialEq, Eq, Structural)]
pub enum LoadError {
    /// The text is not JSON.
    NotJson,
    /// The JSON is not a list.
    NotAList,
    /// The entry at this position lacks a text field `word`, `romaji` or `meaning`.
    MissingField(usize),
}

/// Why no word could be drawn.
#[derive(Debug, Clone, Copy, PartialEq, Eq, Structural)]
pub enum StoreError {
    /// The store holds no words.
    EmptyStore,
}

/// The vocabulary of a quiz.
#[derive(Debug)]
pub struct WordStore {
    pub entries: Vec<VocabularyEntry>,
}

/// An entry from its three fields, where all of them are present.
pub fn entry_from_fields(word: Option<&str>, romaji: Option<&str>, meaning: Option<&str>) -> (r: Option<VocabularyEntry>)
    ensures
        r is Some <==> (word is Some && romaji is Some && meaning is Some),
        r matches Some(e) ==> {
            &&& e.word@ == word->Some_0@
            &&& e.romaji@ == romaji->Some_0@
            &&& e.meaning@ == meaning->Some_0@
        },
{
    match (word, romaji, meaning) {
        (Some(w), Some(r), Some(m)) => Some(
            VocabularyEntry { word: w.to_owned(), romaji: r.to_owned(), meaning: m.to_owned() },
        ),
        _ => None,
    }
}

/// The `word`, `romaji` and `meaning` fields of one list entry, each where present.
pub type EntryFields<'a> = (Option<&'a str>, Option<&'a str>, Option<&'a str>);

/// The entry has all three fields.
pub open spec fn complete(f: EntryFields) -> bool {
    f.0 is Some && f.1 is Some && f.2 is Some
}

/// `e` holds the three fields of `f`.
pub open spec fn entry_of(e: VocabularyEntry, f: EntryFields) -> bool {
    &&& e.word@ == f.0->Some_0@
    &&& e.romaji@ == f.1->Some_0@
    &&& e.meaning@ == f.2->Some_0@
}

/// A store from the fields of the entries of a word list: every entry must have
/// all three, else the first that lacks one is reported.
pub fn store_from_fields(fields: Vec<EntryFields>) -> (r: Result<WordStore, LoadError>)
    ensures
        r is Ok <==> forall|i: int| 0 <= i < fields@.len() ==> complete(#[trigger] fields@[i]),
        r matches Ok(s) ==> {
            &&& s.entries@.len() == fields@.len()
            &&& forall|i: int| 0 <= i < fields@.len() ==> entry_of(#[trigger] s.entries@[i], fields@[i])
        },
        r is Err ==> {
            &&& r->Err_0 is MissingField
            &&& r->Err_0->MissingField_0 < fields@.len()
            &&& !complete(fields@[r->Err_0->MissingField_0 as int])
            &&& forall|j: int| 0 <= j < r->Err_0->MissingField_0 ==> complete(#[trigger] fields@[j])
        },
{
    let mut entries: Vec<VocabularyEntry> = Vec::new();
    let mut i: usize = 0;
    while i < fields.len()
        invariant
            i <= fields@.len(),
            entries@.len() == i,
            forall|j: int| 0 <= j < i ==> complete(#[trigger] fields@[j]),
            forall|j: int| 0 <= j < i ==> entry_of(#[trigger] entries@[j], fields@[j]),
        decreases fields@.len() - i,
    {
        let f = fields[i];
        match entry_from_fields(f.0, f.1, f.2) {
            Some(e) => entries.push(e),
            None => return Err(LoadError::MissingField(i)),
        }
        i = i + 1;
    }
    Ok(WordStore { entries })
}

/// The text of field `key` of a JSON object, if it has one.
fn text_field<'a>(v: &'a serde_json::Value, key: &str) -> Option<&'a str> {
    match json_field(v, key) {
        Some(f) => f.as_str(),
        None => None,
    }
}

impl WordStore {
    /// A store holding `entries`, in their order.
    pub fn new(entries: Vec<VocabularyEntry>) -> (s: WordStore)
        ensures
            s.entries@ == entries@,
    {
        WordStore { entries }
    }

    /// Number of words in the store.
    pub fn len(&self) -> (n: usize)
        ensures
            n == self.entries@.len(),
    {
        self.entries.len()
    }

    /// Loads a word list: a JSON list of objects, each with the text fields
    /// `word`, `romaji` and `meaning`. Every entry is checked here, so a bad
    /// list fails at once; the words keep the list's order.
    pub fn load(text: &str) -> (r: Result<WordStore, LoadError>)
        ensures
            (r is Err && r->Err_0 == LoadError::NotJson) <==> !is_json(text@),
    {
        let value = match parse_json(text) {
            Ok(v) => v,
            Err(_) => return Err(LoadError::NotJson),
        };
        let items = match value.as_array() {
            Some(items) => items,
            None => return Err(LoadError::NotAList),
        };
        let mut fields: Vec<EntryFields> = Vec::new();
        let mut i: usize = 0;
        while i < items.len()
            invariant
                i <= items@.len(),
            decreases items@.len() - i,
        {
            let item = &items[i];
            fields.push(
                (text_field(item, "word"), text_field(item, "romaji"), text_field(item, "meaning")),
            );
            i = i + 1;
        }
        store_from_fields(fields)
    }

    /// The entry that draw `draw` selects: the one at that index, if any.
    pub fn pick(&self, draw: usize) -> (r: Option<&VocabularyEntry>)
        ensures
            r is Some <==> draw < self.entries@.len(),
            r matches Some(e) ==> *e == self.entries@[draw as int],
    {
        if draw < self.entries.len() {
            Some(&self.entries[draw])
        } else {
            None
        }
    }

    /// A word drawn at random, uniformly and with replacement; an error when
    /// the store is empty.
    pub fn sample(&self) -> (r: Result<&VocabularyEntry, StoreError>)
        ensures
            r is Err <==> self.entries@.len() == 0,
            r matches Ok(e) ==> self.entries@.contains(*e),
    {
        let n = self.entries.len();
        if n == 0 {
            return Err(StoreError::EmptyStore);
        }
        let draw = random_below(n);
        match self.pick(draw) {
            Some(e) => Ok(e),
            None => Err(StoreError::EmptyStore),
        }
    }
}

} // verus!
