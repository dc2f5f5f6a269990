//! JSON values, the map of custom fields, and the JSON text that the database
//! keeps of them.

use crate::text::{same_text, text_before, text_less, texts};
use crate::text::{lemma_less_irreflexive, lemma_less_total, lemma_less_transitive};
use serde_json::Value;
use std::collections::BTreeMap;
use vstd::prelude::*;

verus! {

/// Declares `serde_json::Value`.
#[verifier::external_type_specification]
#[verifier::external_body]
pub struct ExValue(serde_json::Value);

/// The compact JSON text of a value, as `serde_json::Value::to_string` gives it.
pub uninterp spec fn compact_text(value: serde_json::Value) -> Seq<char>;

/// A JSON value that is neither `null` nor a string. The backend carries it
/// through; what it stands for is its compact JSON text.
#[derive(Debug, PartialEq, Eq)]
pub struct JsonData {
    value: Value,
}

impl View for JsonData {
    type V = Seq<char>;

    closed spec fn view(&self) -> Seq<char> {
        compact_text(self.value)
    }
}

impl Clone for JsonData {
    fn clone(&self) -> (r: Self)
        ensures
            r@ == self@,
    {
        JsonData { value: self.value.clone() }
    }
}

impl JsonData {
    /// The value.
    pub fn value(&self) -> (r: &Value)
        ensures
            compact_text(*r) == self@,
    {
        &self.value
    }

    /// The compact JSON text of the value.
    pub fn text(&self) -> (r: String)
        ensures
            r@ == self@,
    {
        value_text(&self.value)
    }
}

/// A JSON value, as far as the backend tells values apart.
#[derive(Debug, PartialEq, Eq)]
pub enum JsonValue {
    /// `null`.
    Null,
    /// A string.
    Text(String),
    /// Any other value.
    Other(JsonData),
}

/// What a [`JsonValue`] stands for.
pub enum JsonView {
    Null,
    Text(Seq<char>),
    /// Any other value, as its compact JSON text.
    Encoded(Seq<char>),
}

impl View for JsonValue {
    type V = JsonView;

    open spec fn view(&self) -> JsonView {
        match self {
            JsonValue::Null => JsonView::Null,
            JsonValue::Text(s) => JsonView::Text(s@),
            JsonValue::Other(data) => JsonView::Encoded(data@),
        }
    }
}

impl Clone for JsonValue {
    fn clone(&self) -> (r: Self)
        ensures
            r@ == self@,
    {
        match self {
            JsonValue::Null => JsonValue::Null,
            JsonValue::Text(s) => JsonValue::Text(s.clone()),
            JsonValue::Other(data) => JsonValue::Other(data.clone()),
        }
    }
}

/// The value with the given compact JSON text, told apart.
pub open spec fn told_apart(text: Seq<char>) -> JsonView {
    if text == "null"@ {
        JsonView::Null
    } else if is_string_text(text) {
        value_in(text)->Ok_0
    } else {
        JsonView::Encoded(text)
    }
}

/// `null` is told by its text, a string by its first character, and any other
/// value keeps its text.
pub proof fn law_values_are_told_apart(text: Seq<char>)
    ensures
        text == "null"@ ==> told_apart(text) is Null,
        text != "null"@ && text.len() > 0 && text[0] == '"' ==> told_apart(text)
            == value_in(text)->Ok_0,
        text != "null"@ && (text.len() == 0 || text[0] != '"') ==> told_apart(text)
            == JsonView::Encoded(text),
{
}

/// Whether a compact JSON text is that of a string.
pub open spec fn is_string_text(text: Seq<char>) -> bool {
    text.len() > 0 && text[0] == '"'
}

impl JsonValue {
    /// A value, told apart.
    pub fn of(value: Value) -> (r: Self)
        ensures
            r@ == told_apart(compact_text(value)),
    {
        if value.is_null() {
            return JsonValue::Null;
        }
        match value.as_str() {
            Some(text) => JsonValue::Text(text.to_owned()),
            None => JsonValue::Other(JsonData { value }),
        }
    }

    /// Whether the value is `null`.
    pub fn is_null(&self) -> (r: bool)
        ensures
            r == (self@ is Null),
    {
        match self {
            JsonValue::Null => true,
            _ => false,
        }
    }

    /// Whether the value outlasts being written and read as a custom field.
    pub fn lasts(&self) -> (r: bool)
        ensures
            r == lasting(self@),
    {
        match self {
            JsonValue::Other(data) => {
                let text = data.text();
                reads_as_itself(text.as_str()) && reads_as_itself(
                    "[".to_owned().concat(text.as_str()).concat("]").as_str(),
                )
            },
            _ => true,
        }
    }
}

/// Whether a text reads as a value that is neither `null` nor a string and whose
/// compact JSON text it is.
fn reads_as_itself(text: &str) -> (r: bool)
    ensures
        r == holds_value(text@, JsonView::Encoded(text@)),
{
    match value_from_json(text) {
        Ok(JsonValue::Other(data)) => same_text(data.text().as_str(), text),
        _ => false,
    }
}

/// The map that a list of entries stands for, if no key occurs twice.
pub open spec fn entries_map(entries: Seq<(String, JsonValue)>) -> Map<Seq<char>, JsonView>
    decreases entries.len(),
{
    if entries.len() == 0 {
        Map::empty()
    } else {
        entries_map(entries.drop_last()).insert(entries.last().0@, entries.last().1@)
    }
}

/// Whether no key occurs twice.
pub open spec fn distinct_keys(entries: Seq<(String, JsonValue)>) -> bool {
    forall|i: int, j: int|
        0 <= i < j < entries.len() ==> (#[trigger] entries[i]).0@ != (#[trigger] entries[j]).0@
}

/// Whether the entries are in the order of their keys, and no key occurs twice.
pub open spec fn sorted_keys(entries: Seq<(String, JsonValue)>) -> bool {
    forall|i: int, j: int|
        0 <= i < j < entries.len() ==> text_less(
            (#[trigger] entries[i]).0@,
            (#[trigger] entries[j]).0@,
        )
}

/// Named JSON values, in the order of their names; no name occurs twice.
#[derive(Debug, PartialEq, Eq)]
pub struct CustomFields {
    entries: Vec<(String, JsonValue)>,
}

impl View for CustomFields {
    type V = Map<Seq<char>, JsonView>;

    closed spec fn view(&self) -> Map<Seq<char>, JsonView> {
        entries_map(self.entries@)
    }
}

proof fn lemma_sorted_is_distinct(entries: Seq<(String, JsonValue)>)
    requires
        sorted_keys(entries),
    ensures
        distinct_keys(entries),
{
    assert forall|i: int, j: int| 0 <= i < j < entries.len() implies (
    #[trigger] entries[i]).0@ != (#[trigger] entries[j]).0@ by {
        lemma_less_irreflexive(entries[i].0@);
    }
}

proof fn lemma_entries_map_dom(entries: Seq<(String, JsonValue)>)
    ensures
        forall|k: Seq<char>| #[trigger]
            entries_map(entries).contains_key(k) <==> exists|i: int|
                0 <= i < entries.len() && (#[trigger] entries[i]).0@ == k,
    decreases entries.len(),
{
    if entries.len() > 0 {
        let front = entries.drop_last();
        lemma_entries_map_dom(front);
        assert forall|k: Seq<char>| #[trigger]
            entries_map(entries).contains_key(k) <==> exists|i: int|
                0 <= i < entries.len() && (#[trigger] entries[i]).0@ == k by {
            if entries_map(entries).contains_key(k) {
                if k == entries.last().0@ {
                    assert(entries[entries.len() - 1].0@ == k);
                } else {
                    assert(entries_map(front).contains_key(k));
                    let i = choose|i: int| 0 <= i < front.len() && (#[trigger] front[i]).0@ == k;
                    assert(entries[i].0@ == k);
                }
            }
            if exists|i: int| 0 <= i < entries.len() && (#[trigger] entries[i]).0@ == k {
                let i = choose|i: int| 0 <= i < entries.len() && (#[trigger] entries[i]).0@ == k;
                if i < front.len() {
                    assert(front[i].0@ == k);
                    assert(entries_map(front).contains_key(k));
                }
                assert(entries_map(entries).contains_key(k));
            }
        }
    }
}

proof fn lemma_entries_map_value(entries: Seq<(String, JsonValue)>, i: int)
    requires
        distinct_keys(entries),
        0 <= i < entries.len(),
    ensures
        entries_map(entries).contains_key(entries[i].0@),
        entries_map(entries)[entries[i].0@] == entries[i].1@,
    decreases entries.len(),
{
    if i < entries.len() - 1 {
        lemma_entries_map_value(entries.drop_last(), i);
        assert(entries.drop_last()[i] == entries[i]);
        assert(entries[i].0@ != entries[entries.len() - 1].0@);
    }
}

impl Clone for CustomFields {
    fn clone(&self) -> (r: Self)
        ensures
            r@ == self@,
    {
        proof {
            use_type_invariant(self);
        }
        let mut entries: Vec<(String, JsonValue)> = Vec::new();
        for i in 0..self.entries.len()
            invariant
                sorted_keys(self.entries@),
                entries@.len() == i,
                forall|j: int|
                    0 <= j < i ==> (#[trigger] entries@[j]).0@ == self.entries@[j].0@
                        && entries@[j].1@ == self.entries@[j].1@,
                entries_map(entries@) == entries_map(self.entries@.take(i as int)),
        {
            let ghost before = entries@;
            entries.push((self.entries[i].0.clone(), self.entries[i].1.clone()));
            assert(entries@.drop_last() == before);
            assert(self.entries@.take(i + 1).drop_last() == self.entries@.take(i as int));
        }
        assert(self.entries@.take(self.entries@.len() as int) == self.entries@);
        CustomFields { entries }
    }
}

impl CustomFields {
    #[verifier::type_invariant]
    spec fn in_key_order(self) -> bool {
        sorted_keys(self.entries@)
    }

    /// No fields.
    pub fn new() -> (r: Self)
        ensures
            r@ == Map::<Seq<char>, JsonView>::empty(),
    {
        CustomFields { entries: Vec::new() }
    }

    /// Number of fields.
    pub fn len(&self) -> (r: usize)
        ensures
            r == self@.dom().len(),
            self@.dom().finite(),
    {
        proof {
            use_type_invariant(self);
            lemma_sorted_is_distinct(self.entries@);
            lemma_entries_map_len(self.entries@);
        }
        self.entries.len()
    }

    /// The fields, in the order of their names.
    pub fn entries(&self) -> (r: &Vec<(String, JsonValue)>)
        ensures
            sorted_keys(r@),
            entries_map(r@) == self@,
    {
        proof {
            use_type_invariant(self);
        }
        &self.entries
    }

    /// The fields as the text of a JSON object.
    pub fn to_json(&self) -> (r: Result<String, String>)
        ensures
            r matches Ok(text) && text@ == fields_json(self@) && keeps_fields(text@, self@),
    {
        proof {
            use_type_invariant(self);
        }
        fields_to_json(&self.entries)
    }

    /// The members of a JSON object, or the reason why `raw` is none.
    pub fn from_json(raw: &str) -> (r: Result<Self, String>)
        ensures
            match (r, fields_in(raw@)) {
                (Ok(fields), Ok(expected)) => fields@ == expected,
                (Err(reason), Err(expected)) => reason@ == expected,
                _ => false,
            },
    {
        match fields_from_json(raw) {
            Ok(entries) => Ok(CustomFields { entries }),
            Err(reason) => Err(reason),
        }
    }

    fn position(&self, key: &str) -> (r: Option<usize>)
        ensures
            match r {
                Some(i) => i < self.entries@.len() && self.entries@[i as int].0@ == key@,
                None => !self@.contains_key(key@),
            },
    {
        for i in 0..self.entries.len()
            invariant
                forall|j: int| 0 <= j < i ==> (#[trigger] self.entries@[j]).0@ != key@,
        {
            if same_text(self.entries[i].0.as_str(), key) {
                return Some(i);
            }
        }
        proof {
            lemma_entries_map_dom(self.entries@);
        }
        None
    }

    /// The field `key`.
    pub fn get(&self, key: &str) -> (r: Option<&JsonValue>)
        ensures
            match r {
                Some(v) => self@.contains_key(key@) && v@ == self@[key@],
                None => !self@.contains_key(key@),
            },
    {
        proof {
            use_type_invariant(self);
            lemma_sorted_is_distinct(self.entries@);
        }
        match self.position(key) {
            Some(i) => {
                proof {
                    lemma_entries_map_value(self.entries@, i as int);
                }
                Some(&self.entries[i].1)
            },
            None => None,
        }
    }

    /// Takes the field `key` out, if it is there.
    pub fn remove(&mut self, key: &str)
        ensures
            final(self)@ == old(self)@.remove(key@),
    {
        proof {
            use_type_invariant(&*self);
        }
        if let Some(i) = self.position(key) {
            let mut entries: Vec<(String, JsonValue)> = Vec::new();
            std::mem::swap(&mut entries, &mut self.entries);
            proof {
                lemma_sorted_is_distinct(entries@);
                lemma_entries_map_remove(entries@, i as int);
            }
            entries.remove(i);
            self.entries = entries;
        } else {
            assert(self@.remove(key@) == self@);
        }
    }

    /// Sets the field `key` to `value`.
    pub fn insert(&mut self, key: String, value: JsonValue)
        ensures
            final(self)@ == old(self)@.insert(key@, value@),
    {
        self.remove(key.as_str());
        proof {
            use_type_invariant(&*self);
            lemma_entries_map_dom(self.entries@);
        }
        let mut entries: Vec<(String, JsonValue)> = Vec::new();
        std::mem::swap(&mut entries, &mut self.entries);
        let ghost before = entries@;
        let mut i: usize = 0;
        while i < entries.len() && text_before(entries[i].0.as_str(), key.as_str())
            invariant
                i <= entries@.len(),
                entries@ == before,
                forall|j: int| 0 <= j < i ==> text_less((#[trigger] before[j]).0@, key@),
            decreases entries@.len() - i,
        {
            i = i + 1;
        }
        let ghost entry = (key, value);
        entries.insert(i, (key, value));
        proof {
            lemma_entries_map_insert(before, i as int, entry);
        }
        self.entries = entries;
        assert(old(self)@.remove(key@).insert(key@, value@) == old(self)@.insert(key@, value@));
    }
}

proof fn lemma_entries_map_insert(
    entries: Seq<(String, JsonValue)>,
    i: int,
    entry: (String, JsonValue),
)
    requires
        sorted_keys(entries),
        0 <= i <= entries.len(),
        forall|j: int| 0 <= j < i ==> text_less((#[trigger] entries[j]).0@, entry.0@),
        i < entries.len() ==> !text_less(entries[i].0@, entry.0@),
        !entries_map(entries).contains_key(entry.0@),
    ensures
        sorted_keys(entries.insert(i, entry)),
        entries_map(entries.insert(i, entry)) == entries_map(entries).insert(entry.0@, entry.1@),
{
    let after = entries.insert(i, entry);
    lemma_entries_map_dom(entries);
    assert forall|j: int| i <= j < entries.len() implies text_less(
        entry.0@,
        (#[trigger] entries[j]).0@,
    ) by {
        lemma_less_total(entry.0@, entries[i].0@);
        if j > i {
            lemma_less_transitive(entry.0@, entries[i].0@, entries[j].0@);
        }
    }
    assert forall|a: int, b: int| 0 <= a < b < after.len() implies text_less(
        (#[trigger] after[a]).0@,
        (#[trigger] after[b]).0@,
    ) by {
        if a < i && b == i {
            assert(after[a] == entries[a]);
        } else if a == i {
            assert(after[b] == entries[b - 1]);
        } else {
            let x = if a < i { a } else { a - 1 };
            let y = if b < i { b } else { b - 1 };
            assert(after[a] == entries[x] && after[b] == entries[y]);
        }
    }
    lemma_sorted_is_distinct(after);
    lemma_entries_map_value(after, i);
    lemma_entries_map_remove(after, i);
    assert(after.remove(i) == entries);
}

proof fn lemma_entries_map_len(entries: Seq<(String, JsonValue)>)
    requires
        distinct_keys(entries),
    ensures
        entries_map(entries).dom().finite(),
        entries_map(entries).dom().len() == entries.len(),
    decreases entries.len(),
{
    if entries.len() > 0 {
        let front = entries.drop_last();
        lemma_entries_map_len(front);
        lemma_entries_map_dom(front);
        assert(!entries_map(front).contains_key(entries.last().0@)) by {
            if entries_map(front).contains_key(entries.last().0@) {
                let i = choose|i: int|
                    0 <= i < front.len() && (#[trigger] front[i]).0@ == entries.last().0@;
                assert(entries[i].0@ == entries[entries.len() - 1].0@);
            }
        }
        assert(entries_map(entries).dom() == entries_map(front).dom().insert(entries.last().0@));
    } else {
        assert(entries_map(entries).dom() == Set::<Seq<char>>::empty());
    }
}

proof fn lemma_entries_map_remove(entries: Seq<(String, JsonValue)>, i: int)
    requires
        distinct_keys(entries),
        0 <= i < entries.len(),
    ensures
        distinct_keys(entries.remove(i)),
        entries_map(entries.remove(i)) == entries_map(entries).remove(entries[i].0@),
    decreases entries.len(),
{
    let front = entries.drop_last();
    let last = entries.last();
    if i == entries.len() - 1 {
        assert(entries.remove(i) == front);
        lemma_entries_map_dom(front);
        assert(!entries_map(front).contains_key(last.0@)) by {
            if entries_map(front).contains_key(last.0@) {
                let j = choose|j: int| 0 <= j < front.len() && (#[trigger] front[j]).0@ == last.0@;
                assert(entries[j].0@ == entries[i].0@);
            }
        }
        assert(entries_map(entries).remove(last.0@) == entries_map(front));
    } else {
        lemma_entries_map_remove(front, i);
        assert(entries.remove(i).drop_last() == front.remove(i));
        assert(entries.remove(i).last() == last);
        assert(entries[i].0@ != entries[entries.len() - 1].0@);
        assert(entries_map(front).remove(entries[i].0@).insert(last.0@, last.1@) == entries_map(
            entries,
        ).remove(entries[i].0@));
    }
}

/// The JSON array that holds `labels`, in order.
pub uninterp spec fn labels_json(labels: Seq<Seq<char>>) -> Seq<char>;

/// What reading `raw` as a JSON array of strings gives: the strings, or the
/// reason why it is none.
pub uninterp spec fn labels_in(raw: Seq<char>) -> Result<Seq<Seq<char>>, Seq<char>>;

/// The JSON object that holds `fields`.
pub uninterp spec fn fields_json(fields: Map<Seq<char>, JsonView>) -> Seq<char>;

/// What reading `raw` as a JSON object gives: its members, or the reason why it
/// is none.
pub uninterp spec fn fields_in(raw: Seq<char>) -> Result<Map<Seq<char>, JsonView>, Seq<char>>;

/// The JSON text of `value`.
pub uninterp spec fn value_json(value: JsonView) -> Seq<char>;

/// What reading `raw` as JSON gives: the value, or the reason why it is none.
pub uninterp spec fn value_in(raw: Seq<char>) -> Result<JsonView, Seq<char>>;

/// Whether a value outlasts being written and read alone: `null` and strings do,
/// and any other value does whose text reads back to itself. Most texts that the
/// JSON library writes are such; the exceptions are numbers with a fraction that
/// it reads with a rounding error, and values nested so deep that it refuses to
/// read them.
pub open spec fn lasting_alone(value: JsonView) -> bool {
    value matches JsonView::Encoded(text) ==> holds_value(text, value)
}

/// Whether a value outlasts being written and read as a custom field, which lies
/// one level deeper: its text reads back to itself alone and inside an array.
pub open spec fn lasting(value: JsonView) -> bool {
    value matches JsonView::Encoded(text) ==> {
        &&& holds_value(text, value)
        &&& holds_value("["@ + text + "]"@, JsonView::Encoded("["@ + text + "]"@))
    }
}

/// Whether every field outlasts being written and read.
pub open spec fn lasting_fields(fields: Map<Seq<char>, JsonView>) -> bool {
    forall|k: Seq<char>| #[trigger] fields.contains_key(k) ==> lasting(fields[k])
}

/// Whether `read` has the fields of `fields`, and the same values where those
/// outlast being written and read.
pub open spec fn same_lasting_fields(
    read: Map<Seq<char>, JsonView>,
    fields: Map<Seq<char>, JsonView>,
) -> bool {
    &&& forall|k: Seq<char>| #[trigger] read.contains_key(k) <==> fields.contains_key(k)
    &&& forall|k: Seq<char>| #[trigger]
        fields.contains_key(k) && lasting(fields[k]) ==> read[k] == fields[k]
}

/// Whether `raw`, read as a JSON object, keeps `fields`: what is read has the
/// same names, and the same values where those outlast it; and it can be read if
/// all values outlast it.
pub open spec fn keeps_fields(raw: Seq<char>, fields: Map<Seq<char>, JsonView>) -> bool {
    &&& fields_in(raw) matches Ok(read) ==> same_lasting_fields(read, fields)
    &&& lasting_fields(fields) ==> fields_in(raw) is Ok
}

/// Fields that all outlast being written and read are read back.
pub proof fn lemma_lasting_fields_read_back(raw: Seq<char>, fields: Map<Seq<char>, JsonView>)
    requires
        keeps_fields(raw, fields),
        lasting_fields(fields),
    ensures
        holds_fields(raw, fields),
{
    assert(fields_in(raw)->Ok_0 =~= fields);
}

/// Whether `raw`, read as a JSON array of strings, gives `labels`.
pub open spec fn holds_labels(raw: Seq<char>, labels: Seq<Seq<char>>) -> bool {
    labels_in(raw) matches Ok(read) && read == labels
}

/// Whether `raw`, read as a JSON object, gives `fields`.
pub open spec fn holds_fields(raw: Seq<char>, fields: Map<Seq<char>, JsonView>) -> bool {
    fields_in(raw) matches Ok(read) && read == fields
}

/// Whether `raw`, read as JSON, gives `value`.
pub open spec fn holds_value(raw: Seq<char>, value: JsonView) -> bool {
    value_in(raw) matches Ok(read) && read == value
}

/// Whether `text` can be the JSON text of `value`: that of `null` is `null`, and
/// that of a value that is neither `null` nor a string is its compact text.
pub open spec fn is_text_of(text: Seq<char>, value: JsonView) -> bool {
    match value {
        JsonView::Null => text == "null"@,
        JsonView::Text(_) => true,
        JsonView::Encoded(compact) => text == compact,
    }
}

/// `serde_json::Value::to_string`: the compact JSON text, which is named.
#[verifier::external_body]
fn value_text(value: &Value) -> (r: String)
    ensures
        r@ == compact_text(*value),
{
    value.to_string()
}

/// `serde_json::Value::clone`: the same value.
pub assume_specification[ <serde_json::Value as Clone>::clone ](value: &Value) -> (r: Value)
    ensures
        r == *value,
;

/// `serde_json::Value::is_null`: only `null` has the text `null`.
pub assume_specification[ serde_json::Value::is_null ](value: &Value) -> (r: bool)
    ensures
        r == (compact_text(*value) == "null"@),
;

/// `serde_json::Value::as_str`: the string, if the value is one, which is when
/// its text starts with a quotation mark; that text reads back as the string.
pub assume_specification[ serde_json::Value::as_str ](value: &Value) -> (r: Option<&str>)
    ensures
        r is Some == is_string_text(compact_text(*value)),
        r is Some ==> holds_value(compact_text(*value), JsonView::Text(r->0@)),
;

/// `serde_json::to_string` on a list of strings, which succeeds. The text is
/// named; reading it as an array of strings gives the list back.
#[verifier::external_body]
pub(crate) fn labels_to_json(labels: &Vec<String>) -> (r: Result<String, String>)
    ensures
        r is Ok,
        r->Ok_0@ == labels_json(texts(labels@)),
        holds_labels(r->Ok_0@, texts(labels@)),
{
    serde_json::to_string(labels).map_err(|e| e.to_string())
}

/// `serde_json::from_str` into a list of strings, with an error turned into its
/// text. The result is named.
#[verifier::external_body]
pub(crate) fn labels_from_json(raw: &str) -> (r: Result<Vec<String>, String>)
    ensures
        match (r, labels_in(raw@)) {
            (Ok(labels), Ok(expected)) => texts(labels@) == expected,
            (Err(reason), Err(expected)) => reason@ == expected,
            _ => false,
        },
{
    serde_json::from_str(raw).map_err(|e| e.to_string())
}

/// `serde_json::to_string` on the map that the entries make, which succeeds. The
/// text is named. Reading it as an object keeps the names, and the values that
/// read back to themselves, alone and one level deeper; if all do, it can be
/// read.
#[verifier::external_body]
pub(crate) fn fields_to_json(entries: &Vec<(String, JsonValue)>) -> (r: Result<String, String>)
    requires
        sorted_keys(entries@),
    ensures
        r is Ok,
        r->Ok_0@ == fields_json(entries_map(entries@)),
        keeps_fields(r->Ok_0@, entries_map(entries@)),
{
    let fields: BTreeMap<&String, Value> = entries.iter()
        .map(|(key, value)| match value {
            JsonValue::Null => (key, Value::Null),
            JsonValue::Text(text) => (key, Value::String(text.clone())),
            JsonValue::Other(data) => (key, data.value.clone()),
        })
        .collect();
    serde_json::to_string(&fields).map_err(|e| e.to_string())
}

/// `serde_json::from_str` into a map of values, each told apart as `null`, a
/// string, or another value; an error is turned into its text. The result is
/// named. The entries come in the order of
/// their keys, and no key comes twice.
#[verifier::external_body]
pub(crate) fn fields_from_json(raw: &str) -> (r: Result<Vec<(String, JsonValue)>, String>)
    ensures
        match (r, fields_in(raw@)) {
            (Ok(entries), Ok(expected)) => sorted_keys(entries@) && entries_map(entries@) == expected,
            (Err(reason), Err(expected)) => reason@ == expected,
            _ => false,
        },
{
    let fields: BTreeMap<String, Value> = serde_json::from_str(raw).map_err(|e| e.to_string())?;
    Ok(fields.into_iter()
        .map(|(key, value)| match value {
            Value::Null => (key, JsonValue::Null),
            Value::String(text) => (key, JsonValue::Text(text)),
            other => (key, JsonValue::Other(JsonData { value: other })),
        })
        .collect())
}

/// `serde_json::to_string` on one value, which succeeds. The text is named; of
/// `null` it is `null`, of a value that is neither `null` nor a string its
/// compact text. On `null`, on a string, and on a value whose text reads back to itself, reading
/// the text gives the value back.
#[verifier::external_body]
pub(crate) fn value_to_json(value: &JsonValue) -> (r: Result<String, String>)
    ensures
        r is Ok,
        r->Ok_0@ == value_json(value@),
        is_text_of(r->Ok_0@, value@),
        lasting_alone(value@) ==> holds_value(r->Ok_0@, value@),
{
    let value = match value {
        JsonValue::Null => Value::Null,
        JsonValue::Text(text) => Value::String(text.clone()),
        JsonValue::Other(data) => data.value.clone(),
    };
    serde_json::to_string(&value).map_err(|e| e.to_string())
}

/// `serde_json::from_str` into one value, told apart as `null`, a string, or
/// another value; an error is turned into its text. The result is named.
#[verifier::external_body]
pub(crate) fn value_from_json(raw: &str) -> (r: Result<JsonValue, String>)
    ensures
        match (r, value_in(raw@)) {
            (Ok(value), Ok(expected)) => value@ == expected,
            (Err(reason), Err(expected)) => reason@ == expected,
            _ => false,
        },
{
    let value: Value = serde_json::from_str(raw).map_err(|e| e.to_string())?;
    Ok(match value {
        Value::Null => JsonValue::Null,
        Value::String(text) => JsonValue::Text(text),
        other => JsonValue::Other(JsonData { value: other }),
    })
}

} // verus!
