//! JSON documents as plain data, and the calls into `serde_json` and `serde_qs` that read and
//! write them.

use crate::error::{DiffError, DiffErrorView};
use crate::text::same_text;
use vstd::prelude::*;

verus! {

/// A JSON number, held as `serde_json` holds it.
#[verifier::external_type_specification]
#[verifier::external_body]
pub struct ExNumber(serde_json::Number);

/// A JSON document as `serde_json` holds it.
#[verifier::external_type_specification]
#[verifier::external_body]
pub struct ExValue(serde_json::Value);

/// Why `serde_json` could not read or write a document.
#[verifier::external_type_specification]
#[verifier::external_body]
pub struct ExJsonError(serde_json::Error);

/// Why `serde_qs` could not write a document.
#[verifier::external_type_specification]
#[verifier::external_body]
pub struct ExQueryError(serde_qs::Error);

/// `Number::clone` returns an equal number.
pub assume_specification[ <serde_json::Number as Clone>::clone ](n: &serde_json::Number) -> (r:
    serde_json::Number)
    ensures
        r == *n,
;

/// A JSON document. An object is the list of its entries; where a key stands twice, the
/// later entry counts.
#[derive(Debug, PartialEq, Eq)]
pub enum JsonValue {
    Null,
    Bool(bool),
    Number(serde_json::Number),
    String(String),
    Array(Vec<JsonValue>),
    Object(Vec<(String, JsonValue)>),
}

/// The mathematical content of a [`JsonValue`].
pub enum JsonData {
    Null,
    Bool(bool),
    Number(serde_json::Number),
    String(Seq<char>),
    Array(Seq<JsonData>),
    Object(Seq<(Seq<char>, JsonData)>),
}

impl View for JsonValue {
    type V = JsonData;

    open spec fn view(&self) -> JsonData
        decreases self,
    {
        match self {
            JsonValue::Null => JsonData::Null,
            JsonValue::Bool(b) => JsonData::Bool(*b),
            JsonValue::Number(n) => JsonData::Number(*n),
            JsonValue::String(s) => JsonData::String(s@),
            JsonValue::Array(items) => JsonData::Array(
                Seq::new(
                    items.len() as nat,
                    |i: int| if 0 <= i < items.len() { items[i].view() } else { JsonData::Null },
                ),
            ),
            JsonValue::Object(entries) => JsonData::Object(
                Seq::new(
                    entries.len() as nat,
                    |i: int|
                        (
                            entries[i].0@,
                            if 0 <= i < entries.len() {
                                entries[i].1.view()
                            } else {
                                JsonData::Null
                            },
                        ),
                ),
            ),
        }
    }
}

/// The entries of an object as mathematical values.
pub open spec fn entries_view(entries: Seq<(String, JsonValue)>) -> Seq<(Seq<char>, JsonData)> {
    entries.map_values(|e: (String, JsonValue)| (e.0@, e.1@))
}

/// The items of an array as mathematical values.
pub open spec fn items_view(items: Seq<JsonValue>) -> Seq<JsonData> {
    items.map_values(|v: JsonValue| v@)
}

/// The view of an object is the view of its entries, and the view of an array that of its
/// items.
pub proof fn lemma_view_of_parts(v: JsonValue)
    ensures
        v matches JsonValue::Object(entries) ==> v@ == JsonData::Object(entries_view(entries@)),
        v matches JsonValue::Array(items) ==> v@ == JsonData::Array(items_view(items@)),
{
    match v {
        JsonValue::Object(entries) => {
            assert(v@->Object_0 =~= entries_view(entries@));
        },
        JsonValue::Array(items) => {
            assert(v@->Array_0 =~= items_view(items@));
        },
        _ => {},
    }
}

impl Clone for JsonValue {
    #[verifier::loop_isolation(false)]
    fn clone(&self) -> (r: Self)
        ensures
            r@ == self@,
        decreases self,
    {
        match self {
            JsonValue::Null => JsonValue::Null,
            JsonValue::Bool(b) => JsonValue::Bool(*b),
            JsonValue::Number(n) => JsonValue::Number(n.clone()),
            JsonValue::String(s) => JsonValue::String(s.clone()),
            JsonValue::Array(items) => {
                let mut out: Vec<JsonValue> = Vec::new();
                let mut i: usize = 0;
                while i < items.len()
                    invariant
                        i <= items.len(),
                        out@.len() == i,
                        forall|j: int| 0 <= j < i ==> out@[j]@ == items@[j]@,
                    decreases items.len() - i,
                {
                    out.push(items[i].clone());
                    i += 1;
                }
                assert(JsonValue::Array(out)@->Array_0 =~= self@->Array_0);
                JsonValue::Array(out)
            },
            JsonValue::Object(entries) => {
                let mut out: Vec<(String, JsonValue)> = Vec::new();
                let mut i: usize = 0;
                while i < entries.len()
                    invariant
                        i <= entries.len(),
                        out@.len() == i,
                        forall|j: int|
                            0 <= j < i ==> out@[j].0@ == entries@[j].0@ && out@[j].1@
                                == entries@[j].1@,
                    decreases entries.len() - i,
                {
                    out.push((entries[i].0.clone(), entries[i].1.clone()));
                    i += 1;
                }
                assert(JsonValue::Object(out)@->Object_0 =~= self@->Object_0);
                JsonValue::Object(out)
            },
        }
    }
}

/// Whether an entry stands under another key than `key`.
pub open spec fn has_other_key(key: Seq<char>) -> spec_fn((Seq<char>, JsonData)) -> bool {
    |e: (Seq<char>, JsonData)| e.0 != key
}

/// The entries of `entries` under another key than `key`.
pub open spec fn without_key(entries: Seq<(Seq<char>, JsonData)>, key: Seq<char>) -> Seq<
    (Seq<char>, JsonData),
> {
    entries.filter(has_other_key(key))
}

/// `doc` with the field `key` set to `value`, where `doc` is an object: the entries under
/// another key stay as they are and in their order, and the new entry follows them.
/// Another document stays as it is.
pub open spec fn with_field(doc: JsonData, key: Seq<char>, value: JsonData) -> JsonData {
    match doc {
        JsonData::Object(entries) => JsonData::Object(without_key(entries, key).push((key, value))),
        other => other,
    }
}

/// `doc` without the field `key`, where `doc` is an object. Another document stays as it
/// is.
pub open spec fn without_field(doc: JsonData, key: Seq<char>) -> JsonData {
    match doc {
        JsonData::Object(entries) => JsonData::Object(without_key(entries, key)),
        other => other,
    }
}

/// `doc` without each of the fields `keys`.
pub open spec fn without_fields(doc: JsonData, keys: Seq<Seq<char>>) -> JsonData
    decreases keys.len(),
{
    if keys.len() == 0 {
        doc
    } else {
        without_field(without_fields(doc, keys.drop_last()), keys.last())
    }
}

/// The value of the field `key` of an object with these entries: that of the last entry under
/// the key.
pub open spec fn field_of(entries: Seq<(Seq<char>, JsonData)>, key: Seq<char>) -> Option<JsonData>
    decreases entries.len(),
{
    if entries.len() == 0 {
        None
    } else if entries.last().0 == key {
        Some(entries.last().1)
    } else {
        field_of(entries.drop_last(), key)
    }
}

/// What one more entry adds to the entries under another key than `key`.
pub proof fn lemma_without_key_push(
    entries: Seq<(Seq<char>, JsonData)>,
    last: (Seq<char>, JsonData),
    key: Seq<char>,
)
    ensures
        without_key(entries.push(last), key) == if last.0 != key {
            without_key(entries, key).push(last)
        } else {
            without_key(entries, key)
        },
{
    entries.lemma_filter_push(last, has_other_key(key));
}

/// Where nothing stands under a key, taking away the entries under it changes nothing.
pub proof fn lemma_without_absent_key(entries: Seq<(Seq<char>, JsonData)>, key: Seq<char>)
    requires
        forall|i: int| 0 <= i < entries.len() ==> (#[trigger] entries[i]).0 != key,
    ensures
        without_key(entries, key) == entries,
    decreases entries.len(),
{
    if entries.len() == 0 {
        assert(without_key(entries, key) =~= entries) by {
            reveal(Seq::filter);
        }
    } else {
        let rest = entries.drop_last();
        let last = entries.last();
        assert(entries =~= rest.push(last));
        assert forall|i: int| 0 <= i < rest.len() implies (#[trigger] rest[i]).0 != key by {
            assert(rest[i] == entries[i]);
        }
        lemma_without_key_push(rest, last, key);
        lemma_without_absent_key(rest, key);
    }
}

/// Taking away the entries under one key changes nothing under another key.
pub proof fn lemma_field_of_without_key(
    entries: Seq<(Seq<char>, JsonData)>,
    removed: Seq<char>,
    key: Seq<char>,
)
    requires
        key != removed,
    ensures
        field_of(without_key(entries, removed), key) == field_of(entries, key),
    decreases entries.len(),
{
    if entries.len() == 0 {
        assert(without_key(entries, removed) =~= Seq::empty()) by {
            reveal(Seq::filter);
        }
    } else {
        let rest = entries.drop_last();
        let last = entries.last();
        assert(entries =~= rest.push(last));
        lemma_without_key_push(rest, last, removed);
        lemma_field_of_without_key(rest, removed, key);
        if last.0 != removed {
            let kept = without_key(rest, removed).push(last);
            assert(kept.drop_last() =~= without_key(rest, removed));
            assert(kept.last() == last);
        }
    }
}

/// After a field is taken away nothing stands under its key.
pub proof fn lemma_field_of_removed(entries: Seq<(Seq<char>, JsonData)>, key: Seq<char>)
    ensures
        field_of(without_key(entries, key), key) is None,
    decreases entries.len(),
{
    if entries.len() == 0 {
        assert(without_key(entries, key) =~= Seq::empty()) by {
            reveal(Seq::filter);
        }
    } else {
        let rest = entries.drop_last();
        let last = entries.last();
        assert(entries =~= rest.push(last));
        lemma_without_key_push(rest, last, key);
        lemma_field_of_removed(rest, key);
        if last.0 != key {
            let kept = without_key(rest, key).push(last);
            assert(kept.drop_last() =~= without_key(rest, key));
            assert(kept.last() == last);
        }
    }
}

/// After a field is set, its value stands under its key, and under every other key stands
/// what stood there before.
pub proof fn lemma_field_of_with_field(
    entries: Seq<(Seq<char>, JsonData)>,
    set: Seq<char>,
    value: JsonData,
    key: Seq<char>,
)
    ensures
        with_field(JsonData::Object(entries), set, value) matches JsonData::Object(after)
            && field_of(after, key) == if key == set {
            Some(value)
        } else {
            field_of(entries, key)
        },
{
    let kept = without_key(entries, set);
    assert(kept.push((set, value)).drop_last() =~= kept);
    if key != set {
        lemma_field_of_without_key(entries, set, key);
    }
}

/// After fields are taken away from an object, nothing stands under any of their keys, and
/// under every other key stands what stood there before.
pub proof fn lemma_field_of_without_fields(
    entries: Seq<(Seq<char>, JsonData)>,
    keys: Seq<Seq<char>>,
    key: Seq<char>,
)
    ensures
        without_fields(JsonData::Object(entries), keys) matches JsonData::Object(after)
            && field_of(after, key) == if keys.contains(key) {
            None
        } else {
            field_of(entries, key)
        },
    decreases keys.len(),
{
    if keys.len() > 0 {
        let before = without_fields(JsonData::Object(entries), keys.drop_last());
        lemma_field_of_without_fields(entries, keys.drop_last(), key);
        if keys.last() == key {
            lemma_field_of_removed(before->Object_0, key);
        } else {
            lemma_field_of_without_key(before->Object_0, keys.last(), key);
            if keys.contains(key) {
                let i = choose|i: int| 0 <= i < keys.len() && keys[i] == key;
                assert(keys.drop_last()[i] == key);
            } else {
                assert forall|i: int| 0 <= i < keys.drop_last().len() implies keys.drop_last()[i]
                    != key by {
                    assert(keys[i] == keys.drop_last()[i]);
                }
            }
        }
    }
}

/// Copies the entries under another key than `key`.
fn entries_without(entries: &Vec<(String, JsonValue)>, key: &str) -> (out: Vec<(String, JsonValue)>)
    ensures
        entries_view(out@) == without_key(entries_view(entries@), key@),
{
    let ghost all = entries_view(entries@);
    let ghost pred = has_other_key(key@);
    let mut out: Vec<(String, JsonValue)> = Vec::new();
    let mut i: usize = 0;
    assert(all.take(0).filter(pred) =~= Seq::empty()) by {
        reveal(Seq::filter);
    }
    while i < entries.len()
        invariant
            i <= entries.len(),
            all == entries_view(entries@),
            pred == has_other_key(key@),
            entries_view(out@) == all.take(i as int).filter(pred),
        decreases entries.len() - i,
    {
        let ghost before = entries_view(out@);
        proof {
            all.take(i as int).lemma_filter_push(all[i as int], pred);
            assert(all.take(i + 1) =~= all.take(i as int).push(all[i as int]));
        }
        if !same_text(entries[i].0.as_str(), key) {
            out.push((entries[i].0.clone(), entries[i].1.clone()));
            assert(entries_view(out@) =~= before.push(all[i as int]));
        }
        i += 1;
    }
    assert(all.take(entries.len() as int) =~= all);
    out
}

/// Whether a document holds nothing: it is `null` or an object without entries.
pub fn is_empty_value(v: &JsonValue) -> (r: bool)
    ensures
        r == (v@ is Null || v@ == JsonData::Object(Seq::empty())),
{
    match v {
        JsonValue::Null => true,
        JsonValue::Object(entries) => {
            proof {
                lemma_view_of_parts(*v);
                assert(entries@.len() == 0 ==> entries_view(entries@) =~= Seq::empty());
            }
            entries.len() == 0
        },
        _ => false,
    }
}

/// The query parameters of a profile that names none: the object without entries.
pub fn default_params() -> (r: JsonValue)
    ensures
        r@ == JsonData::Object(Seq::empty()),
{
    JsonValue::empty_object()
}

impl JsonValue {
    /// The object without entries.
    pub fn empty_object() -> (r: JsonValue)
        ensures
            r@ == JsonData::Object(Seq::empty()),
    {
        let r = JsonValue::Object(Vec::new());
        proof {
            lemma_view_of_parts(r);
            assert(r@->Object_0 =~= Seq::empty());
        }
        r
    }

    /// Whether the document is an object.
    pub fn is_object(&self) -> (r: bool)
        ensures
            r == (self@ is Object),
    {
        match self {
            JsonValue::Object(_) => true,
            _ => false,
        }
    }

    /// Sets the field `key` of an object to `value`; any other document is handed back as it
    /// is.
    pub fn set_field(self, key: &str, value: JsonValue) -> (r: JsonValue)
        ensures
            r@ == with_field(self@, key@, value@),
    {
        match self {
            JsonValue::Object(entries) => {
                let mut out = entries_without(&entries, key);
                let ghost kept = entries_view(out@);
                out.push((key.to_owned(), value));
                let r = JsonValue::Object(out);
                proof {
                    lemma_view_of_parts(self);
                    lemma_view_of_parts(r);
                    assert(entries_view(out@) =~= kept.push((key@, value@)));
                }
                r
            },
            other => other,
        }
    }

    /// Removes the field `key` from an object; any other document is handed back as it is.
    pub fn remove_field(self, key: &str) -> (r: JsonValue)
        ensures
            r@ == without_field(self@, key@),
    {
        match self {
            JsonValue::Object(entries) => {
                let out = entries_without(&entries, key);
                let r = JsonValue::Object(out);
                proof {
                    lemma_view_of_parts(self);
                    lemma_view_of_parts(r);
                }
                r
            },
            other => other,
        }
    }

    /// Removes each of the fields `keys` from an object; any other document is handed back as
    /// it is.
    pub fn remove_fields(self, keys: &Vec<String>) -> (r: JsonValue)
        ensures
            r@ == without_fields(self@, keys@.map_values(|k: String| k@)),
    {
        let ghost all = keys@.map_values(|k: String| k@);
        let ghost start = self@;
        let mut doc = self;
        let mut i: usize = 0;
        while i < keys.len()
            invariant
                i <= keys.len(),
                all == keys@.map_values(|k: String| k@),
                doc@ == without_fields(start, all.take(i as int)),
            decreases keys.len() - i,
        {
            proof {
                assert(all.take(i + 1).drop_last() =~= all.take(i as int));
                assert(all.take(i + 1).last() == keys@[i as int]@);
            }
            doc = doc.remove_field(keys[i].as_str());
            i += 1;
        }
        assert(all.take(keys.len() as int) =~= all);
        doc
    }
}

/// The document that `serde_json` reads from `text`, or `None` where it reads none.
pub uninterp spec fn spec_json_parse(text: Seq<char>) -> Option<JsonData>;

/// The text that `serde_json` writes for `doc` on one line, or `None` where it fails.
pub uninterp spec fn spec_json_text(doc: JsonData) -> Option<Seq<char>>;

/// The text that `serde_json` writes for `doc` on indented lines, or `None` where it fails.
pub uninterp spec fn spec_json_pretty(doc: JsonData) -> Option<Seq<char>>;

/// The query string that `serde_qs` writes for `doc`, or `None` where it fails.
pub uninterp spec fn spec_query_text(doc: JsonData) -> Option<Seq<char>>;

/// Turns a document of `serde_json` into a [`JsonValue`], variant by variant; the entries of
/// an object come in the order in which its map hands them out.
#[verifier::external_body]
fn from_serde(v: serde_json::Value) -> JsonValue {
    match v {
        serde_json::Value::Null => JsonValue::Null,
        serde_json::Value::Bool(b) => JsonValue::Bool(b),
        serde_json::Value::Number(n) => JsonValue::Number(n),
        serde_json::Value::String(s) => JsonValue::String(s),
        serde_json::Value::Array(a) => JsonValue::Array(a.into_iter().map(from_serde).collect()),
        serde_json::Value::Object(o) => JsonValue::Object(
            o.into_iter().map(|(k, v)| (k, from_serde(v))).collect(),
        ),
    }
}

/// Turns a [`JsonValue`] into a document of `serde_json`, variant by variant; the entries of
/// an object are put into its map in their order.
#[verifier::external_body]
fn to_serde(v: &JsonValue) -> serde_json::Value {
    match v {
        JsonValue::Null => serde_json::Value::Null,
        JsonValue::Bool(b) => serde_json::Value::Bool(*b),
        JsonValue::Number(n) => serde_json::Value::Number(n.clone()),
        JsonValue::String(s) => serde_json::Value::String(s.clone()),
        JsonValue::Array(a) => serde_json::Value::Array(a.iter().map(to_serde).collect()),
        JsonValue::Object(o) => serde_json::Value::Object(
            o.iter().map(|(k, v)| (k.clone(), to_serde(v))).collect(),
        ),
    }
}

/// `serde_json::from_str`, reading a `serde_json::Value`: the result is named
/// [`spec_json_parse`], nothing more is claimed of it.
#[verifier::external_body]
fn json_from_str(text: &str) -> (r: Result<JsonValue, serde_json::Error>)
    ensures
        r matches Ok(v) ==> spec_json_parse(text@) == Some(v@),
        r is Err ==> spec_json_parse(text@) is None,
{
    serde_json::from_str::<serde_json::Value>(text).map(from_serde)
}

/// `serde_json::to_string`: the result is named [`spec_json_text`], nothing more is claimed
/// of it.
#[verifier::external_body]
fn json_to_string(doc: &JsonValue) -> (r: Result<String, serde_json::Error>)
    ensures
        r matches Ok(s) ==> spec_json_text(doc@) == Some(s@),
        r is Err ==> spec_json_text(doc@) is None,
{
    serde_json::to_string(&to_serde(doc))
}

/// `serde_json::to_string_pretty`: the result is named [`spec_json_pretty`], nothing more is
/// claimed of it.
#[verifier::external_body]
fn json_to_string_pretty(doc: &JsonValue) -> (r: Result<String, serde_json::Error>)
    ensures
        r matches Ok(s) ==> spec_json_pretty(doc@) == Some(s@),
        r is Err ==> spec_json_pretty(doc@) is None,
{
    serde_json::to_string_pretty(&to_serde(doc))
}

/// `serde_qs::to_string`: the result is named [`spec_query_text`], nothing more is claimed of
/// it.
#[verifier::external_body]
fn query_to_string(doc: &JsonValue) -> (r: Result<String, serde_qs::Error>)
    ensures
        r matches Ok(s) ==> spec_query_text(doc@) == Some(s@),
        r is Err ==> spec_query_text(doc@) is None,
{
    serde_qs::to_string(&to_serde(doc))
}

/// The value that an override text stands for, given what reading it as JSON gave: the number
/// or the boolean that was read, and in every other case the text itself as a string.
pub open spec fn scalar_value(text: Seq<char>, parsed: Option<JsonData>) -> JsonData {
    match parsed {
        Some(JsonData::Number(n)) => JsonData::Number(n),
        Some(JsonData::Bool(b)) => JsonData::Bool(b),
        _ => JsonData::String(text),
    }
}

/// The value that `text` stands for, given what reading it as JSON gave.
pub fn scalar_from(text: &str, parsed: Option<JsonValue>) -> (r: JsonValue)
    ensures
        r@ == scalar_value(
            text@,
            match parsed {
                Some(v) => Some(v@),
                None => None,
            },
        ),
{
    match parsed {
        Some(JsonValue::Number(n)) => JsonValue::Number(n),
        Some(JsonValue::Bool(b)) => JsonValue::Bool(b),
        _ => JsonValue::String(text.to_owned()),
    }
}

impl JsonValue {
    /// Reads a document from JSON text.
    pub fn parse(text: &str) -> (r: Result<JsonValue, DiffError>)
        ensures
            match r {
                Ok(v) => spec_json_parse(text@) == Some(v@),
                Err(e) => spec_json_parse(text@) is None && e@ == DiffErrorView::BodyDecodeError,
            },
    {
        match json_from_str(text) {
            Ok(v) => Ok(v),
            Err(_) => Err(DiffError::BodyDecodeError),
        }
    }

    /// The value that an override text stands for: a number or a boolean where the text reads
    /// as one, else the text as a string.
    pub fn parse_scalar(text: &str) -> (r: JsonValue)
        ensures
            r@ == scalar_value(text@, spec_json_parse(text@)),
    {
        match json_from_str(text) {
            Ok(v) => scalar_from(text, Some(v)),
            Err(_) => scalar_from(text, None),
        }
    }

    /// The document as JSON text on one line.
    pub fn to_text(&self) -> (r: Result<String, DiffError>)
        ensures
            match r {
                Ok(s) => spec_json_text(self@) == Some(s@),
                Err(e) => spec_json_text(self@) is None && e@ == DiffErrorView::BodyEncodeError,
            },
    {
        match json_to_string(self) {
            Ok(s) => Ok(s),
            Err(_) => Err(DiffError::BodyEncodeError),
        }
    }

    /// The document as JSON text on indented lines.
    pub fn to_pretty_text(&self) -> (r: Result<String, DiffError>)
        ensures
            match r {
                Ok(s) => spec_json_pretty(self@) == Some(s@),
                Err(e) => spec_json_pretty(self@) is None && e@ == DiffErrorView::BodyEncodeError,
            },
    {
        match json_to_string_pretty(self) {
            Ok(s) => Ok(s),
            Err(_) => Err(DiffError::BodyEncodeError),
        }
    }

    /// The document as a query string.
    pub fn to_query_text(&self) -> (r: Result<String, DiffError>)
        ensures
            match r {
                Ok(s) => spec_query_text(self@) == Some(s@),
                Err(e) => spec_query_text(self@) is None && e@ == DiffErrorView::BodyEncodeError,
            },
    {
        match query_to_string(self) {
            Ok(s) => Ok(s),
            Err(_) => Err(DiffError::BodyEncodeError),
        }
    }
}

} // verus!
