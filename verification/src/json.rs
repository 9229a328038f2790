//! JSON values as plain data, their lookup operations, and their compact text.

use crate::decimal::{decimal, decimal_text};
use crate::text::{
    byte_len, comes_before, lemma_text_before_total, lemma_text_before_transitive, same_text,
    text_before, utf8_len,
};
use serde_json::Value;
use vstd::prelude::*;
use vstd::string::*;
use vstd::utf8::encode_utf8;

verus! {

/// A number as JSON writes it: an integer, or any other numeral by its text.
#[derive(Debug, PartialEq, Eq)]
pub enum JsonNumber {
    Unsigned(u64),
    Negative(i64),
    Real(String),
}

/// One JSON value.
#[derive(Debug, PartialEq, Eq)]
pub enum JsonValue {
    Null,
    Bool(bool),
    Number(JsonNumber),
    Text(String),
    Array(Vec<JsonValue>),
    Object(JsonObject),
}

/// The entries of a JSON object in the order in which they are written.
#[derive(Debug, PartialEq, Eq)]
pub struct JsonObject {
    pub entries: Vec<JsonEntry>,
}

/// One key of a JSON object with its value.
#[derive(Debug, PartialEq, Eq)]
pub struct JsonEntry {
    pub key: String,
    pub value: JsonValue,
}

/// The model of a JSON number.
pub enum Numeral {
    Integer(int),
    Real(Seq<char>),
}

/// The model of a JSON value.
pub enum Json {
    Null,
    Bool(bool),
    Number(Numeral),
    Text(Seq<char>),
    Array(Seq<Json>),
    Object(Seq<(Seq<char>, Json)>),
}

pub open spec fn number_model(number: JsonNumber) -> Numeral {
    match number {
        JsonNumber::Unsigned(value) => Numeral::Integer(value as int),
        JsonNumber::Negative(value) => Numeral::Integer(value as int),
        JsonNumber::Real(text) => Numeral::Real(text@),
    }
}

pub open spec fn json_model(value: JsonValue) -> Json
    decreases value,
{
    match value {
        JsonValue::Null => Json::Null,
        JsonValue::Bool(flag) => Json::Bool(flag),
        JsonValue::Number(number) => Json::Number(number_model(number)),
        JsonValue::Text(text) => Json::Text(text@),
        JsonValue::Array(items) => Json::Array(
            Seq::new(
                items@.len(),
                |i: int|
                    if 0 <= i < items@.len() {
                        json_model(items@[i])
                    } else {
                        Json::Null
                    },
            ),
        ),
        JsonValue::Object(object) => Json::Object(
            Seq::new(
                object.entries@.len(),
                |i: int|
                    if 0 <= i < object.entries@.len() {
                        (object.entries@[i].key@, json_model(object.entries@[i].value))
                    } else {
                        (Seq::empty(), Json::Null)
                    },
            ),
        ),
    }
}

impl View for JsonValue {
    type V = Json;

    open spec fn view(&self) -> Json {
        json_model(*self)
    }
}

impl View for JsonObject {
    type V = Seq<(Seq<char>, Json)>;

    open spec fn view(&self) -> Seq<(Seq<char>, Json)> {
        Seq::new(
            self.entries@.len(),
            |i: int| (self.entries@[i].key@, self.entries@[i].value@),
        )
    }
}

/// An object without entries.
pub open spec fn no_fields() -> Seq<(Seq<char>, Json)> {
    Seq::empty()
}

/// The models of a sequence of values.
pub open spec fn json_models(items: Seq<JsonValue>) -> Seq<Json> {
    Seq::new(items.len(), |i: int| items[i]@)
}

/// The model of an unsigned number.
pub open spec fn json_count(value: nat) -> Json {
    Json::Number(Numeral::Integer(value as int))
}

/// The model of an array of texts.
pub open spec fn json_texts(items: Seq<Seq<char>>) -> Json {
    Json::Array(Seq::new(items.len(), |i: int| Json::Text(items[i])))
}

/// The model of a text that may be absent.
pub open spec fn json_optional_text(item: Option<Seq<char>>) -> Json {
    match item {
        Some(text) => Json::Text(text),
        None => Json::Null,
    }
}

/// The value of the first entry under `key`.
pub open spec fn entry(entries: Seq<(Seq<char>, Json)>, key: Seq<char>) -> Option<Json>
    decreases entries.len(),
{
    if entries.len() == 0 {
        None
    } else if entries[0].0 == key {
        Some(entries[0].1)
    } else {
        entry(entries.skip(1), key)
    }
}

/// The entries with `value` under `key`: in place of the value that is there,
/// else in front of the first greater key.
pub open spec fn with_entry(
    entries: Seq<(Seq<char>, Json)>,
    key: Seq<char>,
    value: Json,
) -> Seq<(Seq<char>, Json)>
    decreases entries.len(),
{
    if entries.len() == 0 {
        seq![(key, value)]
    } else if entries[0].0 == key {
        seq![(key, value)] + entries.skip(1)
    } else if text_before(key, entries[0].0) {
        seq![(key, value)] + entries
    } else {
        seq![entries[0]] + with_entry(entries.skip(1), key, value)
    }
}

/// The entries of an object that keeps its keys in order, filled in turn: a
/// later value under a key replaces an earlier one.
pub open spec fn by_key(fields: Seq<(Seq<char>, Json)>) -> Seq<(Seq<char>, Json)>
    decreases fields.len(),
{
    if fields.len() == 0 {
        seq![]
    } else {
        with_entry(by_key(fields.drop_last()), fields.last().0, fields.last().1)
    }
}

/// The value with the keys of every object in it in order.
pub open spec fn keyed(value: Json) -> Json
    decreases value,
{
    match value {
        Json::Array(items) => Json::Array(
            Seq::new(
                items.len(),
                |i: int|
                    if 0 <= i < items.len() {
                        keyed(items[i])
                    } else {
                        Json::Null
                    },
            ),
        ),
        Json::Object(entries) => Json::Object(by_key(keyed_entries(entries))),
        _ => value,
    }
}

/// The entries with the keys of every object in their values in order.
pub open spec fn keyed_entries(entries: Seq<(Seq<char>, Json)>) -> Seq<(Seq<char>, Json)>
    decreases entries,
{
    Seq::new(
        entries.len(),
        |i: int|
            if 0 <= i < entries.len() {
                (entries[i].0, keyed(entries[i].1))
            } else {
                (Seq::empty(), Json::Null)
            },
    )
}

/// Whether every text and every key in a value takes at most `max` bytes.
pub open spec fn texts_within(value: Json, max: nat) -> bool
    decreases value,
{
    match value {
        Json::Text(text) => byte_len(text) <= max,
        Json::Array(items) => forall|i: int|
            0 <= i < items.len() ==> texts_within(#[trigger] items[i], max),
        Json::Object(entries) => entries_within(entries, max),
        _ => true,
    }
}

/// Whether every text and every key in some entries takes at most `max` bytes.
pub open spec fn entries_within(entries: Seq<(Seq<char>, Json)>, max: nat) -> bool
    decreases entries,
{
    forall|i: int|
        0 <= i < entries.len() ==> byte_len((#[trigger] entries[i]).0) <= max && texts_within(
            entries[i].1,
            max,
        )
}

/// Whether the keys of an object stand in strictly increasing order.
pub open spec fn keys_in_order(entries: Seq<(Seq<char>, Json)>) -> bool {
    forall|i: int, j: int|
        0 <= i < j < entries.len() ==> text_before(
            (#[trigger] entries[i]).0,
            (#[trigger] entries[j]).0,
        )
}

/// The member of an object under `key`; no other value has members.
pub open spec fn member(value: Json, key: Seq<char>) -> Option<Json> {
    match value {
        Json::Object(entries) => entry(entries, key),
        _ => None,
    }
}

pub open spec fn as_text(value: Json) -> Option<Seq<char>> {
    match value {
        Json::Text(text) => Some(text),
        _ => None,
    }
}

pub open spec fn as_flag(value: Json) -> Option<bool> {
    match value {
        Json::Bool(flag) => Some(flag),
        _ => None,
    }
}

/// The unsigned 64-bit number that a value is.
pub open spec fn as_unsigned(value: Json) -> Option<nat> {
    match value {
        Json::Number(Numeral::Integer(number)) => if 0 <= number <= u64::MAX {
            Some(number as nat)
        } else {
            None
        },
        _ => None,
    }
}

pub open spec fn as_items(value: Json) -> Option<Seq<Json>> {
    match value {
        Json::Array(items) => Some(items),
        _ => None,
    }
}

proof fn lemma_with_entry_lookup(
    entries: Seq<(Seq<char>, Json)>,
    key: Seq<char>,
    value: Json,
    wanted: Seq<char>,
)
    ensures
        entry(with_entry(entries, key, value), wanted) == if wanted == key {
            Some(value)
        } else {
            entry(entries, wanted)
        },
    decreases entries.len(),
{
    let result = with_entry(entries, key, value);
    if entries.len() == 0 {
        assert(result.skip(1) =~= seq![]);
    } else if entries[0].0 == key {
        assert(result.skip(1) =~= entries.skip(1));
    } else if text_before(key, entries[0].0) {
        assert(result.skip(1) =~= entries);
    } else {
        assert(result.skip(1) =~= with_entry(entries.skip(1), key, value));
        lemma_with_entry_lookup(entries.skip(1), key, value, wanted);
    }
}

proof fn lemma_with_entry_in_order(entries: Seq<(Seq<char>, Json)>, key: Seq<char>, value: Json)
    requires
        keys_in_order(entries),
    ensures
        keys_in_order(with_entry(entries, key, value)),
        forall|floor: Seq<char>|
            #![trigger text_before(floor, key)]
            text_before(floor, key) && (forall|i: int|
                0 <= i < entries.len() ==> text_before(floor, (#[trigger] entries[i]).0)) ==> (
            forall|i: int|
                0 <= i < with_entry(entries, key, value).len() ==> text_before(
                    floor,
                    (#[trigger] with_entry(entries, key, value)[i]).0,
                )),
    decreases entries.len(),
{
    let result = with_entry(entries, key, value);
    if entries.len() == 0 {
    } else if entries[0].0 == key {
        assert forall|i: int, j: int| 0 <= i < j < result.len() implies text_before(
            (#[trigger] result[i]).0,
            (#[trigger] result[j]).0,
        ) by {
            assert(result[j] == entries[j]);
            if i > 0 {
                assert(result[i] == entries[i]);
            } else {
                assert(entries[0].0 == result[0].0);
            }
        }
        assert forall|i: int| 0 <= i < result.len() implies result[i].0 == entries[i].0 by {}
    } else if text_before(key, entries[0].0) {
        assert forall|i: int, j: int| 0 <= i < j < result.len() implies text_before(
            (#[trigger] result[i]).0,
            (#[trigger] result[j]).0,
        ) by {
            assert(result[j] == entries[j - 1]);
            if i > 0 {
                assert(result[i] == entries[i - 1]);
            } else if j > 1 {
                lemma_text_before_transitive(key, entries[0].0, entries[j - 1].0);
            }
        }
        assert forall|i: int| 1 <= i < result.len() implies result[i] == entries[i - 1] by {}
    } else {
        let rest = entries.skip(1);
        lemma_text_before_total(key, entries[0].0);
        assert forall|i: int, j: int| 0 <= i < j < rest.len() implies text_before(
            (#[trigger] rest[i]).0,
            (#[trigger] rest[j]).0,
        ) by {
            assert(rest[i] == entries[i + 1]);
            assert(rest[j] == entries[j + 1]);
        }
        lemma_with_entry_in_order(rest, key, value);
        let tail = with_entry(rest, key, value);
        assert forall|i: int| 0 <= i < rest.len() implies text_before(
            entries[0].0,
            (#[trigger] rest[i]).0,
        ) by {
            assert(rest[i] == entries[i + 1]);
        }
        assert forall|i: int, j: int| 0 <= i < j < result.len() implies text_before(
            (#[trigger] result[i]).0,
            (#[trigger] result[j]).0,
        ) by {
            assert(result[j] == tail[j - 1]);
            if i > 0 {
                assert(result[i] == tail[i - 1]);
            }
        }
        assert forall|floor: Seq<char>|
            #![trigger text_before(floor, key)]
            text_before(floor, key) && (forall|i: int|
                0 <= i < entries.len() ==> text_before(
                    floor,
                    (#[trigger] entries[i]).0,
                )) implies (forall|i: int|
            0 <= i < result.len() ==> text_before(floor, (#[trigger] result[i]).0)) by {
            assert forall|i: int| 0 <= i < rest.len() implies text_before(
                floor,
                (#[trigger] rest[i]).0,
            ) by {
                assert(rest[i] == entries[i + 1]);
            }
            assert forall|i: int| 0 <= i < result.len() implies text_before(
                floor,
                (#[trigger] result[i]).0,
            ) by {
                if i > 0 {
                    assert(result[i] == tail[i - 1]);
                }
            }
        }
    }
}

/// An object filled field by field has its keys in strictly increasing order.
pub proof fn law_by_key_in_order(fields: Seq<(Seq<char>, Json)>)
    ensures
        keys_in_order(by_key(fields)),
    decreases fields.len(),
{
    if fields.len() > 0 {
        law_by_key_in_order(fields.drop_last());
        lemma_with_entry_in_order(
            by_key(fields.drop_last()),
            fields.last().0,
            fields.last().1,
        );
    }
}

/// An object filled field by field answers a key with the last value given
/// under it.
pub proof fn law_by_key_lookup(fields: Seq<(Seq<char>, Json)>, last: int, key: Seq<char>)
    requires
        0 <= last < fields.len(),
        fields[last].0 == key,
        forall|i: int| last < i < fields.len() ==> (#[trigger] fields[i]).0 != key,
    ensures
        member(Json::Object(by_key(fields)), key) == Some(fields[last].1),
    decreases fields.len(),
{
    let head = fields.drop_last();
    lemma_with_entry_lookup(by_key(head), fields.last().0, fields.last().1, key);
    if last < head.len() {
        assert forall|i: int| last < i < head.len() implies (#[trigger] head[i]).0 != key by {
            assert(head[i] == fields[i]);
        }
        assert(fields[fields.len() - 1].0 != key);
        law_by_key_lookup(head, last, key);
    }
}

/// The last value under a key.
pub open spec fn last_under(fields: Seq<(Seq<char>, Json)>, key: Seq<char>) -> Option<Json>
    decreases fields.len(),
{
    if fields.len() == 0 {
        None
    } else if fields.last().0 == key {
        Some(fields.last().1)
    } else {
        last_under(fields.drop_last(), key)
    }
}

/// One more field answers its own key and leaves the answers to all others.
pub proof fn lemma_last_pushed()
    ensures
        forall|fields: Seq<(Seq<char>, Json)>, key: Seq<char>, value: Json, wanted: Seq<char>|
            #[trigger]
            last_under(fields.push((key, value)), wanted) == if wanted == key {
                Some(value)
            } else {
                last_under(fields, wanted)
            },
        forall|wanted: Seq<char>| #[trigger] last_under(no_fields(), wanted) == None::<Json>,
{
    assert forall|fields: Seq<(Seq<char>, Json)>, key: Seq<char>, value: Json, wanted: Seq<char>|
        #[trigger]
        last_under(fields.push((key, value)), wanted) == if wanted == key {
            Some(value)
        } else {
            last_under(fields, wanted)
        } by {
        assert(fields.push((key, value)).drop_last() =~= fields);
    }
}

/// An object filled field by field answers every key with the last value given
/// under it, and a key under which none was given with none.
pub proof fn law_filled_object_answers(fields: Seq<(Seq<char>, Json)>, key: Seq<char>)
    ensures
        member(Json::Object(by_key(fields)), key) == last_under(fields, key),
    decreases fields.len(),
{
    if fields.len() > 0 {
        let head = fields.drop_last();
        lemma_with_entry_lookup(by_key(head), fields.last().0, fields.last().1, key);
        law_filled_object_answers(head, key);
    }
}

pub proof fn lemma_filled_members(fields: Seq<(Seq<char>, Json)>)
    ensures
        forall|key: Seq<char>| #[trigger]
            member(Json::Object(by_key(fields)), key) == last_under(fields, key),
{
    assert forall|key: Seq<char>| #[trigger]
        member(Json::Object(by_key(fields)), key) == last_under(fields, key) by {
        law_filled_object_answers(fields, key);
    }
}

/// An object whose keys are put in order answers every key with the last value
/// that was under it, with the keys in that value in order.
pub proof fn law_keyed_object_answers(fields: Seq<(Seq<char>, Json)>, key: Seq<char>)
    ensures
        member(keyed(Json::Object(fields)), key) == match last_under(fields, key) {
            Some(value) => Some(keyed(value)),
            None => None,
        },
{
    law_filled_object_answers(keyed_entries(fields), key);
    lemma_last_keyed(fields, key);
}

proof fn lemma_last_keyed(fields: Seq<(Seq<char>, Json)>, key: Seq<char>)
    ensures
        last_under(keyed_entries(fields), key) == match last_under(fields, key) {
            Some(value) => Some(keyed(value)),
            None => None,
        },
    decreases fields.len(),
{
    if fields.len() > 0 {
        lemma_last_keyed(fields.drop_last(), key);
        assert(keyed_entries(fields).drop_last() =~= keyed_entries(fields.drop_last()));
    }
}

pub proof fn lemma_keyed_members(value: Json)
    requires
        value is Object,
    ensures
        forall|key: Seq<char>| #[trigger]
            member(keyed(value), key) == match last_under(value->Object_0, key) {
                Some(inner) => Some(keyed(inner)),
                None => None,
            },
{
    let fields = value->Object_0;
    assert(value == Json::Object(fields));
    assert forall|key: Seq<char>| #[trigger]
        member(keyed(value), key) == match last_under(fields, key) {
            Some(inner) => Some(keyed(inner)),
            None => None,
        } by {
        law_keyed_object_answers(fields, key);
    }
}

/// An object in the order of its fields answers every key with the first value
/// under it.
pub proof fn lemma_entry_pushed()
    ensures
        forall|fields: Seq<(Seq<char>, Json)>, key: Seq<char>, value: Json, wanted: Seq<char>|
            #[trigger]
            entry(fields.push((key, value)), wanted) == match entry(fields, wanted) {
                Some(first) => Some(first),
                None => if wanted == key {
                    Some(value)
                } else {
                    None
                },
            },
        forall|wanted: Seq<char>| #[trigger] entry(no_fields(), wanted) == None::<Json>,
{
    assert forall|fields: Seq<(Seq<char>, Json)>, key: Seq<char>, value: Json, wanted: Seq<char>|
        #[trigger]
        entry(fields.push((key, value)), wanted) == match entry(fields, wanted) {
            Some(first) => Some(first),
            None => if wanted == key {
                Some(value)
            } else {
                None
            },
        } by {
        lemma_entry_push(fields, key, value, wanted);
    }
}

proof fn lemma_entry_push(
    fields: Seq<(Seq<char>, Json)>,
    key: Seq<char>,
    value: Json,
    wanted: Seq<char>,
)
    ensures
        entry(fields.push((key, value)), wanted) == match entry(fields, wanted) {
            Some(first) => Some(first),
            None => if wanted == key {
                Some(value)
            } else {
                None
            },
        },
    decreases fields.len(),
{
    let longer = fields.push((key, value));
    if fields.len() == 0 {
        assert(longer.skip(1) =~= fields);
    } else {
        assert(longer.skip(1) =~= fields.skip(1).push((key, value)));
        lemma_entry_push(fields.skip(1), key, value, wanted);
    }
}

/// A list of texts is an array with each text in its place, and putting keys in
/// order leaves it as it is.
pub proof fn law_texts_stay_in_place(items: Seq<Seq<char>>)
    ensures
        json_texts(items) matches Json::Array(shown) && {
            &&& shown.len() == items.len()
            &&& forall|i: int| 0 <= i < items.len() ==> #[trigger] shown[i] == Json::Text(items[i])
        },
        keyed(json_texts(items)) == json_texts(items),
{
    reveal_with_fuel(keyed, 2);
    assert(keyed(json_texts(items))->Array_0 =~= json_texts(items)->Array_0);
}

/// A count is written as the number that it is.
pub proof fn law_count_is_its_number(value: nat)
    ensures
        json_count(value) == Json::Number(Numeral::Integer(value as int)),
        integer_text(value as int) == decimal(value),
{
}

/// A value inside an object is smaller than the object, for recursion.
pub proof fn lemma_entry_value_is_smaller(object: JsonObject, i: int)
    requires
        0 <= i < object.entries@.len(),
    ensures
        decreases_to!(object => object.entries@[i].value),
{
    assert(decreases_to!(object => object.entries));
    assert(decreases_to!(object.entries => object.entries@));
    assert(decreases_to!(object.entries@ => object.entries@[i]));
    assert(decreases_to!(object.entries@[i] => object.entries@[i].value));
}

/// A hexadecimal digit in lower case.
pub open spec fn hex_digit(value: int) -> char {
    if value < 10 {
        ('0' as int + value) as char
    } else {
        ('a' as int + value - 10) as char
    }
}

/// How JSON writes one character inside a string.
pub open spec fn escaped_char(c: char) -> Seq<char> {
    if c == '"' {
        seq!['\\', '"']
    } else if c == '\\' {
        seq!['\\', '\\']
    } else if c as u32 == 8 {
        seq!['\\', 'b']
    } else if c as u32 == 9 {
        seq!['\\', 't']
    } else if c as u32 == 10 {
        seq!['\\', 'n']
    } else if c as u32 == 12 {
        seq!['\\', 'f']
    } else if c as u32 == 13 {
        seq!['\\', 'r']
    } else if (c as u32) < 32 {
        seq!['\\', 'u', '0', '0', hex_digit(c as int / 16), hex_digit(c as int % 16)]
    } else {
        seq![c]
    }
}

pub open spec fn escaped(text: Seq<char>) -> Seq<char>
    decreases text.len(),
{
    if text.len() == 0 {
        seq![]
    } else {
        escaped(text.drop_last()) + escaped_char(text.last())
    }
}

/// A JSON string: the escaped text between quotes.
pub open spec fn quoted(text: Seq<char>) -> Seq<char> {
    seq!['"'] + escaped(text) + seq!['"']
}

/// The compact JSON text of a value.
pub open spec fn json_text(value: Json) -> Seq<char>
    decreases value,
{
    match value {
        Json::Null => "null"@,
        Json::Bool(flag) => if flag {
            "true"@
        } else {
            "false"@
        },
        Json::Number(Numeral::Integer(number)) => integer_text(number),
        Json::Number(Numeral::Real(text)) => text,
        Json::Text(text) => quoted(text),
        Json::Array(items) => seq!['['] + items_text(items) + seq![']'],
        Json::Object(entries) => seq!['{'] + entries_text(entries) + seq!['}'],
    }
}

pub open spec fn integer_text(number: int) -> Seq<char> {
    if number < 0 {
        seq!['-'] + decimal((-number) as nat)
    } else {
        decimal(number as nat)
    }
}

/// The texts of array items, separated by commas.
pub open spec fn items_text(items: Seq<Json>) -> Seq<char>
    decreases items,
{
    if items.len() == 0 {
        seq![]
    } else if items.len() == 1 {
        json_text(items[0])
    } else {
        items_text(items.drop_last()) + seq![','] + json_text(items[items.len() - 1])
    }
}

/// The texts of object entries, separated by commas.
pub open spec fn entries_text(entries: Seq<(Seq<char>, Json)>) -> Seq<char>
    decreases entries,
{
    if entries.len() == 0 {
        seq![]
    } else if entries.len() == 1 {
        quoted(entries[0].0) + seq![':'] + json_text(entries[0].1)
    } else {
        entries_text(entries.drop_last()) + seq![','] + quoted(entries[entries.len() - 1].0)
            + seq![':'] + json_text(entries[entries.len() - 1].1)
    }
}

/// The number of bytes of the compact JSON text of a value.
pub open spec fn json_len(value: Json) -> nat {
    byte_len(json_text(value))
}

/// `serde_json::to_string` on a string slice writes a quote, the text with the
/// JSON escapes (`\"`, `\\`, `\b`, `\f`, `\n`, `\r`, `\t`, and `\u00xx` for the
/// other control characters), and a quote. It cannot fail on a string.
#[verifier::external_body]
fn quote(text: &str) -> (result: String)
    ensures
        result@ == quoted(text@),
{
    serde_json::to_string(text).unwrap_or_default()
}

/// Renders a value as compact JSON.
pub fn render(value: &JsonValue) -> (text: String)
    ensures
        text@ == json_text(value@),
    decreases value,
{
    match value {
        JsonValue::Null => "null".to_owned(),
        JsonValue::Bool(flag) => if *flag {
            "true".to_owned()
        } else {
            "false".to_owned()
        },
        JsonValue::Number(number) => render_number(number),
        JsonValue::Text(text) => quote(text.as_str()),
        JsonValue::Array(items) => {
            let ghost models = json_models(items@);
            assert(value@ == Json::Array(models)) by {
                assert(value@->Array_0 =~= models);
            }
            let mut text = String::new();
            text.push('[');
            let mut i: usize = 0;
            assert(models.take(0) =~= Seq::<Json>::empty());
            assert(text@ =~= seq!['['] + items_text(models.take(0)));
            while i < items.len()
                invariant
                    i <= items@.len(),
                    models == json_models(items@),
                    *value == JsonValue::Array(*items),
                    text@ == seq!['['] + items_text(models.take(i as int)),
                decreases items@.len() - i,
            {
                if i > 0 {
                    text.push(',');
                }
                assert(decreases_to!(*value => items@[i as int])) by {
                    assert(decreases_to!(*value => value->Array_0));
                    assert(decreases_to!(*items => items@));
                    assert(decreases_to!(items@ => items@[i as int]));
                }
                let item = render(&items[i]);
                text.append(item.as_str());
                proof {
                    let next = models.take(i + 1);
                    assert(next.drop_last() =~= models.take(i as int));
                    assert(next[next.len() - 1] == items@[i as int]@);
                    assert(text@ =~= seq!['['] + items_text(next));
                }
                i = i + 1;
            }
            text.push(']');
            assert(models.take(models.len() as int) =~= models);
            assert(text@ =~= seq!['['] + items_text(models) + seq![']']);
            text
        },
        JsonValue::Object(object) => {
            let ghost entries = object@;
            assert(value@ == Json::Object(entries)) by {
                assert(value@->Object_0 =~= entries);
            }
            let mut text = String::new();
            text.push('{');
            let mut i: usize = 0;
            assert(entries.take(0) =~= Seq::<(Seq<char>, Json)>::empty());
            assert(text@ =~= seq!['{'] + entries_text(entries.take(0)));
            while i < object.entries.len()
                invariant
                    i <= object.entries@.len(),
                    entries == object@,
                    *value == JsonValue::Object(*object),
                    text@ == seq!['{'] + entries_text(entries.take(i as int)),
                decreases object.entries@.len() - i,
            {
                if i > 0 {
                    text.push(',');
                }
                let key = quote(object.entries[i].key.as_str());
                text.append(key.as_str());
                text.push(':');
                proof {
                    lemma_entry_value_is_smaller(*object, i as int);
                    assert(decreases_to!(*value => value->Object_0));
                }
                let item = render(&object.entries[i].value);
                text.append(item.as_str());
                proof {
                    let next = entries.take(i + 1);
                    assert(next.drop_last() =~= entries.take(i as int));
                    assert(next[next.len() - 1] == entries[i as int]);
                    assert(text@ =~= seq!['{'] + entries_text(next));
                }
                i = i + 1;
            }
            text.push('}');
            assert(entries.take(entries.len() as int) =~= entries);
            assert(text@ =~= seq!['{'] + entries_text(entries) + seq!['}']);
            text
        },
    }
}

fn render_number(number: &JsonNumber) -> (text: String)
    ensures
        text@ == json_text(Json::Number(number_model(*number))),
{
    match number {
        JsonNumber::Unsigned(value) => decimal_text(*value),
        JsonNumber::Negative(value) => {
            if *value >= 0 {
                decimal_text(*value as u64)
            } else {
                let magnitude: u64 = (-(*value as i128)) as u64;
                let mut text = String::new();
                text.push('-');
                text.append(decimal_text(magnitude).as_str());
                assert(text@ =~= seq!['-'] + decimal(magnitude as nat));
                text
            }
        },
        JsonNumber::Real(text) => text.clone(),
    }
}

/// The number of bytes that the compact JSON text of a value takes.
pub fn rendered_len(value: &JsonValue) -> (len: usize)
    ensures
        len == json_len(value@),
{
    utf8_len(render(value).as_str())
}

impl JsonObject {
    pub fn new() -> (object: Self)
        ensures
            object@ == no_fields(),
    {
        let object = JsonObject { entries: Vec::new() };
        assert(object@ =~= Seq::<(Seq<char>, Json)>::empty());
        object
    }

    /// Appends one entry.
    pub fn put(&mut self, key: &str, value: JsonValue)
        ensures
            final(self)@ == old(self)@.push((key@, value@)),
    {
        self.entries.push(JsonEntry { key: key.to_owned(), value });
        assert(self@ =~= old(self)@.push((key@, value@)));
    }

    /// The value of the first entry under `key`.
    pub fn get(&self, key: &str) -> (value: Option<&JsonValue>)
        ensures
            match value {
                Some(v) => entry(self@, key@) == Some(v@),
                None => entry(self@, key@) is None,
            },
    {
        let mut i: usize = 0;
        assert(self@.skip(0) =~= self@);
        while i < self.entries.len()
            invariant
                i <= self.entries@.len(),
                entry(self@, key@) == entry(self@.skip(i as int), key@),
            decreases self.entries@.len() - i,
        {
            assert(self@.skip(i as int).skip(1) =~= self@.skip(i + 1));
            assert(self@.skip(i as int)[0] == self@[i as int]);
            if same_text(self.entries[i].key.as_str(), key) {
                return Some(&self.entries[i].value);
            }
            i = i + 1;
        }
        None
    }

    /// Puts `value` under `key`: in place of the value that is there, else in
    /// front of the first greater key.
    pub fn insert(&mut self, key: &str, value: JsonValue)
        ensures
            final(self)@ == with_entry(old(self)@, key@, value@),
    {
        let ghost before = self@;
        let mut i: usize = 0;
        assert(before.skip(0) =~= before);
        assert(before.take(0) =~= Seq::<(Seq<char>, Json)>::empty());
        assert(with_entry(before, key@, value@) =~= before.take(0) + with_entry(
            before.skip(0),
            key@,
            value@,
        ));
        while i < self.entries.len()
            invariant
                before == old(self)@,
                *self == *old(self),
                i <= self.entries@.len(),
                with_entry(before, key@, value@) == before.take(i as int) + with_entry(
                    before.skip(i as int),
                    key@,
                    value@,
                ),
            decreases self.entries@.len() - i,
        {
            let ghost rest = before.skip(i as int);
            assert(rest[0] == before[i as int]);
            if same_text(self.entries[i].key.as_str(), key) {
                self.entries.set(i, JsonEntry { key: key.to_owned(), value });
                assert(self@ =~= before.take(i as int) + (seq![(key@, value@)] + rest.skip(1)));
                return ;
            }
            if comes_before(key, self.entries[i].key.as_str()) {
                self.entries.insert(i, JsonEntry { key: key.to_owned(), value });
                assert(self@ =~= before.take(i as int) + (seq![(key@, value@)] + rest));
                return ;
            }
            proof {
                assert(rest.skip(1) =~= before.skip(i + 1));
                assert(before.take(i as int) + (seq![rest[0]] + with_entry(
                    rest.skip(1),
                    key@,
                    value@,
                )) =~= before.take(i + 1) + with_entry(before.skip(i + 1), key@, value@));
            }
            i = i + 1;
        }
        self.put(key, value);
        assert(before.skip(i as int) =~= Seq::<(Seq<char>, Json)>::empty());
        assert(self@ =~= before.take(i as int) + seq![(key@, value@)]);
    }

    /// The object with these fields and its keys in order.
    pub fn into_map(self) -> (value: JsonValue)
        ensures
            value@ == Json::Object(by_key(self@)),
    {
        let mut fields = self.entries;
        let mut map = JsonObject::new();
        let ghost all = self@;
        let ghost mut taken: int = 0;
        assert(all.take(0) =~= seq![]);
        while fields.len() > 0
            invariant
                0 <= taken,
                taken + fields@.len() == all.len(),
                map@ == by_key(all.take(taken)),
                forall|i: int|
                    0 <= i < fields@.len() ==> {
                        let field = #[trigger] fields@[i];
                        (field.key@, field.value@) == all[taken + i]
                    },
            decreases fields@.len(),
        {
            let ghost before = fields@;
            let field = fields.remove(0);
            map.insert(field.key.as_str(), field.value);
            proof {
                let next = all.take(taken + 1);
                assert(next.drop_last() =~= all.take(taken));
                assert(next.last() == (field.key@, field.value@));
                assert forall|i: int| 0 <= i < fields@.len() implies {
                    let field = #[trigger] fields@[i];
                    (field.key@, field.value@) == all[taken + 1 + i]
                } by {
                    assert(fields@[i] == before[i + 1]);
                }
                taken = taken + 1;
            }
        }
        assert(all.take(taken) =~= all);
        map.into_value()
    }

    pub fn into_value(self) -> (value: JsonValue)
        ensures
            value@ == Json::Object(self@),
    {
        let value = JsonValue::Object(self);
        assert(value@->Object_0 =~= self@);
        value
    }
}

impl JsonValue {
    /// The member under `key`, if this is an object that has one.
    pub fn get(&self, key: &str) -> (value: Option<&JsonValue>)
        ensures
            match value {
                Some(v) => member(self@, key@) == Some(v@),
                None => member(self@, key@) is None,
            },
    {
        match self {
            JsonValue::Object(object) => {
                assert(self@->Object_0 =~= object@);
                object.get(key)
            },
            _ => None,
        }
    }

    pub fn as_str(&self) -> (text: Option<&str>)
        ensures
            match text {
                Some(t) => as_text(self@) == Some(t@),
                None => as_text(self@) is None,
            },
    {
        match self {
            JsonValue::Text(text) => Some(text.as_str()),
            _ => None,
        }
    }

    pub fn as_bool(&self) -> (flag: Option<bool>)
        ensures
            flag == as_flag(self@),
    {
        match self {
            JsonValue::Bool(flag) => Some(*flag),
            _ => None,
        }
    }

    pub fn as_u64(&self) -> (number: Option<u64>)
        ensures
            match number {
                Some(n) => as_unsigned(self@) == Some(n as nat),
                None => as_unsigned(self@) is None,
            },
    {
        match self {
            JsonValue::Number(JsonNumber::Unsigned(value)) => Some(*value),
            JsonValue::Number(JsonNumber::Negative(value)) => if *value >= 0 {
                Some(*value as u64)
            } else {
                None
            },
            _ => None,
        }
    }

    pub fn is_null(&self) -> (null: bool)
        ensures
            null == (self@ == Json::Null),
    {
        match self {
            JsonValue::Null => true,
            _ => false,
        }
    }

    /// The value with the keys of every object in it in order.
    pub fn keyed(&self) -> (value: JsonValue)
        ensures
            value@ == keyed(self@),
        decreases self,
    {
        match self {
            JsonValue::Array(items) => {
                let mut values: Vec<JsonValue> = Vec::new();
                let mut i: usize = 0;
                while i < items.len()
                    invariant
                        i <= items@.len(),
                        *self == JsonValue::Array(*items),
                        values@.len() == i,
                        forall|j: int| 0 <= j < i ==> (#[trigger] values@[j])@ == keyed(items@[j]@),
                    decreases items@.len() - i,
                {
                    assert(decreases_to!(*self => items@[i as int])) by {
                        assert(decreases_to!(*self => self->Array_0));
                        assert(decreases_to!(*items => items@));
                        assert(decreases_to!(items@ => items@[i as int]));
                    }
                    let value = items[i].keyed();
                    values.push(value);
                    i = i + 1;
                }
                let value = json_array(values);
                assert(value@->Array_0 =~= keyed(self@)->Array_0);
                value
            },
            JsonValue::Object(object) => {
                let mut fields = JsonObject::new();
                let ghost wanted = Seq::new(
                    object@.len(),
                    |i: int| (object@[i].0, keyed(object@[i].1)),
                );
                let mut i: usize = 0;
                assert(wanted.take(0) =~= no_fields());
                while i < object.entries.len()
                    invariant
                        i <= object.entries@.len(),
                        *self == JsonValue::Object(*object),
                        wanted == Seq::new(
                            object@.len(),
                            |i: int| (object@[i].0, keyed(object@[i].1)),
                        ),
                        fields@ == wanted.take(i as int),
                    decreases object.entries@.len() - i,
                {
                    proof {
                        lemma_entry_value_is_smaller(*object, i as int);
                        assert(decreases_to!(*self => self->Object_0));
                    }
                    let value = object.entries[i].value.keyed();
                    fields.put(object.entries[i].key.as_str(), value);
                    assert(fields@ =~= wanted.take(i + 1));
                    i = i + 1;
                }
                assert(wanted.take(i as int) =~= wanted);
                assert(self@->Object_0 =~= object@);
                assert(wanted =~= keyed_entries(object@));
                fields.into_map()
            },
            _ => {
                assert(self@ !is Array && self@ !is Object);
                self.duplicate()
            },
        }
    }

    /// Whether every text and every key in this value takes at most `max` bytes.
    pub fn has_texts_within(&self, max: usize) -> (within: bool)
        ensures
            within == texts_within(self@, max as nat),
        decreases self,
    {
        match self {
            JsonValue::Text(text) => utf8_len(text.as_str()) <= max,
            JsonValue::Array(items) => {
                let mut i: usize = 0;
                while i < items.len()
                    invariant
                        i <= items@.len(),
                        *self == JsonValue::Array(*items),
                        forall|j: int|
                            0 <= j < i ==> texts_within(#[trigger] self@->Array_0[j], max as nat),
                    decreases items@.len() - i,
                {
                    assert(decreases_to!(*self => items@[i as int])) by {
                        assert(decreases_to!(*self => self->Array_0));
                        assert(decreases_to!(*items => items@));
                        assert(decreases_to!(items@ => items@[i as int]));
                    }
                    assert(self@->Array_0[i as int] == items@[i as int]@);
                    if !items[i].has_texts_within(max) {
                        return false;
                    }
                    i = i + 1;
                }
                true
            },
            JsonValue::Object(object) => {
                let mut i: usize = 0;
                assert(self@->Object_0 =~= object@);
                while i < object.entries.len()
                    invariant
                        i <= object.entries@.len(),
                        *self == JsonValue::Object(*object),
                        self@ == Json::Object(object@),
                        forall|j: int|
                            0 <= j < i ==> byte_len((#[trigger] object@[j]).0) <= max
                                && texts_within(object@[j].1, max as nat),
                    decreases object.entries@.len() - i,
                {
                    proof {
                        lemma_entry_value_is_smaller(*object, i as int);
                        assert(decreases_to!(*self => self->Object_0));
                        assert(object@[i as int].1 == object.entries@[i as int].value@);
                    }
                    if utf8_len(object.entries[i].key.as_str()) > max
                        || !object.entries[i].value.has_texts_within(max) {
                        assert(!entries_within(object@, max as nat));
                        return false;
                    }
                    i = i + 1;
                }
                assert(entries_within(object@, max as nat));
                true
            },
            _ => {
                assert(self@ !is Text && self@ !is Array && self@ !is Object);
                true
            },
        }
    }

    /// A copy of this value.
    pub fn duplicate(&self) -> (copy: JsonValue)
        ensures
            copy@ == self@,
        decreases self,
    {
        match self {
            JsonValue::Null => JsonValue::Null,
            JsonValue::Bool(flag) => JsonValue::Bool(*flag),
            JsonValue::Number(JsonNumber::Unsigned(value)) => JsonValue::Number(
                JsonNumber::Unsigned(*value),
            ),
            JsonValue::Number(JsonNumber::Negative(value)) => JsonValue::Number(
                JsonNumber::Negative(*value),
            ),
            JsonValue::Number(JsonNumber::Real(text)) => JsonValue::Number(
                JsonNumber::Real(text.clone()),
            ),
            JsonValue::Text(text) => JsonValue::Text(text.clone()),
            JsonValue::Array(items) => {
                let mut copies: Vec<JsonValue> = Vec::new();
                let mut i: usize = 0;
                while i < items.len()
                    invariant
                        i <= items@.len(),
                        *self == JsonValue::Array(*items),
                        copies@.len() == i,
                        forall|j: int| 0 <= j < i ==> (#[trigger] copies@[j])@ == items@[j]@,
                    decreases items@.len() - i,
                {
                    assert(decreases_to!(*self => items@[i as int])) by {
                        assert(decreases_to!(*self => self->Array_0));
                        assert(decreases_to!(*items => items@));
                        assert(decreases_to!(items@ => items@[i as int]));
                    }
                    let copy = items[i].duplicate();
                    copies.push(copy);
                    i = i + 1;
                }
                let copy = JsonValue::Array(copies);
                assert(copy@->Array_0 =~= self@->Array_0);
                copy
            },
            JsonValue::Object(object) => {
                let mut copies = JsonObject::new();
                let mut i: usize = 0;
                while i < object.entries.len()
                    invariant
                        i <= object.entries@.len(),
                        *self == JsonValue::Object(*object),
                        copies@ == object@.take(i as int),
                    decreases object.entries@.len() - i,
                {
                    proof {
                        lemma_entry_value_is_smaller(*object, i as int);
                        assert(decreases_to!(*self => self->Object_0));
                    }
                    let copy = object.entries[i].value.duplicate();
                    copies.put(object.entries[i].key.as_str(), copy);
                    assert(copies@ =~= object@.take(i + 1));
                    i = i + 1;
                }
                assert(object@.take(object@.len() as int) =~= object@);
                assert(self@->Object_0 =~= object@);
                copies.into_value()
            },
        }
    }
}

#[verifier::external_type_specification]
#[verifier::external_body]
pub struct ExSerdeValue(serde_json::Value);

/// Whether a JSON reader takes the value back whole: its numbers are 64-bit
/// integers and it nests no deeper than `depth`.
pub open spec fn is_plain(value: Json, depth: nat) -> bool
    decreases depth,
{
    match value {
        Json::Number(Numeral::Integer(number)) => i64::MIN <= number <= u64::MAX,
        Json::Number(Numeral::Real(_)) => false,
        Json::Array(items) => depth > 0 && forall|i: int|
            0 <= i < items.len() ==> is_plain(#[trigger] items[i], (depth - 1) as nat),
        Json::Object(entries) => depth > 0 && forall|i: int|
            0 <= i < entries.len() ==> is_plain((#[trigger] entries[i]).1, (depth - 1) as nat),
        _ => true,
    }
}

pub open spec fn optional_model(value: Option<JsonValue>) -> Option<Json> {
    match value {
        Some(value) => Some(value@),
        None => None,
    }
}

/// Nesting that the JSON reader is known to accept.
pub open spec fn read_depth() -> nat {
    100
}

/// What `serde_json::from_slice` reads from bytes: a value with the keys of its
/// objects in order, or nothing where the bytes are no JSON text.
pub uninterp spec fn parsed_json(bytes: Seq<u8>) -> Option<Json>;

/// `serde_json::from_slice` into a `serde_json::Value`, taken over value by
/// value. The reader gives back what the writer wrote: on the compact text of a
/// plain value it returns that value, with the keys of every object in order and
/// the last of equal keys kept, since `serde_json::Map` is a `BTreeMap`. What it
/// makes of other bytes is only named.
#[verifier::external_body]
pub(crate) fn parse_json(bytes: &[u8]) -> (value: Option<JsonValue>)
    ensures
        optional_model(value) == parsed_json(bytes@),
        forall|written: Json|
            #![trigger json_text(written)]
            is_plain(written, read_depth()) && bytes@ == encode_utf8(json_text(written))
                ==> optional_model(value) == Some(keyed(written)),
{
    serde_json::from_slice::<Value>(bytes).ok().map(taken_over)
}

/// Takes a `serde_json::Value` over into this crate's type, variant by variant.
#[verifier::external_body]
fn taken_over(value: Value) -> JsonValue {
    match value {
        Value::Null => JsonValue::Null,
        Value::Bool(flag) => JsonValue::Bool(flag),
        Value::String(text) => JsonValue::Text(text),
        Value::Number(number) => JsonValue::Number(match (number.as_u64(), number.as_i64()) {
            (Some(value), _) => JsonNumber::Unsigned(value),
            (None, Some(value)) => JsonNumber::Negative(value),
            (None, None) => JsonNumber::Real(number.to_string()),
        }),
        Value::Array(items) => JsonValue::Array(items.into_iter().map(taken_over).collect()),
        Value::Object(map) => JsonValue::Object(JsonObject {
            entries: map.into_iter().map(|(key, value)| JsonEntry { key, value: taken_over(value) }).collect(),
        }),
    }
}

/// Hands this crate's type over as a `serde_json::Value`, variant by variant. A
/// number that is no integer is read by `serde_json::Number::from_str`; a text
/// that it refuses is handed back. Of equal keys of an object the last is kept,
/// since `serde_json::Map` is a `BTreeMap`.
#[verifier::external_body]
pub(crate) fn handed_over(value: JsonValue) -> Result<Value, String> {
    Ok(match value {
        JsonValue::Null => Value::Null,
        JsonValue::Bool(flag) => Value::Bool(flag),
        JsonValue::Text(text) => Value::String(text),
        JsonValue::Number(JsonNumber::Unsigned(number)) => number.into(),
        JsonValue::Number(JsonNumber::Negative(number)) => number.into(),
        JsonValue::Number(JsonNumber::Real(text)) => Value::Number(text.parse().map_err(|_| text)?),
        JsonValue::Array(items) => items.into_iter().map(handed_over).collect::<Result<_, _>>()?,
        JsonValue::Object(object) => {
            let entries = object.entries.into_iter();
            entries.map(|entry| Ok((entry.key, handed_over(entry.value)?))).collect::<Result<_, String>>()?
        },
    })
}

/// A number as a JSON value.
pub fn json_number(value: usize) -> (json: JsonValue)
    ensures
        json@ == json_count(value as nat),
{
    JsonValue::Number(JsonNumber::Unsigned(value as u64))
}

/// A text as a JSON value.
pub fn json_str(text: &str) -> (json: JsonValue)
    ensures
        json@ == Json::Text(text@),
{
    JsonValue::Text(text.to_owned())
}

/// A text that may be absent as a JSON value.
pub fn json_opt_str(text: &Option<String>) -> (json: JsonValue)
    ensures
        json@ == json_optional_text(crate::text::optional_text(*text)),
{
    match text {
        Some(text) => json_str(text.as_str()),
        None => JsonValue::Null,
    }
}

/// Texts as a JSON array.
pub fn json_strings(items: &Vec<String>) -> (json: JsonValue)
    ensures
        json@ == json_texts(crate::text::texts(items@)),
{
    let mut values: Vec<JsonValue> = Vec::new();
    let mut i: usize = 0;
    while i < items.len()
        invariant
            i <= items@.len(),
            values@.len() == i,
            forall|j: int| 0 <= j < i ==> (#[trigger] values@[j])@ == Json::Text(items@[j]@),
        decreases items@.len() - i,
    {
        values.push(json_str(items[i].as_str()));
        i = i + 1;
    }
    let json = json_array(values);
    assert(json@->Array_0 =~= json_texts(crate::text::texts(items@))->Array_0);
    json
}

/// Values as a JSON array.
pub fn json_array(values: Vec<JsonValue>) -> (json: JsonValue)
    ensures
        json@ == Json::Array(json_models(values@)),
{
    let json = JsonValue::Array(values);
    assert(json@->Array_0 =~= json_models(values@));
    json
}

/// Whether a value lists texts: each of them in its place, and nothing else.
pub open spec fn lists_texts(value: Option<Json>, items: Seq<Seq<char>>) -> bool {
    value matches Some(Json::Array(shown)) && shown.len() == items.len() && forall|i: int|
        0 <= i < items.len() ==> #[trigger] shown[i] == Json::Text(items[i])
}

/// JSON is written without spaces: words for the constants, digits for integers, quotes
/// around texts, and commas between the items of an array and the entries of an object.
pub proof fn law_json_is_written_compactly(
    items: Seq<Json>,
    item: Json,
    entries: Seq<(Seq<char>, Json)>,
    key: Seq<char>,
    number: nat,
    text: Seq<char>,
)
    ensures
        json_text(Json::Null) == "null"@,
        json_text(Json::Bool(true)) == "true"@,
        json_text(Json::Bool(false)) == "false"@,
        json_text(json_count(number)) == decimal(number),
        number > 0 ==> json_text(Json::Number(Numeral::Integer(-(number as int)))) == seq!['-']
            + decimal(number),
        json_text(Json::Text(text)) == seq!['"'] + escaped(text) + seq!['"'],
        json_text(Json::Array(Seq::empty())) == seq!['[', ']'],
        json_text(Json::Array(seq![item])) == seq!['['] + json_text(item) + seq![']'],
        items.len() > 0 ==> json_text(Json::Array(items.push(item))) == json_text(
            Json::Array(items),
        ).drop_last() + seq![','] + json_text(item) + seq![']'],
        json_text(Json::Object(Seq::empty())) == seq!['{', '}'],
        json_text(Json::Object(seq![(key, item)])) == seq!['{'] + quoted(key) + seq![':']
            + json_text(item) + seq!['}'],
        entries.len() > 0 ==> json_text(Json::Object(entries.push((key, item)))) == json_text(
            Json::Object(entries),
        ).drop_last() + seq![','] + quoted(key) + seq![':'] + json_text(item) + seq!['}'],
{
    reveal_with_fuel(json_text, 3);
    reveal_with_fuel(items_text, 2);
    reveal_with_fuel(entries_text, 2);
    assert(items_text(seq![item]) == json_text(item));
    assert(json_text(Json::Array(Seq::empty())) =~= seq!['[', ']']);
    assert(json_text(Json::Object(Seq::empty())) =~= seq!['{', '}']);
    if items.len() > 0 {
        let more = items.push(item);
        assert(more.drop_last() =~= items);
        assert(more[more.len() - 1] == item);
        assert(json_text(Json::Array(items)).drop_last() =~= seq!['['] + items_text(items));
        assert(json_text(Json::Array(more)) =~= seq!['['] + items_text(items) + seq![',']
            + json_text(item) + seq![']']);
    }
    let single = seq![(key, item)];
    assert(json_text(Json::Object(single)) =~= seq!['{'] + quoted(key) + seq![':'] + json_text(item)
        + seq!['}']);
    if entries.len() > 0 {
        let more = entries.push((key, item));
        assert(more.drop_last() =~= entries);
        assert(more[more.len() - 1] == (key, item));
        assert(json_text(Json::Object(entries)).drop_last() =~= seq!['{'] + entries_text(entries));
        assert(json_text(Json::Object(more)) =~= seq!['{'] + entries_text(entries) + seq![',']
            + quoted(key) + seq![':'] + json_text(item) + seq!['}']);
    }
}

/// Inside quotes, a quote and a backslash are written behind a backslash, and control
/// characters by a letter or by their number; every other character stands for itself.
pub proof fn law_text_is_escaped_by_character(text: Seq<char>, c: char)
    ensures
        escaped(Seq::empty()) == Seq::<char>::empty(),
        escaped(text.push(c)) == escaped(text) + escaped_char(c),
        c != '"' && c != '\\' && c as u32 >= 32 ==> escaped_char(c) == seq![c],
        escaped_char('"') == seq!['\\', '"'],
        escaped_char('\\') == seq!['\\', '\\'],
        escaped_char('\n') == seq!['\\', 'n'],
        escaped_char('\t') == seq!['\\', 't'],
        escaped_char('\r') == seq!['\\', 'r'],
        (c as u32) < 32 ==> escaped_char(c).len() >= 2 && escaped_char(c)[0] == '\\',
{
    assert(text.push(c).drop_last() =~= text);
}

/// A value is taken over kind by kind, an array item by item and an object entry by
/// entry.
pub proof fn law_value_is_taken_over(value: JsonValue)
    ensures
        value is Null ==> value@ == Json::Null,
        value matches JsonValue::Bool(flag) ==> value@ == Json::Bool(flag),
        value matches JsonValue::Text(text) ==> value@ == Json::Text(text@),
        value matches JsonValue::Number(JsonNumber::Unsigned(number)) ==> value@ == Json::Number(
            Numeral::Integer(number as int),
        ),
        value matches JsonValue::Number(JsonNumber::Negative(number)) ==> value@ == Json::Number(
            Numeral::Integer(number as int),
        ),
        value matches JsonValue::Array(items) ==> (value@ matches Json::Array(taken) && taken.len()
            == items@.len() && forall|i: int|
            0 <= i < taken.len() ==> #[trigger] taken[i] == items@[i]@),
        value matches JsonValue::Object(object) ==> value@ == Json::Object(object@),
{
    reveal_with_fuel(json_model, 2);
    if let JsonValue::Object(object) = value {
        assert(value@->Object_0 =~= object@);
    }
}

} // verus!
