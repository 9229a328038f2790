//! Byte sizes of texts and of their JSON.

use crate::decimal::{decimal, is_digit, lemma_decimal_digits};
use crate::json::{
    by_key, entries_text, escaped, escaped_char, hex_digit, json_count, json_len, json_text,
    quoted, with_entry, Json,
};
use crate::text::byte_len;
use vstd::prelude::*;
use vstd::utf8::*;

verus! {

/// The bytes of two texts in a row are those of the first and of the second.
pub proof fn lemma_byte_len_concat(left: Seq<char>, right: Seq<char>)
    ensures
        byte_len(left + right) == byte_len(left) + byte_len(right),
    decreases left.len(),
{
    let all = left + right;
    if left.len() == 0 {
        assert(all =~= right);
    } else {
        assert(all.drop_first() =~= left.drop_first() + right);
        lemma_byte_len_concat(left.drop_first(), right);
    }
}

/// An ASCII text has as many bytes as characters.
pub proof fn lemma_ascii_len(text: Seq<char>)
    requires
        is_ascii_chars(text),
    ensures
        byte_len(text) == text.len(),
{
    is_ascii_chars_encode_utf8(text);
}

/// One character takes one to four bytes.
proof fn lemma_char_len(c: char)
    ensures
        1 <= byte_len(seq![c]) <= 4,
        (c as int) < 128 ==> byte_len(seq![c]) == 1,
{
    let rest = seq![c].drop_first();
    assert(rest =~= seq![]);
    assert(encode_utf8(rest) =~= seq![]);
    assert(encode_utf8(seq![c]) =~= encode_scalar(c as u32) + encode_utf8(rest));
    assert(1 <= encode_scalar(c as u32).len() <= 4);
    if (c as int) < 128 {
        lemma_ascii_len(seq![c]);
    }
}

proof fn lemma_escaped_char_len(c: char)
    ensures
        byte_len(escaped_char(c)) <= 6 * byte_len(seq![c]),
{
    lemma_char_len(c);
    let text = escaped_char(c);
    if (c as u32) < 32 || c == '"' || c == '\\' {
        if (c as u32) < 32 {
            let high = c as int / 16;
            let low = c as int % 16;
            assert((hex_digit(high) as int) < 128);
            assert((hex_digit(low) as int) < 128);
        }
        lemma_ascii_len(text);
    }
}

/// Escaping makes a text at most six times as long.
pub proof fn lemma_escaped_len(text: Seq<char>)
    ensures
        byte_len(escaped(text)) <= 6 * byte_len(text),
    decreases text.len(),
{
    if text.len() > 0 {
        let head = text.drop_last();
        lemma_escaped_len(head);
        lemma_escaped_char_len(text.last());
        lemma_byte_len_concat(escaped(head), escaped_char(text.last()));
        assert(text =~= head + seq![text.last()]);
        lemma_byte_len_concat(head, seq![text.last()]);
    }
}

/// Quotes take two bytes more than what stands between them.
pub proof fn lemma_quoted_len(text: Seq<char>)
    ensures
        byte_len(quoted(text)) == byte_len(escaped(text)) + 2,
        byte_len(quoted(text)) <= 6 * byte_len(text) + 2,
{
    lemma_escaped_len(text);
    lemma_ascii_len(seq!['"']);
    lemma_byte_len_concat(seq!['"'], escaped(text));
    lemma_byte_len_concat(seq!['"'] + escaped(text), seq!['"']);
}

pub open spec fn power_of_ten(exponent: nat) -> nat
    decreases exponent,
{
    if exponent == 0 {
        1
    } else {
        10 * power_of_ten((exponent - 1) as nat)
    }
}

proof fn lemma_decimal_len(value: nat, digits: nat)
    requires
        digits > 0,
        value < power_of_ten(digits),
    ensures
        decimal(value).len() <= digits,
    decreases value,
{
    if value >= 10 {
        if digits == 1 {
            reveal_with_fuel(power_of_ten, 2);
        } else {
            assert(value / 10 < power_of_ten((digits - 1) as nat)) by {
                let bound = power_of_ten((digits - 1) as nat);
                assert(power_of_ten(digits) == 10 * bound);
            }
            lemma_decimal_len(value / 10, (digits - 1) as nat);
        }
    }
}

/// A number of at most 64 bits takes at most twenty bytes.
pub proof fn lemma_decimal_bytes(value: nat)
    requires
        value <= u64::MAX,
    ensures
        byte_len(decimal(value)) <= 20,
{
    assert(power_of_ten(20) == 100000000000000000000) by {
        reveal_with_fuel(power_of_ten, 21);
    }
    lemma_decimal_len(value, 20);
    lemma_decimal_digits(value);
    assert forall|i: int| 0 <= i < decimal(value).len() implies '\0' <= #[trigger] decimal(value)[i]
        <= '\u{7f}' by {
        assert(is_digit(decimal(value)[i]));
    }
    lemma_ascii_len(decimal(value));
}

/// The bytes that one more entry adds to the text of an object's entries.
pub open spec fn entry_cost(entries: Seq<(Seq<char>, Json)>, key: Seq<char>, value: Json) -> int {
    byte_len(quoted(key)) + 1 + json_len(value) + if entries.len() == 0 {
        0int
    } else {
        1int
    }
}

/// Each entry adds its own bytes and, after the first, a comma.
pub proof fn lemma_entries_push(entries: Seq<(Seq<char>, Json)>, key: Seq<char>, value: Json)
    ensures
        byte_len(entries_text(entries.push((key, value)))) == byte_len(entries_text(entries))
            + entry_cost(entries, key, value),
{
    let all = entries.push((key, value));
    assert(all.drop_last() =~= entries);
    lemma_ascii_len(seq![':']);
    lemma_ascii_len(seq![',']);
    if entries.len() == 0 {
        assert(all[0] == (key, value));
        lemma_byte_len_concat(quoted(key), seq![':']);
        lemma_byte_len_concat(quoted(key) + seq![':'], json_text(value));
        lemma_ascii_len(Seq::<char>::empty());
    } else {
        let head = entries_text(entries);
        assert(all[all.len() - 1] == (key, value));
        lemma_byte_len_concat(head, seq![',']);
        lemma_byte_len_concat(head + seq![','], quoted(key));
        lemma_byte_len_concat(head + seq![','] + quoted(key), seq![':']);
        lemma_byte_len_concat(head + seq![','] + quoted(key) + seq![':'], json_text(value));
    }
}

/// Braces take two bytes more than the entries between them.
pub proof fn lemma_object_len(entries: Seq<(Seq<char>, Json)>)
    ensures
        json_len(Json::Object(entries)) == byte_len(entries_text(entries)) + 2,
{
    lemma_ascii_len(seq!['{']);
    lemma_ascii_len(seq!['}']);
    lemma_byte_len_concat(seq!['{'], entries_text(entries));
    lemma_byte_len_concat(seq!['{'] + entries_text(entries), seq!['}']);
}

/// What one entry costs in the text of an object, with the comma before it.
pub open spec fn field_cost(field: (Seq<char>, Json)) -> nat {
    byte_len(quoted(field.0)) + json_len(field.1) + 2
}

/// What entries cost in the text of an object.
pub open spec fn fields_cost(fields: Seq<(Seq<char>, Json)>) -> nat
    decreases fields.len(),
{
    if fields.len() == 0 {
        0
    } else {
        fields_cost(fields.drop_last()) + field_cost(fields.last())
    }
}

proof fn lemma_cost_concat(left: Seq<(Seq<char>, Json)>, right: Seq<(Seq<char>, Json)>)
    ensures
        fields_cost(left + right) == fields_cost(left) + fields_cost(right),
    decreases right.len(),
{
    let all = left + right;
    if right.len() == 0 {
        assert(all =~= left);
    } else {
        assert(all.drop_last() =~= left + right.drop_last());
        assert(all.last() == right.last());
        lemma_cost_concat(left, right.drop_last());
    }
}

proof fn lemma_single_cost(field: (Seq<char>, Json))
    ensures
        fields_cost(seq![field]) == field_cost(field),
{
    let single = seq![field];
    assert(single.drop_last() =~= Seq::<(Seq<char>, Json)>::empty());
    assert(single.last() == field);
    assert(fields_cost(single.drop_last()) == 0);
}

proof fn lemma_with_entry_cost(entries: Seq<(Seq<char>, Json)>, key: Seq<char>, value: Json)
    ensures
        fields_cost(with_entry(entries, key, value)) <= fields_cost(entries) + field_cost(
            (key, value),
        ),
    decreases entries.len(),
{
    lemma_single_cost((key, value));
    if entries.len() == 0 {
    } else {
        let first = entries[0];
        let rest = entries.skip(1);
        lemma_single_cost(first);
        assert(entries =~= seq![first] + rest);
        lemma_cost_concat(seq![first], rest);
        lemma_cost_concat(seq![(key, value)], rest);
        lemma_cost_concat(seq![(key, value)], entries);
        lemma_cost_concat(seq![first], with_entry(rest, key, value));
        lemma_with_entry_cost(rest, key, value);
    }
}

proof fn lemma_by_key_cost(fields: Seq<(Seq<char>, Json)>)
    ensures
        fields_cost(by_key(fields)) <= fields_cost(fields),
    decreases fields.len(),
{
    if fields.len() > 0 {
        lemma_by_key_cost(fields.drop_last());
        lemma_with_entry_cost(by_key(fields.drop_last()), fields.last().0, fields.last().1);
    }
}

proof fn lemma_entries_within_cost(entries: Seq<(Seq<char>, Json)>)
    ensures
        byte_len(entries_text(entries)) <= fields_cost(entries),
    decreases entries.len(),
{
    if entries.len() == 0 {
        lemma_ascii_len(Seq::<char>::empty());
    } else {
        let head = entries.drop_last();
        lemma_entries_within_cost(head);
        lemma_entries_push(head, entries.last().0, entries.last().1);
        assert(entries =~= head.push((entries.last().0, entries.last().1)));
    }
}

/// An object filled field by field is no longer than its fields cost.
pub proof fn lemma_filled_object_len(fields: Seq<(Seq<char>, Json)>)
    ensures
        json_len(Json::Object(by_key(fields))) <= fields_cost(fields) + 2,
{
    lemma_by_key_cost(fields);
    lemma_entries_within_cost(by_key(fields));
    lemma_object_len(by_key(fields));
}

/// One more field costs its key, six bytes for each byte of it at most, and its
/// value.
pub proof fn lemma_push_cost(fields: Seq<(Seq<char>, Json)>, key: Seq<char>, value: Json)
    ensures
        fields_cost(fields.push((key, value))) <= fields_cost(fields) + 6 * byte_len(key)
            + json_len(value) + 4,
{
    assert(fields.push((key, value)).drop_last() =~= fields);
    lemma_quoted_len(key);
}

/// The JSON of a text, a count and a flag is short where the text is.
pub proof fn lemma_value_sizes(text: Seq<char>, count: nat, flag: bool)
    requires
        count <= u64::MAX,
    ensures
        json_len(Json::Text(text)) <= 6 * byte_len(text) + 2,
        json_len(json_count(count)) <= 20,
        json_len(Json::Bool(flag)) <= 5,
{
    lemma_quoted_len(text);
    lemma_decimal_bytes(count);
    reveal_strlit("true");
    reveal_strlit("false");
    lemma_ascii_len("true"@);
    lemma_ascii_len("false"@);
}

} // verus!
