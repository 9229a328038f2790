//! Text primitives: exact contracts over character sequences and UTF-8 bytes.

use vstd::prelude::*;
use vstd::string::*;
use vstd::utf8::*;

verus! {

/// `String::push` appends one character.
pub assume_specification[ String::push ](text: &mut String, c: char)
    ensures
        final(text)@ == old(text)@.push(c),
;

/// The texts held by a sequence of strings.
pub open spec fn texts(items: Seq<String>) -> Seq<Seq<char>> {
    Seq::new(items.len(), |i: int| items[i]@)
}

/// The text held by an optional string.
pub open spec fn optional_text(item: Option<String>) -> Option<Seq<char>> {
    match item {
        Some(text) => Some(text@),
        None => None,
    }
}

/// The number of UTF-8 bytes of a text.
pub open spec fn byte_len(text: Seq<char>) -> nat {
    encode_utf8(text).len()
}

pub open spec fn has_prefix(text: Seq<char>, prefix: Seq<char>) -> bool {
    prefix.len() <= text.len() && text.subrange(0, prefix.len() as int) == prefix
}

/// What follows `prefix` in `text`.
pub open spec fn without_prefix(text: Seq<char>, prefix: Seq<char>) -> Option<Seq<char>> {
    if has_prefix(text, prefix) {
        Some(text.subrange(prefix.len() as int, text.len() as int))
    } else {
        None
    }
}

/// The two sides of the first occurrence of `separator`.
pub open spec fn split_at_first(text: Seq<char>, separator: char) -> Option<(Seq<char>, Seq<char>)> {
    match text.index_of_first(separator) {
        Some(i) => Some((text.subrange(0, i), text.subrange(i + 1, text.len() as int))),
        None => None,
    }
}

/// Whether `needle` occurs in `text` at position `at`.
pub open spec fn occurs_at(text: Seq<char>, needle: Seq<char>, at: int) -> bool {
    0 <= at && at + needle.len() <= text.len() && text.subrange(at, at + needle.len()) == needle
}

pub open spec fn has_text(text: Seq<char>, needle: Seq<char>) -> bool {
    exists|at: int| occurs_at(text, needle, at)
}

/// The characters of a text.
pub fn chars_of(text: &str) -> (chars: Vec<char>)
    ensures
        chars@ == text@,
{
    let mut chars: Vec<char> = Vec::new();
    for c in it: text.chars()
        invariant
            chars@ == it.seq().take(it.index() as int),
            it.seq() == text@,
    {
        chars.push(c);
    }
    chars
}

/// The text spelled by `chars[from..to]`.
pub fn text_of(chars: &Vec<char>, from: usize, to: usize) -> (text: String)
    requires
        from <= to <= chars@.len(),
    ensures
        text@ == chars@.subrange(from as int, to as int),
{
    let mut text = String::new();
    let mut i: usize = from;
    while i < to
        invariant
            from <= i <= to <= chars@.len(),
            text@ == chars@.subrange(from as int, i as int),
        decreases to - i,
    {
        text.push(chars[i]);
        i = i + 1;
    }
    text
}

/// A copy of a list of texts.
pub fn copy_texts(items: &Vec<String>) -> (copies: Vec<String>)
    ensures
        texts(copies@) == texts(items@),
{
    let mut copies: Vec<String> = Vec::new();
    let mut i: usize = 0;
    while i < items.len()
        invariant
            i <= items@.len(),
            copies@.len() == i,
            forall|j: int| 0 <= j < i ==> (#[trigger] copies@[j])@ == items@[j]@,
        decreases items@.len() - i,
    {
        copies.push(items[i].clone());
        i = i + 1;
    }
    assert(texts(copies@) =~= texts(items@));
    copies
}

/// Whether two texts are equal.
pub fn same_text(left: &str, right: &str) -> (same: bool)
    ensures
        same == (left@ == right@),
{
    let a = left.as_bytes();
    let b = right.as_bytes();
    proof {
        encode_utf8_decode_utf8(left@);
        encode_utf8_decode_utf8(right@);
    }
    if a.len() != b.len() {
        return false;
    }
    let mut i: usize = 0;
    while i < a.len()
        invariant
            i <= a@.len(),
            a@.len() == b@.len(),
            a@ == left.spec_bytes(),
            b@ == right.spec_bytes(),
            forall|j: int| 0 <= j < i ==> a@[j] == b@[j],
        decreases a@.len() - i,
    {
        if a[i] != b[i] {
            return false;
        }
        i = i + 1;
    }
    assert(a@ =~= b@);
    true
}

/// The number of UTF-8 bytes of a text.
pub fn utf8_len(text: &str) -> (len: usize)
    ensures
        len == byte_len(text@),
{
    text.as_bytes().len()
}

pub fn concat2(a: &str, b: &str) -> (text: String)
    ensures
        text@ == a@ + b@,
{
    let mut text = a.to_owned();
    text.append(b);
    text
}

pub fn concat3(a: &str, b: &str, c: &str) -> (text: String)
    ensures
        text@ == a@ + b@ + c@,
{
    let mut text = a.to_owned();
    text.append(b);
    text.append(c);
    text
}

pub fn starts_with_text(text: &str, prefix: &str) -> (found: bool)
    ensures
        found == has_prefix(text@, prefix@),
{
    strip_prefix_text(text, prefix).is_some()
}

/// What follows `prefix` in `text`, if `text` starts with it.
pub fn strip_prefix_text(text: &str, prefix: &str) -> (rest: Option<String>)
    ensures
        optional_text(rest) == without_prefix(text@, prefix@),
{
    let chars = chars_of(text);
    let head = chars_of(prefix);
    if head.len() > chars.len() {
        return None;
    }
    let mut i: usize = 0;
    while i < head.len()
        invariant
            i <= head@.len() <= chars@.len(),
            chars@ == text@,
            head@ == prefix@,
            forall|j: int| 0 <= j < i ==> chars@[j] == head@[j],
        decreases head@.len() - i,
    {
        if chars[i] != head[i] {
            assert(text@.subrange(0, prefix@.len() as int)[i as int] != prefix@[i as int]);
            return None;
        }
        i = i + 1;
    }
    assert(text@.subrange(0, prefix@.len() as int) =~= prefix@);
    Some(text_of(&chars, head.len(), chars.len()))
}

/// Splits `text` at the first occurrence of `separator`.
pub fn split_once_char(text: &str, separator: char) -> (parts: Option<(String, String)>)
    ensures
        match parts {
            Some((left, right)) => split_at_first(text@, separator) == Some((left@, right@)),
            None => split_at_first(text@, separator) is None,
        },
{
    proof {
        text@.index_of_first_ensures(separator);
    }
    let chars = chars_of(text);
    let mut i: usize = 0;
    while i < chars.len()
        invariant
            i <= chars@.len(),
            chars@ == text@,
            forall|j: int| 0 <= j < i ==> chars@[j] != separator,
            match text@.index_of_first(separator) {
                Some(index) => 0 <= index < text@.len() && text@[index] == separator
                    && forall|j: int| 0 <= j < index < text@.len() ==> text@[j] != separator,
                None => !text@.contains(separator),
            },
        decreases chars@.len() - i,
    {
        if chars[i] == separator {
            assert(text@.contains(separator));
            return Some((text_of(&chars, 0, i), text_of(&chars, i + 1, chars.len())));
        }
        i = i + 1;
    }
    None
}

pub fn contains_char(text: &str, wanted: char) -> (found: bool)
    ensures
        found == text@.contains(wanted),
{
    let chars = chars_of(text);
    let mut i: usize = 0;
    while i < chars.len()
        invariant
            i <= chars@.len(),
            chars@ == text@,
            forall|j: int| 0 <= j < i ==> chars@[j] != wanted,
        decreases chars@.len() - i,
    {
        if chars[i] == wanted {
            return true;
        }
        i = i + 1;
    }
    false
}

/// Whether `needle` occurs anywhere in `text`.
pub fn contains_text(text: &str, needle: &str) -> (found: bool)
    ensures
        found == has_text(text@, needle@),
{
    let chars = chars_of(text);
    let wanted = chars_of(needle);
    if wanted.len() > chars.len() {
        return false;
    }
    let last: usize = chars.len() - wanted.len();
    let mut at: usize = 0;
    loop
        invariant
            at <= last,
            last + wanted@.len() == chars@.len(),
            chars@ == text@,
            wanted@ == needle@,
            forall|k: int| 0 <= k < at ==> !occurs_at(text@, needle@, k),
        decreases last - at,
    {
        let mut i: usize = 0;
        while i < wanted.len() && chars[at + i] == wanted[i]
            invariant
                i <= wanted@.len(),
                at + wanted.len() <= chars.len(),
                chars@ == text@,
                wanted@ == needle@,
                forall|j: int| 0 <= j < i ==> chars@[at + j] == wanted@[j],
            decreases wanted@.len() - i,
        {
            i = i + 1;
        }
        if i == wanted.len() {
            assert(text@.subrange(at as int, at + needle@.len()) =~= needle@);
            assert(occurs_at(text@, needle@, at as int));
            return true;
        }
        assert(!occurs_at(text@, needle@, at as int)) by {
            if occurs_at(text@, needle@, at as int) {
                assert(text@.subrange(at as int, at + needle@.len())[i as int] == needle@[i as int]);
            }
        }
        if at == last {
            return false;
        }
        at = at + 1;
    }
}

/// The suffix that marks a shortened text.
pub const TRUNCATION_SUFFIX: &'static str = "... (truncated)";

/// The largest character boundary of `bytes` that is at most `index`.
pub open spec fn floor_boundary(bytes: Seq<u8>, index: int) -> int
    decreases index,
{
    if index <= 0 {
        0
    } else if is_char_boundary(bytes, index) {
        index
    } else {
        floor_boundary(bytes, index - 1)
    }
}

/// The part of a text between two byte offsets.
pub open spec fn byte_slice(text: Seq<char>, from: int, to: int) -> Seq<char> {
    decode_utf8(encode_utf8(text).subrange(from, to))
}

/// A text cut to at most `max_bytes` bytes at a character boundary and marked
/// as shortened; a text that fits is kept whole.
pub open spec fn shortened(text: Seq<char>, max_bytes: nat) -> Seq<char> {
    if byte_len(text) <= max_bytes {
        text
    } else {
        byte_slice(text, 0, floor_boundary(encode_utf8(text), max_bytes as int))
            + TRUNCATION_SUFFIX@
    }
}

pub proof fn lemma_floor_boundary(bytes: Seq<u8>, index: int)
    requires
        valid_utf8(bytes),
        0 <= index <= bytes.len(),
    ensures
        0 <= floor_boundary(bytes, index) <= index,
        is_char_boundary(bytes, floor_boundary(bytes, index)),
        forall|k: int|
            floor_boundary(bytes, index) < k <= index ==> !#[trigger] is_char_boundary(bytes, k),
    decreases index,
{
    is_char_boundary_start_end_of_seq(bytes);
    if index > 0 && !is_char_boundary(bytes, index) {
        lemma_floor_boundary(bytes, index - 1);
    }
}

/// The largest character boundary of `text` that is at most `index`.
pub fn floor_char_boundary(text: &str, index: usize) -> (floor: usize)
    requires
        index <= byte_len(text@),
    ensures
        floor == floor_boundary(encode_utf8(text@), index as int),
        floor <= index,
        is_char_boundary(encode_utf8(text@), floor as int),
{
    let mut floor: usize = index;
    proof {
        encode_utf8_valid_utf8(text@);
        lemma_floor_boundary(encode_utf8(text@), index as int);
        is_char_boundary_start_end_of_seq(encode_utf8(text@));
    }
    while !text.is_char_boundary(floor)
        invariant
            floor <= index,
            floor_boundary(encode_utf8(text@), floor as int) == floor_boundary(
                encode_utf8(text@),
                index as int,
            ),
            is_char_boundary(encode_utf8(text@), 0),
        decreases floor,
    {
        floor = floor - 1;
    }
    floor
}

/// The part of `text` between two byte offsets that are character boundaries.
pub fn slice_text(text: &str, from: usize, to: usize) -> (slice: String)
    requires
        from <= to <= byte_len(text@),
        is_char_boundary(encode_utf8(text@), from as int),
        is_char_boundary(encode_utf8(text@), to as int),
    ensures
        slice@ == byte_slice(text@, from as int, to as int),
        encode_utf8(slice@) == encode_utf8(text@).subrange(from as int, to as int),
{
    let ghost bytes = encode_utf8(text@);
    let (head, _) = text.split_at(to);
    proof {
        encode_utf8_valid_utf8(text@);
        lemma_boundary_in_prefix(bytes, from as int, to as int);
    }
    let (_, slice) = head.split_at(from);
    proof {
        assert(bytes.subrange(0, to as int).subrange(from as int, to as int) =~= bytes.subrange(
            from as int,
            to as int,
        ));
        encode_utf8_decode_utf8(slice@);
    }
    slice.to_owned()
}

/// A boundary of a text is a boundary of every longer prefix of it.
pub proof fn lemma_boundary_in_prefix(bytes: Seq<u8>, from: int, to: int)
    requires
        valid_utf8(bytes),
        0 <= from <= to <= bytes.len(),
        is_char_boundary(bytes, from),
        is_char_boundary(bytes, to),
    ensures
        valid_utf8(bytes.subrange(0, to)),
        is_char_boundary(bytes.subrange(0, to), from),
{
    let head = bytes.subrange(0, to);
    valid_utf8_split(bytes, to);
    is_char_boundary_start_end_of_seq(head);
    if from < to {
        assert(head[from] == bytes[from]);
        is_char_boundary_iff_not_is_continuation_byte(bytes, from);
        is_char_boundary_iff_not_is_continuation_byte(head, from);
    }
}

/// Shortens a text to at most `max_bytes` bytes and marks the cut.
pub fn truncate_str(text: &str, max_bytes: usize) -> (result: String)
    ensures
        result@ == shortened(text@, max_bytes as nat),
{
    if utf8_len(text) <= max_bytes {
        return text.to_owned();
    }
    let end = floor_char_boundary(text, max_bytes);
    proof {
        encode_utf8_valid_utf8(text@);
        is_char_boundary_start_end_of_seq(encode_utf8(text@));
    }
    let head = slice_text(text, 0, end);
    concat2(head.as_str(), TRUNCATION_SUFFIX)
}

/// Whether `left` comes before `right` in code point order, which is also the
/// order of their UTF-8 bytes.
pub open spec fn text_before(left: Seq<char>, right: Seq<char>) -> bool
    decreases left.len(),
{
    if right.len() == 0 {
        false
    } else if left.len() == 0 {
        true
    } else if left[0] != right[0] {
        (left[0] as int) < (right[0] as int)
    } else {
        text_before(left.skip(1), right.skip(1))
    }
}

pub proof fn lemma_text_before_transitive(a: Seq<char>, b: Seq<char>, c: Seq<char>)
    requires
        text_before(a, b),
        text_before(b, c),
    ensures
        text_before(a, c),
    decreases a.len(),
{
    if a.len() > 0 && a[0] == b[0] && b[0] == c[0] {
        lemma_text_before_transitive(a.skip(1), b.skip(1), c.skip(1));
    }
}

pub proof fn lemma_text_before_total(a: Seq<char>, b: Seq<char>)
    ensures
        a == b || text_before(a, b) || text_before(b, a),
        !text_before(a, a),
    decreases a.len(),
{
    if a.len() > 0 {
        lemma_text_before_total(a.skip(1), a.skip(1));
    }
    if a.len() > 0 && b.len() > 0 && a[0] == b[0] {
        lemma_text_before_total(a.skip(1), b.skip(1));
        if a.skip(1) == b.skip(1) {
            assert(a =~= seq![a[0]] + a.skip(1));
            assert(b =~= seq![b[0]] + b.skip(1));
        }
    }
    if a.len() == 0 && b.len() == 0 {
        assert(a =~= b);
    }
}

/// Whether `left` comes before `right` in code point order.
pub fn comes_before(left: &str, right: &str) -> (before: bool)
    ensures
        before == text_before(left@, right@),
{
    let a = chars_of(left);
    let b = chars_of(right);
    let mut i: usize = 0;
    assert(a@.skip(0) =~= a@);
    assert(b@.skip(0) =~= b@);
    while i < a.len() && i < b.len()
        invariant
            a@ == left@,
            b@ == right@,
            i <= a@.len(),
            i <= b@.len(),
            text_before(left@, right@) == text_before(a@.skip(i as int), b@.skip(i as int)),
        decreases a@.len() - i,
    {
        assert(a@.skip(i as int).skip(1) =~= a@.skip(i + 1));
        assert(b@.skip(i as int).skip(1) =~= b@.skip(i + 1));
        if a[i] != b[i] {
            return a[i] < b[i];
        }
        i = i + 1;
    }
    i < b.len()
}

/// A text that fits is shown whole. A longer one is shown up to its last character
/// boundary within the limit, with a mark behind it: what is shown begins the
/// text, and no more whole characters would fit.
pub proof fn law_shortened_text_begins_the_text(text: Seq<char>, max_bytes: nat)
    ensures
        byte_len(text) <= max_bytes ==> shortened(text, max_bytes) == text,
        byte_len(text) > max_bytes ==> exists|cut: int|
            {
                &&& #[trigger] is_char_boundary(encode_utf8(text), cut)
                &&& 0 <= cut <= max_bytes
                &&& forall|later: int|
                    cut < later <= max_bytes ==> !#[trigger] is_char_boundary(
                        encode_utf8(text),
                        later,
                    )
                &&& encode_utf8(shortened(text, max_bytes)) == encode_utf8(text).subrange(0, cut)
                    + encode_utf8("... (truncated)"@)
            },
{
    if byte_len(text) > max_bytes {
        let bytes = encode_utf8(text);
        encode_utf8_valid_utf8(text);
        lemma_floor_boundary(bytes, max_bytes as int);
        let cut = floor_boundary(bytes, max_bytes as int);
        let head = byte_slice(text, 0, cut);
        valid_utf8_split(bytes, cut);
        decode_utf8_encode_utf8(bytes.subrange(0, cut));
        assert(encode_utf8(head) == bytes.subrange(0, cut));
        lemma_encode_concat(head, TRUNCATION_SUFFIX@);
        assert(is_char_boundary(bytes, cut));
    }
}

proof fn lemma_encode_concat(left: Seq<char>, right: Seq<char>)
    ensures
        encode_utf8(left + right) == encode_utf8(left) + encode_utf8(right),
    decreases left.len(),
{
    let all = left + right;
    if left.len() == 0 {
        assert(all =~= right);
        assert(encode_utf8(left) + encode_utf8(right) =~= encode_utf8(right));
    } else {
        assert(all.drop_first() =~= left.drop_first() + right);
        lemma_encode_concat(left.drop_first(), right);
        assert(encode_utf8(left) + encode_utf8(right) =~= encode_scalar(left[0] as u32) + (
        encode_utf8(left.drop_first()) + encode_utf8(right)));
    }
}

/// Texts are taken one by one, in order.
pub proof fn law_texts_are_taken_in_order(items: Seq<String>)
    ensures
        texts(items).len() == items.len(),
        forall|i: int| 0 <= i < items.len() ==> #[trigger] texts(items)[i] == items[i]@,
{
}

/// A text is parted at the first mark: what stands before it holds none, and the two
/// parts with the mark between them are the text. A text without the mark is not
/// parted.
pub proof fn law_text_is_parted_at_the_first_mark(text: Seq<char>, separator: char)
    ensures
        split_at_first(text, separator) is Some <==> text.contains(separator),
        split_at_first(text, separator) matches Some((left, right)) ==> {
            &&& text == left + seq![separator] + right
            &&& !left.contains(separator)
        },
{
    text.index_of_first_ensures(separator);
    if let Some((left, right)) = split_at_first(text, separator) {
        let at = text.index_of_first(separator)->0;
        assert(text[at] == separator);
        assert(text =~= left + seq![separator] + right);
        assert forall|i: int| 0 <= i < left.len() implies left[i] != separator by {
            assert(text[i] != separator);
        }
    }
}

/// A text begins with a prefix exactly where it is the prefix and something behind it,
/// and that is what is left without the prefix.
pub proof fn law_prefix_begins_the_text(text: Seq<char>, prefix: Seq<char>, rest: Seq<char>)
    ensures
        has_prefix(prefix + rest, prefix),
        without_prefix(prefix + rest, prefix) == Some(rest),
        has_prefix(text, prefix) <==> without_prefix(text, prefix) is Some,
        without_prefix(text, prefix) matches Some(behind) ==> text == prefix + behind,
{
    let full = prefix + rest;
    assert(full.subrange(0, prefix.len() as int) =~= prefix);
    assert(full.subrange(prefix.len() as int, full.len() as int) =~= rest);
    if let Some(behind) = without_prefix(text, prefix) {
        assert(text =~= prefix + behind);
    }
}

/// A text holds another exactly where it is something, the other, and something more.
pub proof fn law_text_holds_another_in_one_piece(
    text: Seq<char>,
    needle: Seq<char>,
    before: Seq<char>,
    behind: Seq<char>,
)
    ensures
        has_text(before + needle + behind, needle),
        has_text(text, needle) ==> exists|left: Seq<char>, right: Seq<char>|
            text == #[trigger] (left + needle + right),
{
    let full = before + needle + behind;
    let at = before.len() as int;
    assert(full.subrange(at, at + needle.len()) =~= needle);
    assert(occurs_at(full, needle, at));
    if has_text(text, needle) {
        let at = choose|at: int| occurs_at(text, needle, at);
        let left = text.subrange(0, at);
        let right = text.subrange(at + needle.len(), text.len() as int);
        assert(text =~= left + needle + right);
    }
}

/// Texts are ordered by their first difference, and a text stands before those that it
/// begins.
pub proof fn law_texts_are_ordered_by_first_difference(
    common: Seq<char>,
    first: char,
    second: char,
    left: Seq<char>,
    right: Seq<char>,
)
    ensures
        text_before(common, common + seq![first] + left),
        (first as int) < (second as int) ==> text_before(
            common + seq![first] + left,
            common + seq![second] + right,
        ),
        !text_before(common + seq![first] + left, common),
    decreases common.len(),
{
    let one = common + seq![first] + left;
    let two = common + seq![second] + right;
    if common.len() == 0 {
        assert(one[0] == first && two[0] == second);
    } else {
        let rest = common.skip(1);
        law_texts_are_ordered_by_first_difference(rest, first, second, left, right);
        assert(one[0] == common[0] && two[0] == common[0]);
        assert(one.skip(1) =~= rest + seq![first] + left);
        assert(two.skip(1) =~= rest + seq![second] + right);
    }
}

} // verus!
