//! Byte offsets into UTF-8 text.
//!
//! Every text surface addresses its content by byte offset, and every rule about text is stated
//! over characters. This module is the bridge: `offset_of` turns a character index into the byte
//! offset where that character begins, `index_of` is its inverse on the offsets that fall between
//! characters, and `is_boundary` says which offsets those are.

use vstd::prelude::*;
use vstd::string::*;
use vstd::utf8::*;

verus! {

/// The length of `chars` in UTF-8.
pub open spec fn byte_len(chars: Seq<char>) -> nat {
    encode_utf8(chars).len()
}

/// The byte offset at which character `i` of `chars` begins.
pub open spec fn offset_of(chars: Seq<char>, i: int) -> int {
    byte_len(chars.take(i)) as int
}

/// Whether `offset` falls between two characters of `chars`, or at either end.
pub open spec fn is_boundary(chars: Seq<char>, offset: int) -> bool {
    exists|i: int| 0 <= i <= chars.len() && #[trigger] offset_of(chars, i) == offset
}

/// The number of characters before the byte offset `offset`.
pub open spec fn index_of(chars: Seq<char>, offset: int) -> int {
    choose|i: int| 0 <= i <= chars.len() && #[trigger] offset_of(chars, i) == offset
}

/// `chars` with what lies between the byte offsets `start` and `end` replaced by `new`.
pub open spec fn spliced(chars: Seq<char>, start: int, end: int, new: Seq<char>) -> Seq<char> {
    chars.take(index_of(chars, start)) + new + chars.skip(index_of(chars, end))
}

/// What lies between the byte offsets `start` and `end` of `chars`.
pub open spec fn sliced(chars: Seq<char>, start: int, end: int) -> Seq<char> {
    chars.subrange(index_of(chars, start), index_of(chars, end))
}

/// A pair of offsets that can slice `chars`: both between characters, in order.
pub open spec fn is_span(chars: Seq<char>, start: int, end: int) -> bool {
    &&& start <= end
    &&& is_boundary(chars, start)
    &&& is_boundary(chars, end)
}

pub proof fn lemma_encode_concat(a: Seq<char>, b: Seq<char>)
    ensures
        encode_utf8(a + b) == encode_utf8(a) + encode_utf8(b),
    decreases a.len(),
{
    if a.len() == 0 {
        assert(a + b =~= b);
        assert(encode_utf8(a) + encode_utf8(b) =~= encode_utf8(b));
    } else {
        assert((a + b).drop_first() =~= a.drop_first() + b);
        lemma_encode_concat(a.drop_first(), b);
        assert(encode_utf8(a + b) =~= encode_utf8(a) + encode_utf8(b));
    }
}

/// The UTF-8 width of one character.
pub open spec fn width(c: char) -> nat {
    encode_scalar(c as u32).len()
}

pub proof fn lemma_width(c: char)
    ensures
        1 <= width(c) <= 4,
        byte_len(seq![c]) == width(c),
{
    let one = seq![c];
    assert(one.drop_first() =~= Seq::<char>::empty());
    assert(encode_utf8(one.drop_first()).len() == 0);
}

pub proof fn lemma_concat_len(a: Seq<char>, b: Seq<char>)
    ensures
        byte_len(a + b) == byte_len(a) + byte_len(b),
{
    lemma_encode_concat(a, b);
}

pub proof fn lemma_push_len(a: Seq<char>, c: char)
    ensures
        byte_len(a.push(c)) == byte_len(a) + width(c),
{
    assert(a.push(c) =~= a + seq![c]);
    lemma_concat_len(a, seq![c]);
    lemma_width(c);
}

/// Only the empty text takes no bytes.
pub proof fn lemma_len_positive(chars: Seq<char>)
    ensures
        byte_len(chars) == 0 <==> chars.len() == 0,
        byte_len(chars) >= chars.len(),
    decreases chars.len(),
{
    if chars.len() > 0 {
        let rest = chars.drop_last();
        lemma_len_positive(rest);
        lemma_push_len(rest, chars.last());
        lemma_width(chars.last());
        assert(rest.push(chars.last()) =~= chars);
    } else {
        assert(chars =~= Seq::<char>::empty());
    }
}

/// Character `i` occupies `width` bytes from its own offset.
pub proof fn lemma_offset_step(chars: Seq<char>, i: int)
    requires
        0 <= i < chars.len(),
    ensures
        offset_of(chars, i + 1) == offset_of(chars, i) + width(chars[i]),
        offset_of(chars, i) < offset_of(chars, i + 1),
{
    assert(chars.take(i + 1) =~= chars.take(i).push(chars[i]));
    lemma_push_len(chars.take(i), chars[i]);
    lemma_width(chars[i]);
}

pub proof fn lemma_offset_ends(chars: Seq<char>)
    ensures
        offset_of(chars, 0) == 0,
        offset_of(chars, chars.len() as int) == byte_len(chars),
        is_boundary(chars, 0),
        is_boundary(chars, byte_len(chars) as int),
{
    assert(chars.take(0) =~= Seq::<char>::empty());
    assert(chars.take(chars.len() as int) =~= chars);
    assert(offset_of(chars, 0) == 0);
    assert(offset_of(chars, chars.len() as int) == byte_len(chars));
}

/// Offsets grow with the index.
pub proof fn lemma_offset_monotone(chars: Seq<char>, i: int, j: int)
    requires
        0 <= i <= j <= chars.len(),
    ensures
        offset_of(chars, i) <= offset_of(chars, j),
        i < j ==> offset_of(chars, i) < offset_of(chars, j),
        offset_of(chars, j) <= byte_len(chars),
    decreases j - i,
{
    assert(chars =~= chars.take(j) + chars.skip(j));
    lemma_concat_len(chars.take(j), chars.skip(j));
    if i < j {
        lemma_offset_step(chars, j - 1);
        lemma_offset_monotone(chars, i, j - 1);
    }
}

/// `index_of` undoes `offset_of`.
pub proof fn lemma_index_of_offset(chars: Seq<char>, i: int)
    requires
        0 <= i <= chars.len(),
    ensures
        index_of(chars, offset_of(chars, i)) == i,
        is_boundary(chars, offset_of(chars, i)),
{
    let k = index_of(chars, offset_of(chars, i));
    assert(0 <= k <= chars.len() && offset_of(chars, k) == offset_of(chars, i));
    if k < i {
        lemma_offset_monotone(chars, k, i);
    } else if i < k {
        lemma_offset_monotone(chars, i, k);
    }
}

/// `offset_of` undoes `index_of` on a boundary.
pub proof fn lemma_offset_of_index(chars: Seq<char>, offset: int)
    requires
        is_boundary(chars, offset),
    ensures
        0 <= index_of(chars, offset) <= chars.len(),
        offset_of(chars, index_of(chars, offset)) == offset,
        0 <= offset <= byte_len(chars),
{
    let k = index_of(chars, offset);
    lemma_offset_monotone(chars, k, chars.len() as int);
}

/// `index_of` keeps the order of offsets.
pub proof fn lemma_index_monotone(chars: Seq<char>, a: int, b: int)
    requires
        is_boundary(chars, a),
        is_boundary(chars, b),
    ensures
        a <= b <==> index_of(chars, a) <= index_of(chars, b),
        a < b <==> index_of(chars, a) < index_of(chars, b),
{
    lemma_offset_of_index(chars, a);
    lemma_offset_of_index(chars, b);
    let i = index_of(chars, a);
    let j = index_of(chars, b);
    if i <= j {
        lemma_offset_monotone(chars, i, j);
    }
    if j <= i {
        lemma_offset_monotone(chars, j, i);
    }
}

proof fn lemma_boundary_in_tail(chars: Seq<char>, offset: int)
    requires
        chars.len() > 0,
        offset != 0,
    ensures
        is_boundary(chars, offset) <==> is_boundary(chars.drop_first(), offset - width(chars[0])),
{
    let tail = chars.drop_first();
    assert forall|i: int| 0 <= i <= tail.len() implies #[trigger] offset_of(chars, i + 1)
        == width(chars[0]) + offset_of(tail, i) by {
        assert(chars.take(i + 1) =~= seq![chars[0]] + tail.take(i));
        lemma_concat_len(seq![chars[0]], tail.take(i));
        lemma_width(chars[0]);
    }
    lemma_offset_ends(chars);
    if is_boundary(chars, offset) {
        let i = index_of(chars, offset);
        assert(i != 0);
        assert(offset_of(chars, (i - 1) + 1) == width(chars[0]) + offset_of(tail, i - 1));
    }
    if is_boundary(tail, offset - width(chars[0])) {
        let i = index_of(tail, offset - width(chars[0]));
        assert(offset_of(chars, i + 1) == width(chars[0]) + offset_of(tail, i));
    }
}

/// `is_boundary` is what `str::is_char_boundary` answers.
pub proof fn lemma_boundary_is_char_boundary(chars: Seq<char>, offset: int)
    ensures
        is_boundary(chars, offset) <==> is_char_boundary(encode_utf8(chars), offset),
    decreases chars.len(),
{
    let bytes = encode_utf8(chars);
    encode_utf8_valid_utf8(chars);
    lemma_offset_ends(chars);
    if offset == 0 {
    } else if offset < 0 || byte_len(chars) < offset {
        if is_boundary(chars, offset) {
            lemma_offset_of_index(chars, offset);
        }
    } else {
        encode_utf8_first_scalar(chars);
        assert(pop_first_scalar(bytes) =~= encode_utf8(chars.drop_first()));
        lemma_boundary_is_char_boundary(chars.drop_first(), offset - width(chars[0]));
        lemma_boundary_in_tail(chars, offset);
    }
}

/// The bytes before and after a boundary encode the characters before and after it.
pub proof fn lemma_split_bytes(chars: Seq<char>, offset: int)
    requires
        is_boundary(chars, offset),
    ensures
        encode_utf8(chars).subrange(0, offset) == encode_utf8(chars.take(index_of(chars, offset))),
        encode_utf8(chars).subrange(offset, byte_len(chars) as int) == encode_utf8(
            chars.skip(index_of(chars, offset)),
        ),
        byte_len(chars.skip(index_of(chars, offset))) == byte_len(chars) - offset,
{
    let i = index_of(chars, offset);
    lemma_offset_of_index(chars, offset);
    assert(chars =~= chars.take(i) + chars.skip(i));
    lemma_encode_concat(chars.take(i), chars.skip(i));
    let bytes = encode_utf8(chars);
    assert(bytes.subrange(0, offset) =~= encode_utf8(chars.take(i)));
    assert(bytes.subrange(offset, bytes.len() as int) =~= encode_utf8(chars.skip(i)));
}

/// Two texts with the same bytes are the same text.
pub proof fn lemma_encode_injective(a: Seq<char>, b: Seq<char>)
    requires
        encode_utf8(a) == encode_utf8(b),
    ensures
        a == b,
{
    encode_utf8_decode_utf8(a);
    encode_utf8_decode_utf8(b);
}

/// `char::len_utf8`: the number of bytes the character takes in UTF-8.
pub assume_specification[ char::len_utf8 ](c: char) -> (n: usize)
    ensures
        n == width(c),
;

/// The number of UTF-16 code units one character takes.
pub open spec fn width16(c: char) -> nat {
    if (c as u32) < 0x1_0000 {
        1
    } else {
        2
    }
}

/// The length of `chars` in UTF-16 code units.
pub open spec fn utf16_len(chars: Seq<char>) -> nat
    decreases chars.len(),
{
    if chars.len() == 0 {
        0
    } else {
        utf16_len(chars.drop_last()) + width16(chars.last())
    }
}

/// The first character index at or after `from` whose UTF-16 offset reaches `target`, or the end.
pub open spec fn reaching_utf16(chars: Seq<char>, target: int, from: int) -> int
    decreases chars.len() - from,
{
    if from >= chars.len() || utf16_len(chars.take(from)) >= target {
        from
    } else {
        reaching_utf16(chars, target, from + 1)
    }
}

/// The first character index at or after `from` whose byte offset reaches `target`, or the end.
pub open spec fn reaching_byte(chars: Seq<char>, target: int, from: int) -> int
    decreases chars.len() - from,
{
    if from >= chars.len() || offset_of(chars, from) >= target {
        from
    } else {
        reaching_byte(chars, target, from + 1)
    }
}

/// The byte offset that the UTF-16 offset `target` stands for.
pub open spec fn from_utf16(chars: Seq<char>, target: int) -> int {
    offset_of(chars, reaching_utf16(chars, target, 0))
}

/// The UTF-16 offset that the byte offset `target` stands for.
pub open spec fn to_utf16(chars: Seq<char>, target: int) -> int {
    utf16_len(chars.take(reaching_byte(chars, target, 0))) as int
}

pub proof fn lemma_utf16_step(chars: Seq<char>, i: int)
    requires
        0 <= i < chars.len(),
    ensures
        utf16_len(chars.take(i + 1)) == utf16_len(chars.take(i)) + width16(chars[i]),
        width16(chars[i]) <= width(chars[i]),
{
    assert(chars.take(i + 1).drop_last() =~= chars.take(i));
    assert(chars.take(i + 1).last() == chars[i]);
}

proof fn lemma_utf16_monotone(chars: Seq<char>, i: int, j: int)
    requires
        0 <= i <= j <= chars.len(),
    ensures
        utf16_len(chars.take(i)) <= utf16_len(chars.take(j)),
        i < j ==> utf16_len(chars.take(i)) < utf16_len(chars.take(j)),
    decreases j - i,
{
    if i < j {
        lemma_utf16_step(chars, j - 1);
        lemma_utf16_monotone(chars, i, j - 1);
    }
}

/// A UTF-16 offset never stands for a byte offset inside a character.
pub proof fn lemma_from_utf16_is_boundary(chars: Seq<char>, target: int)
    ensures
        is_boundary(chars, from_utf16(chars, target)),
        0 <= reaching_utf16(chars, target, 0) <= chars.len(),
{
    lemma_reaching_utf16_bounds(chars, target, 0);
    assert(offset_of(chars, reaching_utf16(chars, target, 0)) == from_utf16(chars, target));
}

proof fn lemma_reaching_utf16_bounds(chars: Seq<char>, target: int, from: int)
    requires
        0 <= from <= chars.len(),
    ensures
        from <= reaching_utf16(chars, target, from) <= chars.len(),
    decreases chars.len() - from,
{
    if !(from >= chars.len() || utf16_len(chars.take(from)) >= target) {
        lemma_reaching_utf16_bounds(chars, target, from + 1);
    }
}

proof fn lemma_reaching_utf16_hits(chars: Seq<char>, i: int, from: int)
    requires
        0 <= from <= i <= chars.len(),
    ensures
        reaching_utf16(chars, utf16_len(chars.take(i)) as int, from) == i,
    decreases i - from,
{
    lemma_utf16_monotone(chars, from, i);
    if from < i {
        lemma_reaching_utf16_hits(chars, i, from + 1);
    }
}

proof fn lemma_reaching_byte_hits(chars: Seq<char>, i: int, from: int)
    requires
        0 <= from <= i <= chars.len(),
    ensures
        reaching_byte(chars, offset_of(chars, i), from) == i,
    decreases i - from,
{
    lemma_offset_monotone(chars, from, i);
    if from < i {
        lemma_reaching_byte_hits(chars, i, from + 1);
    }
}

/// UTF-16 offsets keep their order in bytes.
pub proof fn lemma_from_utf16_monotone(chars: Seq<char>, a: int, b: int)
    requires
        a <= b,
    ensures
        from_utf16(chars, a) <= from_utf16(chars, b),
{
    lemma_reaching_utf16_monotone(chars, a, b, 0);
    lemma_reaching_utf16_bounds(chars, a, 0);
    lemma_reaching_utf16_bounds(chars, b, 0);
    lemma_offset_monotone(chars, reaching_utf16(chars, a, 0), reaching_utf16(chars, b, 0));
}

proof fn lemma_reaching_utf16_monotone(chars: Seq<char>, a: int, b: int, from: int)
    requires
        a <= b,
        0 <= from <= chars.len(),
    ensures
        reaching_utf16(chars, a, from) <= reaching_utf16(chars, b, from),
    decreases chars.len() - from,
{
    lemma_reaching_utf16_bounds(chars, b, from);
    if from < chars.len() && utf16_len(chars.take(from)) < a {
        lemma_reaching_utf16_monotone(chars, a, b, from + 1);
    }
}

/// Converting a boundary to UTF-16 and back returns it.
pub proof fn utf16_round_trip(chars: Seq<char>, offset: int)
    requires
        is_boundary(chars, offset),
    ensures
        from_utf16(chars, to_utf16(chars, offset)) == offset,
{
    let i = index_of(chars, offset);
    lemma_offset_of_index(chars, offset);
    lemma_reaching_byte_hits(chars, i, 0);
    lemma_reaching_utf16_hits(chars, i, 0);
}

/// A UTF-16 offset of a whole number of characters survives the trip through bytes.
pub proof fn utf16_round_trip_back(chars: Seq<char>, i: int)
    requires
        0 <= i <= chars.len(),
    ensures
        to_utf16(chars, from_utf16(chars, utf16_len(chars.take(i)) as int)) == utf16_len(
            chars.take(i),
        ),
{
    lemma_reaching_utf16_hits(chars, i, 0);
    lemma_reaching_byte_hits(chars, i, 0);
}

/// `char::len_utf16`: the number of 16-bit code units the character takes in UTF-16.
pub assume_specification[ char::len_utf16 ](c: char) -> (n: usize)
    ensures
        n == width16(c),
;

/// The byte offset that a UTF-16 offset stands for; past the end, the end.
pub fn offset_from_utf16(text: &str, target: usize) -> (offset: usize)
    ensures
        offset == from_utf16(text@, target as int),
        is_boundary(text@, offset as int),
{
    let chars = chars_of(text);
    let total: usize = byte_length(text);
    let mut utf8: usize = 0;
    let mut utf16: usize = 0;
    let mut i: usize = 0;
    while i < chars.len() && utf16 < target
        invariant
            0 <= i <= chars.len(),
            chars@ == text@,
            total == byte_len(text@),
            utf8 == offset_of(text@, i as int),
            utf16 == utf16_len(text@.take(i as int)),
            utf16 <= utf8 <= total,
            reaching_utf16(text@, target as int, 0) == reaching_utf16(text@, target as int, i as int),
        decreases chars.len() - i,
    {
        proof {
            lemma_offset_step(text@, i as int);
            lemma_utf16_step(text@, i as int);
            lemma_offset_monotone(text@, i + 1, text@.len() as int);
        }
        let c = chars[i];
        utf16 = utf16 + c.len_utf16();
        utf8 = utf8 + c.len_utf8();
        i = i + 1;
    }
    proof {
        lemma_index_of_offset(text@, i as int);
    }
    utf8
}

/// The UTF-16 offset that a byte offset stands for; past the end, the end.
pub fn offset_to_utf16(text: &str, target: usize) -> (offset: usize)
    ensures
        offset == to_utf16(text@, target as int),
{
    let chars = chars_of(text);
    let total: usize = byte_length(text);
    let mut utf8: usize = 0;
    let mut utf16: usize = 0;
    let mut i: usize = 0;
    while i < chars.len() && utf8 < target
        invariant
            0 <= i <= chars.len(),
            chars@ == text@,
            total == byte_len(text@),
            utf8 == offset_of(text@, i as int),
            utf16 == utf16_len(text@.take(i as int)),
            utf16 <= utf8 <= total,
            reaching_byte(text@, target as int, 0) == reaching_byte(text@, target as int, i as int),
        decreases chars.len() - i,
    {
        proof {
            lemma_offset_step(text@, i as int);
            lemma_utf16_step(text@, i as int);
            lemma_offset_monotone(text@, i + 1, text@.len() as int);
        }
        let c = chars[i];
        utf8 = utf8 + c.len_utf8();
        utf16 = utf16 + c.len_utf16();
        i = i + 1;
    }
    utf16
}

/// The length of `text` in bytes.
pub fn byte_length(text: &str) -> (n: usize)
    ensures
        n == byte_len(text@),
{
    text.as_bytes().len()
}

/// The text before a boundary.
pub fn prefix<'a>(text: &'a str, offset: usize) -> (r: &'a str)
    requires
        is_boundary(text@, offset as int),
    ensures
        r@ == text@.take(index_of(text@, offset as int)),
{
    proof {
        lemma_boundary_is_char_boundary(text@, offset as int);
        lemma_split_bytes(text@, offset as int);
    }
    let (before, _) = text.split_at(offset);
    proof {
        lemma_encode_injective(before@, text@.take(index_of(text@, offset as int)));
    }
    before
}

/// The text after a boundary.
pub fn suffix<'a>(text: &'a str, offset: usize) -> (r: &'a str)
    requires
        is_boundary(text@, offset as int),
    ensures
        r@ == text@.skip(index_of(text@, offset as int)),
{
    proof {
        lemma_boundary_is_char_boundary(text@, offset as int);
        lemma_split_bytes(text@, offset as int);
    }
    let (_, after) = text.split_at(offset);
    proof {
        lemma_encode_injective(after@, text@.skip(index_of(text@, offset as int)));
    }
    after
}

/// The characters of `text`.
pub fn chars_of(text: &str) -> (chars: Vec<char>)
    ensures
        chars@ == text@,
{
    let mut chars: Vec<char> = Vec::new();
    for c in it: text.chars()
        invariant
            chars@ == text@.take(it.index()),
            it.seq() == text@,
    {
        proof {
            assert(text@.take(it.index() + 1) =~= text@.take(it.index()).push(c));
        }
        chars.push(c);
    }
    proof {
        assert(text@.take(text@.len() as int) =~= text@);
    }
    chars
}

/// The number of characters before a boundary.
pub fn char_index(text: &str, offset: usize) -> (index: usize)
    requires
        is_boundary(text@, offset as int),
    ensures
        index == index_of(text@, offset as int),
{
    chars_of(prefix(text, offset)).len()
}

/// The byte offset of character `index`.
pub fn char_offset(chars: &Vec<char>, index: usize) -> (offset: usize)
    requires
        index <= chars.len(),
        byte_len(chars@) <= usize::MAX,
    ensures
        offset == offset_of(chars@, index as int),
{
    let mut offset: usize = 0;
    let mut i: usize = 0;
    proof {
        lemma_offset_ends(chars@);
    }
    while i < index
        invariant
            0 <= i <= index <= chars.len(),
            byte_len(chars@) <= usize::MAX,
            offset == offset_of(chars@, i as int),
        decreases index - i,
    {
        proof {
            lemma_offset_step(chars@, i as int);
            lemma_offset_monotone(chars@, i + 1, chars@.len() as int);
        }
        offset = offset + chars[i].len_utf8();
        i = i + 1;
    }
    offset
}

/// The text between two boundaries.
pub fn slice<'a>(text: &'a str, start: usize, end: usize) -> (r: &'a str)
    requires
        is_span(text@, start as int, end as int),
    ensures
        r@ == sliced(text@, start as int, end as int),
{
    let ghost i = index_of(text@, start as int);
    let ghost j = index_of(text@, end as int);
    let head = prefix(text, end);
    proof {
        lemma_offset_of_index(text@, start as int);
        lemma_offset_of_index(text@, end as int);
        lemma_index_monotone(text@, start as int, end as int);
        assert(head@.take(i) =~= text@.take(i));
        assert(offset_of(head@, i) == start);
        lemma_index_of_offset(head@, i);
    }
    let r = suffix(head, start);
    proof {
        assert(r@ =~= text@.subrange(i, j));
    }
    r
}

/// What replacing a stretch does to the offsets around it.
pub proof fn lemma_spliced(chars: Seq<char>, start: int, end: int, new: Seq<char>)
    requires
        is_boundary(chars, start),
        is_boundary(chars, end),
    ensures
        byte_len(spliced(chars, start, end, new)) == start + byte_len(new) + (byte_len(chars) - end),
        is_boundary(spliced(chars, start, end, new), start),
        is_boundary(spliced(chars, start, end, new), start + byte_len(new)),
        index_of(spliced(chars, start, end, new), start) == index_of(chars, start),
        index_of(spliced(chars, start, end, new), start + byte_len(new)) == index_of(chars, start)
            + new.len(),
{
    let i = index_of(chars, start);
    let r = spliced(chars, start, end, new);
    lemma_offset_of_index(chars, start);
    lemma_offset_of_index(chars, end);
    lemma_split_bytes(chars, end);
    let tail = chars.skip(index_of(chars, end));
    lemma_concat_len(chars.take(i) + new, tail);
    lemma_concat_len(chars.take(i), new);
    assert(r.take(i) =~= chars.take(i));
    assert(offset_of(r, i) == start);
    lemma_index_of_offset(r, i);
    assert(r.take(i + new.len()) =~= chars.take(i) + new);
    assert(offset_of(r, i + new.len()) == start + byte_len(new));
    lemma_index_of_offset(r, i + new.len());
}

/// A boundary of what is put in is one of the whole, shifted by where it was put.
pub proof fn lemma_spliced_inside(chars: Seq<char>, start: int, end: int, new: Seq<char>, x: int)
    requires
        is_boundary(chars, start),
        is_boundary(chars, end),
        is_boundary(new, x),
    ensures
        is_boundary(spliced(chars, start, end, new), start + x),
{
    let r = spliced(chars, start, end, new);
    let i = index_of(chars, start);
    let k = index_of(new, x);
    lemma_offset_of_index(chars, start);
    lemma_offset_of_index(chars, end);
    lemma_offset_of_index(new, x);
    assert(r.take(i + k) =~= chars.take(i) + new.take(k));
    lemma_concat_len(chars.take(i), new.take(k));
    assert(offset_of(r, i + k) == start + x);
    lemma_index_of_offset(r, i + k);
}

/// Text before a splice keeps its offsets.
pub proof fn lemma_spliced_prefix(chars: Seq<char>, start: int, end: int, new: Seq<char>, x: int)
    requires
        is_boundary(chars, start),
        is_boundary(chars, end),
        is_boundary(chars, x),
        x <= start,
    ensures
        is_boundary(spliced(chars, start, end, new), x),
        index_of(spliced(chars, start, end, new), x) == index_of(chars, x),
{
    let r = spliced(chars, start, end, new);
    let k = index_of(chars, x);
    lemma_offset_of_index(chars, x);
    lemma_offset_of_index(chars, start);
    lemma_offset_of_index(chars, end);
    lemma_index_monotone(chars, x, start);
    assert(r.take(k) =~= chars.take(k));
    assert(offset_of(r, k) == x);
    lemma_index_of_offset(r, k);
}

/// The text with everything between two boundaries replaced.
pub fn splice(text: &str, start: usize, end: usize, new: &str) -> (r: String)
    requires
        is_boundary(text@, start as int),
        is_boundary(text@, end as int),
    ensures
        r@ == spliced(text@, start as int, end as int, new@),
        start + byte_len(new@) <= byte_len(r@) <= usize::MAX,
{
    let mut r = prefix(text, start).to_owned();
    r.append(new);
    r.append(suffix(text, end));
    let _len: usize = byte_length(r.as_str());
    proof {
        lemma_spliced(text@, start as int, end as int, new@);
        lemma_offset_of_index(text@, end as int);
    }
    r
}

/// `String::push`: the character is added at the end.
pub assume_specification[ String::push ](s: &mut String, c: char)
    ensures
        final(s)@ == old(s)@.push(c),
;

/// UTF-16 counts a character of the first plane as one unit and any other as two, and the units of
/// a text are those of its parts together.
pub proof fn utf16_units_add_up(a: Seq<char>, b: Seq<char>, c: char)
    ensures
        utf16_len(a + b) == utf16_len(a) + utf16_len(b),
        utf16_len(seq![c]) == (if (c as u32) <= 0xffff {
            1nat
        } else {
            2nat
        }),
    decreases b.len(),
{
    assert(seq![c].drop_last() =~= Seq::<char>::empty());
    assert(utf16_len(Seq::<char>::empty()) == 0);
    if b.len() == 0 {
        assert(a + b =~= a);
    } else {
        utf16_units_add_up(a, b.drop_last(), c);
        assert((a + b).drop_last() =~= a + b.drop_last());
        assert((a + b).last() == b.last());
    }
}

/// A UTF-16 offset stands for the first place between characters that reaches it, and the end
/// where none does; a byte offset likewise.
pub proof fn an_offset_stands_for_the_first_place_that_reaches_it(chars: Seq<char>, target: int)
    ensures
        exists|i: int|
            0 <= i <= chars.len() && from_utf16(chars, target) == #[trigger] offset_of(chars, i)
                && (i < chars.len() ==> utf16_len(chars.take(i)) >= target) && (forall|k: int|
                0 <= k < i ==> utf16_len(#[trigger] chars.take(k)) < target),
        exists|i: int|
            0 <= i <= chars.len() && to_utf16(chars, target) == utf16_len(#[trigger] chars.take(i))
                && (i < chars.len() ==> offset_of(chars, i) >= target) && (forall|k: int|
                0 <= k < i ==> #[trigger] offset_of(chars, k) < target),
{
    lemma_reaching_utf16_is_first(chars, target, 0);
    lemma_reaching_byte_is_first(chars, target, 0);
    let i = reaching_utf16(chars, target, 0);
    assert(from_utf16(chars, target) == offset_of(chars, i));
    let j = reaching_byte(chars, target, 0);
    assert(to_utf16(chars, target) == utf16_len(chars.take(j)));
}

proof fn lemma_reaching_utf16_is_first(chars: Seq<char>, target: int, from: int)
    requires
        0 <= from <= chars.len(),
        forall|k: int| 0 <= k < from ==> utf16_len(#[trigger] chars.take(k)) < target,
    ensures
        ({
            let i = reaching_utf16(chars, target, from);
            &&& from <= i <= chars.len()
            &&& i < chars.len() ==> utf16_len(chars.take(i)) >= target
            &&& forall|k: int| 0 <= k < i ==> utf16_len(#[trigger] chars.take(k)) < target
        }),
    decreases chars.len() - from,
{
    if from < chars.len() && utf16_len(chars.take(from)) < target {
        lemma_reaching_utf16_is_first(chars, target, from + 1);
    }
}

proof fn lemma_reaching_byte_is_first(chars: Seq<char>, target: int, from: int)
    requires
        0 <= from <= chars.len(),
        forall|k: int| 0 <= k < from ==> #[trigger] offset_of(chars, k) < target,
    ensures
        ({
            let i = reaching_byte(chars, target, from);
            &&& from <= i <= chars.len()
            &&& i < chars.len() ==> offset_of(chars, i) >= target
            &&& forall|k: int| 0 <= k < i ==> #[trigger] offset_of(chars, k) < target
        }),
    decreases chars.len() - from,
{
    if from < chars.len() && offset_of(chars, from) < target {
        lemma_reaching_byte_is_first(chars, target, from + 1);
    }
}

} // verus!
