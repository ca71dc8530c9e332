//! Small string operations, stated over characters.

use crate::input::words;
use crate::text;
use vstd::prelude::*;
use vstd::string::*;

verus! {

/// The decimal digit `d`.
pub open spec fn digit(d: int) -> char {
    (48 + d) as char
}

/// `n` written in decimal.
pub open spec fn decimal(n: nat) -> Seq<char>
    decreases n,
{
    if n < 10 {
        seq![digit(n as int)]
    } else {
        decimal(n / 10).push(digit((n % 10) as int))
    }
}

/// `n` written in decimal.
pub fn decimal_string(n: u64) -> (r: String)
    ensures
        r@ == decimal(n as nat),
    decreases n,
{
    let last: u8 = 48 + (n % 10) as u8;
    if n < 10 {
        let mut r = String::new();
        r.push(last as char);
        proof {
            assert(r@ =~= seq![digit(n as int)]);
        }
        r
    } else {
        let mut r = decimal_string(n / 10);
        r.push(last as char);
        r
    }
}

pub open spec fn is_digit(c: char) -> bool {
    '0' <= c && c <= '9'
}

pub open spec fn all_digits(chars: Seq<char>) -> bool {
    forall|i: int| 0 <= i < chars.len() ==> is_digit(#[trigger] chars[i])
}

/// The number that decimal digits write.
pub open spec fn value_of(digits: Seq<char>) -> int
    decreases digits.len(),
{
    if digits.len() == 0 {
        0
    } else {
        value_of(digits.drop_last()) * 10 + (digits.last() as int - '0' as int)
    }
}

/// The number that a text writes, where it is nothing but digits after an optional `+` and the
/// number is at most `max`.
pub open spec fn number_in(chars: Seq<char>, max: int) -> Option<int> {
    let digits = if chars.len() > 0 && chars[0] == '+' {
        chars.drop_first()
    } else {
        chars
    };
    if digits.len() > 0 && all_digits(digits) && value_of(digits) <= max {
        Some(value_of(digits))
    } else {
        None
    }
}

proof fn lemma_value_grows(digits: Seq<char>, n: int)
    requires
        all_digits(digits),
        0 <= n <= digits.len(),
    ensures
        0 <= value_of(digits.take(n)) <= value_of(digits),
    decreases digits.len(),
{
    if n < digits.len() {
        let rest = digits.drop_last();
        assert(all_digits(rest)) by {
            assert forall|i: int| 0 <= i < rest.len() implies is_digit(#[trigger] rest[i]) by {
                assert(rest[i] == digits[i]);
            }
        }
        assert(is_digit(digits[digits.len() - 1]));
        lemma_value_grows(rest, n);
        assert(rest.take(n) =~= digits.take(n));
    } else {
        assert(digits.take(n) =~= digits);
        if digits.len() > 0 {
            let rest = digits.drop_last();
            assert forall|i: int| 0 <= i < rest.len() implies is_digit(#[trigger] rest[i]) by {
                assert(rest[i] == digits[i]);
            }
            assert(is_digit(digits[digits.len() - 1]));
            lemma_value_grows(rest, 0);
        }
    }
}

/// A number written in decimal is read back.
pub proof fn a_written_number_is_read_back(n: nat, max: int)
    requires
        n <= max,
    ensures
        number_in(decimal(n), max) == Some(n as int),
{
    lemma_decimal(n);
    assert(is_digit(decimal(n)[0]));
}

/// What decimal writes is digits that say the number.
pub proof fn lemma_decimal(n: nat)
    ensures
        decimal(n).len() > 0,
        all_digits(decimal(n)),
        value_of(decimal(n)) == n,
    decreases n,
{
    reveal_with_fuel(value_of, 2);
    if n < 10 {
        assert(decimal(n).drop_last() =~= Seq::<char>::empty());
    } else {
        lemma_decimal(n / 10);
        assert(decimal(n).drop_last() =~= decimal(n / 10));
    }
}

/// The number that a text writes, where it is nothing but digits after an optional `+` and fits.
pub fn parse_u16(text: &str) -> (r: Option<u16>)
    ensures
        number_in(text@, u16::MAX as int) == (match r {
            Some(n) => Some(n as int),
            None => None,
        }),
{
    let chars = text::chars_of(text);
    let start: usize = if chars.len() > 0 && chars[0] == '+' {
        1
    } else {
        0
    };
    let ghost digits = text@.skip(start as int);
    proof {
        assert(text@.skip(0) =~= text@);
        assert(start == 1 ==> digits =~= text@.drop_first());
    }
    if start == chars.len() {
        return None;
    }
    let mut n: u32 = 0;
    let mut i: usize = start;
    proof {
        assert(digits.take(0) =~= Seq::<char>::empty());
    }
    while i < chars.len()
        invariant
            start <= i <= chars.len(),
            chars@ == text@,
            digits == text@.skip(start as int),
            digits.len() > 0,
            number_in(text@, u16::MAX as int) == (if all_digits(digits) && value_of(digits)
                <= u16::MAX {
                Some(value_of(digits))
            } else {
                None
            }),
            n == value_of(digits.take(i - start)),
            n <= u16::MAX,
            forall|k: int| 0 <= k < i - start ==> is_digit(#[trigger] digits[k]),
        decreases chars.len() - i,
    {
        let c = chars[i];
        proof {
            assert(digits[i - start] == c);
            assert(digits.take(i - start + 1).drop_last() =~= digits.take(i - start));
            assert(digits.take(i - start + 1).last() == c);
        }
        if c < '0' || c > '9' {
            return None;
        }
        n = n * 10 + (c as u32 - '0' as u32);
        if n > 65535 {
            proof {
                if all_digits(digits) {
                    lemma_value_grows(digits, i - start + 1);
                }
            }
            return None;
        }
        i = i + 1;
    }
    proof {
        assert(digits.take(digits.len() as int) =~= digits);
    }
    Some(n as u16)
}

/// The text of an optional string slice.
pub open spec fn str_text(text: Option<&str>) -> Option<Seq<char>> {
    match text {
        Some(s) => Some(s@),
        None => None,
    }
}

/// A copy of a list of strings.
pub fn clone_list(list: &Vec<String>) -> (r: Vec<String>)
    ensures
        r@ == list@,
{
    let r = list.clone();
    proof {
        assert forall|i: int| 0 <= i < list.len() implies r@[i] == #[trigger] list@[i] by {
            assert(cloned::<String>(list[i], r[i]));
        }
        assert(r@ =~= list@);
    }
    r
}

/// A copy of an optional string.
pub fn clone_option(string: &Option<String>) -> (r: Option<String>)
    ensures
        r == *string,
{
    match string {
        Some(s) => Some(s.clone()),
        None => None,
    }
}

/// Whether `needle` stands in `chars` at index `i`.
pub open spec fn matches_at(chars: Seq<char>, needle: Seq<char>, i: int) -> bool {
    &&& 0 <= i
    &&& i + needle.len() <= chars.len()
    &&& chars.subrange(i, i + needle.len()) == needle
}

/// Whether `needle` stands anywhere in `chars`.
pub open spec fn has_substring(chars: Seq<char>, needle: Seq<char>) -> bool {
    exists|i: int| matches_at(chars, needle, i)
}

/// Whether `chars` begins with `needle`.
pub open spec fn has_prefix(chars: Seq<char>, needle: Seq<char>) -> bool {
    matches_at(chars, needle, 0)
}

/// An ASCII capital made small; every other character is itself.
pub open spec fn ascii_lower(c: char) -> char {
    if 'A' <= c && c <= 'Z' {
        ((c as u32) + 32) as char
    } else {
        c
    }
}

/// `chars` with its ASCII capitals made small.
pub open spec fn lowered(chars: Seq<char>) -> Seq<char> {
    chars.map_values(|c: char| ascii_lower(c))
}

/// `chars` without its leading whitespace.
pub open spec fn trimmed_start(chars: Seq<char>) -> Seq<char>
    decreases chars.len(),
{
    if chars.len() == 0 || !words::is_whitespace_char(chars[0]) {
        chars
    } else {
        trimmed_start(chars.drop_first())
    }
}

/// `chars` without its trailing whitespace.
pub open spec fn trimmed_end(chars: Seq<char>) -> Seq<char>
    decreases chars.len(),
{
    if chars.len() == 0 || !words::is_whitespace_char(chars.last()) {
        chars
    } else {
        trimmed_end(chars.drop_last())
    }
}

/// `chars` without the whitespace around it.
pub open spec fn trimmed(chars: Seq<char>) -> Seq<char> {
    trimmed_end(trimmed_start(chars))
}

/// Whether there is nothing but whitespace.
pub open spec fn is_blank(chars: Seq<char>) -> bool {
    trimmed(chars).len() == 0
}

/// The parts of `chars` between the occurrences of `mark`.
pub open spec fn split_on(chars: Seq<char>, mark: char) -> Seq<Seq<char>>
    decreases chars.len(),
{
    if chars.len() == 0 {
        seq![Seq::empty()]
    } else if chars.last() == mark {
        split_on(chars.drop_last(), mark).push(Seq::empty())
    } else {
        let parts = split_on(chars.drop_last(), mark);
        parts.drop_last().push(parts.last().push(chars.last()))
    }
}

/// The texts of a list of strings.
pub open spec fn texts(strings: Seq<String>) -> Seq<Seq<char>> {
    strings.map_values(|s: String| s@)
}

/// `parts` one after another with `between` between them.
pub open spec fn joined(parts: Seq<Seq<char>>, between: Seq<char>) -> Seq<char>
    decreases parts.len(),
{
    if parts.len() == 0 {
        Seq::empty()
    } else if parts.len() == 1 {
        parts[0]
    } else {
        joined(parts.drop_last(), between) + between + parts.last()
    }
}

/// The text of an optional string.
pub open spec fn opt_text(string: Option<String>) -> Option<Seq<char>> {
    match string {
        Some(s) => Some(s@),
        None => None,
    }
}

/// Whether `needle` stands in `chars` at index `i`.
fn stands_at(chars: &Vec<char>, needle: &Vec<char>, i: usize) -> (r: bool)
    requires
        i <= chars.len(),
    ensures
        r == matches_at(chars@, needle@, i as int),
{
    if needle.len() > chars.len() - i {
        return false;
    }
    let mut k: usize = 0;
    while k < needle.len()
        invariant
            k <= needle.len(),
            i + needle.len() <= chars.len(),
            forall|j: int| 0 <= j < k ==> chars[i + j] == #[trigger] needle[j],
        decreases needle.len() - k,
    {
        if chars[i + k] != needle[k] {
            proof {
                assert(chars@.subrange(i as int, i + needle.len())[k as int] != needle[k as int]);
            }
            return false;
        }
        k = k + 1;
    }
    proof {
        assert(chars@.subrange(i as int, i + needle.len()) =~= needle@);
    }
    true
}

/// Whether `needle` stands anywhere in `text`.
pub fn contains(text: &str, needle: &str) -> (r: bool)
    ensures
        r == has_substring(text@, needle@),
{
    let chars = text::chars_of(text);
    let pattern = text::chars_of(needle);
    let mut i: usize = 0;
    while i < chars.len()
        invariant
            i <= chars.len(),
            chars@ == text@,
            pattern@ == needle@,
            forall|j: int| 0 <= j < i ==> !#[trigger] matches_at(text@, needle@, j),
        decreases chars.len() - i,
    {
        if stands_at(&chars, &pattern, i) {
            return true;
        }
        i = i + 1;
    }
    let r = stands_at(&chars, &pattern, i);
    proof {
        if has_substring(text@, needle@) {
            let j = choose|j: int| matches_at(text@, needle@, j);
            assert(j == i);
        }
    }
    r
}

/// Whether `text` begins with `needle`.
pub fn starts_with(text: &str, needle: &str) -> (r: bool)
    ensures
        r == has_prefix(text@, needle@),
{
    let chars = text::chars_of(text);
    let pattern = text::chars_of(needle);
    stands_at(&chars, &pattern, 0)
}

/// `char::to_ascii_lowercase`: an ASCII capital becomes its small letter, every other character
/// stays.
pub assume_specification[ char::to_ascii_lowercase ](c: &char) -> (r: char)
    ensures
        r == ascii_lower(*c),
;

/// Whether two texts are the same.
pub fn same(a: &str, b: &str) -> (r: bool)
    ensures
        r == (a@ == b@),
{
    a.to_owned() == b.to_owned()
}

/// `text` with its ASCII capitals made small.
pub fn to_lower(text: &str) -> (r: String)
    ensures
        r@ == lowered(text@),
{
    let chars = text::chars_of(text);
    let mut r = String::new();
    let mut i: usize = 0;
    while i < chars.len()
        invariant
            i <= chars.len(),
            chars@ == text@,
            r@ == lowered(text@.take(i as int)),
        decreases chars.len() - i,
    {
        proof {
            assert(lowered(text@.take(i + 1)) =~= lowered(text@.take(i as int)).push(
                ascii_lower(text@[i as int]),
            ));
        }
        r.push(chars[i].to_ascii_lowercase());
        i = i + 1;
    }
    proof {
        assert(text@.take(text@.len() as int) =~= text@);
    }
    r
}

/// Whether two texts agree but for the case of ASCII letters.
pub fn same_ignoring_case(a: &str, b: &str) -> (r: bool)
    ensures
        r == (lowered(a@) == lowered(b@)),
{
    to_lower(a) == to_lower(b)
}

/// Characters `from` to `to`.
pub fn collect(chars: &Vec<char>, from: usize, to: usize) -> (r: String)
    requires
        from <= to <= chars.len(),
    ensures
        r@ == chars@.subrange(from as int, to as int),
{
    let mut r = String::new();
    let mut i: usize = from;
    while i < to
        invariant
            from <= i <= to <= chars.len(),
            r@ == chars@.subrange(from as int, i as int),
        decreases to - i,
    {
        proof {
            assert(chars@.subrange(from as int, i + 1) =~= chars@.subrange(from as int, i as int).push(
                chars@[i as int],
            ));
        }
        r.push(chars[i]);
        i = i + 1;
    }
    r
}

/// `text` without the whitespace around it.
pub fn trim(text: &str) -> (r: String)
    ensures
        r@ == trimmed(text@),
{
    let chars = text::chars_of(text);
    let mut from: usize = 0;
    proof {
        assert(text@.skip(0) =~= text@);
    }
    while from < chars.len() && chars[from].is_whitespace()
        invariant
            from <= chars.len(),
            chars@ == text@,
            trimmed_start(text@) == trimmed_start(text@.skip(from as int)),
        decreases chars.len() - from,
    {
        proof {
            assert(text@.skip(from as int).drop_first() =~= text@.skip(from + 1));
        }
        from = from + 1;
    }
    let mut to: usize = chars.len();
    let ghost rest = text@.skip(from as int);
    proof {
        assert(trimmed_start(text@) == rest);
        assert(text@.subrange(from as int, to as int) =~= rest);
    }
    while to > from && chars[to - 1].is_whitespace()
        invariant
            from <= to <= chars.len(),
            chars@ == text@,
            trimmed_end(rest) == trimmed_end(text@.subrange(from as int, to as int)),
        decreases to,
    {
        proof {
            assert(text@.subrange(from as int, to as int).drop_last() =~= text@.subrange(
                from as int,
                to - 1,
            ));
        }
        to = to - 1;
    }
    collect(&chars, from, to)
}

/// Whether there is nothing but whitespace in `text`.
pub fn blank(text: &str) -> (r: bool)
    ensures
        r == is_blank(text@),
{
    trim(text).as_str().is_empty()
}

/// The parts of `text` between the occurrences of `mark`.
pub fn split(text: &str, mark: char) -> (r: Vec<String>)
    ensures
        texts(r@) == split_on(text@, mark),
{
    let chars = text::chars_of(text);
    let mut parts: Vec<String> = Vec::new();
    let mut part = String::new();
    let mut i: usize = 0;
    proof {
        assert(text@.take(0) =~= Seq::<char>::empty());
        assert(texts(parts@).push(part@) =~= split_on(text@.take(0), mark));
    }
    while i < chars.len()
        invariant
            i <= chars.len(),
            chars@ == text@,
            texts(parts@).push(part@) == split_on(text@.take(i as int), mark),
        decreases chars.len() - i,
    {
        let ghost held = texts(parts@);
        let ghost open = part@;
        proof {
            let grown = text@.take(i + 1);
            assert(grown.drop_last() =~= text@.take(i as int));
            assert(grown.last() == chars[i as int]);
            assert(held.push(open).drop_last() =~= held);
        }
        if chars[i] == mark {
            parts.push(part);
            part = String::new();
            proof {
                assert(texts(parts@) =~= held.push(open));
                assert(texts(parts@).push(part@) =~= split_on(text@.take(i + 1), mark));
            }
        } else {
            part.push(chars[i]);
        }
        i = i + 1;
    }
    let ghost held = texts(parts@);
    let ghost open = part@;
    parts.push(part);
    proof {
        assert(texts(parts@) =~= held.push(open));
        assert(text@.take(text@.len() as int) =~= text@);
    }
    parts
}

/// Whether two lists of strings hold the same texts.
pub fn same_texts(a: &Vec<String>, b: &Vec<String>) -> (r: bool)
    ensures
        r == (texts(a@) == texts(b@)),
{
    if a.len() != b.len() {
        proof {
            assert(texts(a@).len() != texts(b@).len());
        }
        return false;
    }
    let mut i: usize = 0;
    while i < a.len()
        invariant
            i <= a.len(),
            a.len() == b.len(),
            forall|k: int| 0 <= k < i ==> (#[trigger] a[k])@ == b[k]@,
        decreases a.len() - i,
    {
        if a[i] != b[i] {
            proof {
                assert(texts(a@)[i as int] != texts(b@)[i as int]);
            }
            return false;
        }
        i = i + 1;
    }
    proof {
        assert(texts(a@) =~= texts(b@));
    }
    true
}

/// `parts` one after another with `between` between them.
pub fn join(parts: &Vec<String>, between: &str) -> (r: String)
    ensures
        r@ == joined(texts(parts@), between@),
{
    let ghost views = texts(parts@);
    let mut r = String::new();
    let mut i: usize = 0;
    proof {
        assert(views.take(0) =~= Seq::<Seq<char>>::empty());
    }
    while i < parts.len()
        invariant
            i <= parts.len(),
            views == texts(parts@),
            r@ == joined(views.take(i as int), between@),
        decreases parts.len() - i,
    {
        proof {
            assert(views.take(i + 1).drop_last() =~= views.take(i as int));
            assert(views.take(i + 1).last() == parts[i as int]@);
        }
        if i > 0 {
            r.append(between);
        }
        r.append(parts[i].as_str());
        proof {
            if i == 0 {
                assert(r@ =~= parts[0]@);
            } else {
                assert(r@ =~= joined(views.take(i as int), between@) + between@ + parts[i as int]@);
            }
        }
        i = i + 1;
    }
    proof {
        assert(views.take(views.len() as int) =~= views);
    }
    r
}

pub proof fn lemma_split_is_not_empty(chars: Seq<char>, mark: char)
    ensures
        split_on(chars, mark).len() > 0,
    decreases chars.len(),
{
    if chars.len() > 0 {
        lemma_split_is_not_empty(chars.drop_last(), mark);
    }
}

/// A text without the mark is one part.
pub proof fn lemma_split_plain(chars: Seq<char>, mark: char)
    requires
        !chars.contains(mark),
    ensures
        split_on(chars, mark) == seq![chars],
    decreases chars.len(),
{
    if chars.len() > 0 {
        let rest = chars.drop_last();
        assert(chars.last() != mark) by {
            assert(chars.contains(chars[chars.len() - 1]));
        }
        assert(!rest.contains(mark)) by {
            if rest.contains(mark) {
                let k = choose|k: int| 0 <= k < rest.len() && rest[k] == mark;
                assert(chars[k] == mark);
            }
        }
        lemma_split_plain(rest, mark);
        assert(split_on(chars, mark) =~= seq![rest.push(chars.last())]);
        assert(rest.push(chars.last()) =~= chars);
    } else {
        assert(chars =~= Seq::empty());
    }
}

/// What follows a mark, and holds none itself, is one more part.
pub proof fn lemma_split_append(a: Seq<char>, b: Seq<char>, mark: char)
    requires
        !b.contains(mark),
    ensures
        split_on(a.push(mark) + b, mark) == split_on(a, mark).push(b),
    decreases b.len(),
{
    let whole = a.push(mark) + b;
    if b.len() == 0 {
        assert(whole =~= a.push(mark));
        assert(whole.drop_last() =~= a);
        assert(b =~= Seq::empty());
    } else {
        let rest = b.drop_last();
        assert(b.last() != mark) by {
            assert(b.contains(b[b.len() - 1]));
        }
        assert(!rest.contains(mark)) by {
            if rest.contains(mark) {
                let k = choose|k: int| 0 <= k < rest.len() && rest[k] == mark;
                assert(b[k] == mark);
            }
        }
        lemma_split_append(a, rest, mark);
        assert(whole.drop_last() =~= a.push(mark) + rest);
        let parts = split_on(a, mark).push(rest);
        assert(parts.drop_last() =~= split_on(a, mark));
        assert(rest.push(b.last()) =~= b);
    }
}

/// A space before a text is trimmed away.
pub proof fn lemma_trim_leading_space(chars: Seq<char>)
    ensures
        trimmed(seq![' '] + chars) == trimmed(chars),
{
    let padded = seq![' '] + chars;
    assert(padded[0] == ' ');
    assert(padded.drop_first() =~= chars);
}

/// A text with no whitespace at either end stays as it is.
pub proof fn lemma_trimmed_stays(chars: Seq<char>)
    requires
        chars.len() > 0,
        !words::is_whitespace_char(chars[0]),
        !words::is_whitespace_char(chars.last()),
    ensures
        trimmed(chars) == chars,
        !is_blank(chars),
{
}

/// Trimming takes whitespace and nothing else, from the two ends, and all of it there.
pub proof fn trimming_takes_the_whitespace_around(chars: Seq<char>)
    ensures
        exists|a: int, b: int|
            0 <= a <= b <= chars.len() && trimmed(chars) == #[trigger] chars.subrange(a, b) && (
            forall|k: int|
                (0 <= k < a || b <= k < chars.len()) ==> words::is_whitespace_char(
                    #[trigger] chars[k],
                )) && (a < b ==> !words::is_whitespace_char(chars[a])
                && !words::is_whitespace_char(chars[b - 1])),
{
    lemma_trimmed_start(chars);
    let a = choose|a: int|
        0 <= a <= chars.len() && trimmed_start(chars) == #[trigger] chars.skip(a) && (forall|k: int|
            0 <= k < a ==> words::is_whitespace_char(#[trigger] chars[k])) && (a < chars.len()
            ==> !words::is_whitespace_char(chars[a]));
    let rest = chars.skip(a);
    lemma_trimmed_end(rest);
    let n = choose|n: int|
        0 <= n <= rest.len() && trimmed_end(rest) == #[trigger] rest.take(n) && (forall|k: int|
            n <= k < rest.len() ==> words::is_whitespace_char(#[trigger] rest[k])) && (n > 0
            ==> !words::is_whitespace_char(rest[n - 1]));
    assert(rest.take(n) =~= chars.subrange(a, a + n));
    assert forall|k: int| (0 <= k < a || a + n <= k < chars.len()) implies words::is_whitespace_char(
        #[trigger] chars[k],
    ) by {
        if k >= a {
            assert(rest[k - a] == chars[k]);
        }
    }
    if n > 0 {
        assert(rest[n - 1] == chars[a + n - 1]);
    }
}

proof fn lemma_trimmed_start(chars: Seq<char>)
    ensures
        exists|a: int|
            0 <= a <= chars.len() && trimmed_start(chars) == #[trigger] chars.skip(a) && (forall|
                k: int,
            |
                0 <= k < a ==> words::is_whitespace_char(#[trigger] chars[k])) && (a < chars.len()
                ==> !words::is_whitespace_char(chars[a])),
    decreases chars.len(),
{
    if chars.len() == 0 || !words::is_whitespace_char(chars[0]) {
        assert(chars.skip(0) =~= chars);
    } else {
        let rest = chars.drop_first();
        lemma_trimmed_start(rest);
        let a = choose|a: int|
            0 <= a <= rest.len() && trimmed_start(rest) == #[trigger] rest.skip(a) && (forall|
                k: int,
            |
                0 <= k < a ==> words::is_whitespace_char(#[trigger] rest[k])) && (a < rest.len()
                ==> !words::is_whitespace_char(rest[a]));
        assert(rest.skip(a) =~= chars.skip(a + 1));
        assert forall|k: int| 0 <= k < a + 1 implies words::is_whitespace_char(
            #[trigger] chars[k],
        ) by {
            if k > 0 {
                assert(rest[k - 1] == chars[k]);
            }
        }
        if a < rest.len() {
            assert(rest[a] == chars[a + 1]);
        }
    }
}

proof fn lemma_trimmed_end(chars: Seq<char>)
    ensures
        exists|n: int|
            0 <= n <= chars.len() && trimmed_end(chars) == #[trigger] chars.take(n) && (forall|
                k: int,
            |
                n <= k < chars.len() ==> words::is_whitespace_char(#[trigger] chars[k])) && (n > 0
                ==> !words::is_whitespace_char(chars[n - 1])),
    decreases chars.len(),
{
    if chars.len() == 0 || !words::is_whitespace_char(chars.last()) {
        assert(chars.take(chars.len() as int) =~= chars);
    } else {
        let rest = chars.drop_last();
        lemma_trimmed_end(rest);
        let n = choose|n: int|
            0 <= n <= rest.len() && trimmed_end(rest) == #[trigger] rest.take(n) && (forall|
                k: int,
            |
                n <= k < rest.len() ==> words::is_whitespace_char(#[trigger] rest[k])) && (n > 0
                ==> !words::is_whitespace_char(rest[n - 1]));
        assert(rest.take(n) =~= chars.take(n));
        assert forall|k: int| n <= k < chars.len() implies words::is_whitespace_char(
            #[trigger] chars[k],
        ) by {
            if k < rest.len() {
                assert(rest[k] == chars[k]);
            }
        }
    }
}

/// A text is blank exactly where every character of it is whitespace.
pub proof fn a_blank_text_is_all_whitespace(chars: Seq<char>)
    ensures
        is_blank(chars) <==> forall|k: int|
            0 <= k < chars.len() ==> words::is_whitespace_char(#[trigger] chars[k]),
{
    trimming_takes_the_whitespace_around(chars);
    let (a, b) = choose|a: int, b: int|
        0 <= a <= b <= chars.len() && trimmed(chars) == #[trigger] chars.subrange(a, b) && (forall|
            k: int,
        |
            (0 <= k < a || b <= k < chars.len()) ==> words::is_whitespace_char(
                #[trigger] chars[k],
            )) && (a < b ==> !words::is_whitespace_char(chars[a]) && !words::is_whitespace_char(
            chars[b - 1],
        ));
    assert(trimmed(chars).len() == b - a);
}

/// The parts of a text hold no mark, and put together with the mark between them they are the
/// text.
pub proof fn joining_undoes_splitting(chars: Seq<char>, mark: char)
    ensures
        joined(split_on(chars, mark), seq![mark]) == chars,
        forall|i: int|
            0 <= i < split_on(chars, mark).len() ==> !(#[trigger] split_on(
                chars,
                mark,
            )[i]).contains(mark),
    decreases chars.len(),
{
    let whole = split_on(chars, mark);
    if chars.len() > 0 {
        let rest = chars.drop_last();
        let parts = split_on(rest, mark);
        let c = chars.last();
        joining_undoes_splitting(rest, mark);
        lemma_split_is_not_empty(rest, mark);
        assert(rest.push(c) =~= chars);
        if c == mark {
            assert(whole.drop_last() =~= parts);
            assert(joined(whole, seq![mark]) =~= chars);
        } else {
            assert(whole.drop_last() =~= parts.drop_last());
            assert(whole.last() == parts.last().push(c));
            assert(joined(whole, seq![mark]) =~= chars) by {
                if parts.len() == 1 {
                    assert(parts[0] == rest);
                } else {
                    assert(joined(parts, seq![mark]) == joined(parts.drop_last(), seq![mark])
                        + seq![mark] + parts.last());
                }
            }
            assert forall|i: int| 0 <= i < whole.len() implies !(#[trigger] whole[i]).contains(
                mark,
            ) by {
                if i < whole.len() - 1 {
                    assert(whole[i] == parts[i]);
                } else {
                    assert(!parts[parts.len() - 1].contains(mark));
                    let last = parts.last().push(c);
                    if last.contains(mark) {
                        let k = last.index_of(mark);
                        assert(last[k] == mark);
                        if k < parts.last().len() {
                            assert(parts.last()[k] == mark);
                        }
                    }
                }
            }
        }
    } else {
        assert(whole[0] =~= chars);
    }
}

/// Parts that hold no mark are found again once they are put together with the mark between them.
pub proof fn splitting_undoes_joining(parts: Seq<Seq<char>>, mark: char)
    requires
        parts.len() > 0,
        forall|i: int| 0 <= i < parts.len() ==> !(#[trigger] parts[i]).contains(mark),
    ensures
        split_on(joined(parts, seq![mark]), mark) == parts,
    decreases parts.len(),
{
    if parts.len() == 1 {
        lemma_split_plain(parts[0], mark);
        assert(parts =~= seq![parts[0]]);
    } else {
        let front = parts.drop_last();
        assert forall|i: int| 0 <= i < front.len() implies !(#[trigger] front[i]).contains(
            mark,
        ) by {
            assert(front[i] == parts[i]);
        }
        splitting_undoes_joining(front, mark);
        assert(parts[parts.len() - 1] == parts.last());
        lemma_split_append(joined(front, seq![mark]), parts.last(), mark);
        assert(joined(front, seq![mark]) + seq![mark] + parts.last() =~= joined(
            front,
            seq![mark],
        ).push(mark) + parts.last());
        assert(front.push(parts.last()) =~= parts);
    }
}

/// Making a text small changes ASCII capitals, each to the small letter of its own, and nothing
/// else.
pub proof fn only_capitals_are_made_small(chars: Seq<char>, i: int)
    requires
        0 <= i < chars.len(),
    ensures
        lowered(chars).len() == chars.len(),
        'A' <= chars[i] <= 'Z' ==> lowered(chars)[i] as int - 'a' as int == chars[i] as int
            - 'A' as int,
        !('A' <= chars[i] <= 'Z') ==> lowered(chars)[i] == chars[i],
{
}

/// A text stands in another exactly where the other is something, the text, and something; and it
/// begins the other where the first of these is nothing.
pub proof fn a_substring_has_something_on_either_side(
    before: Seq<char>,
    needle: Seq<char>,
    after: Seq<char>,
    chars: Seq<char>,
)
    ensures
        has_substring(before + needle + after, needle),
        has_prefix(needle + after, needle),
        has_prefix(chars, needle) ==> chars == needle + chars.skip(needle.len() as int),
        has_substring(chars, needle) ==> exists|a: Seq<char>, b: Seq<char>|
            chars == #[trigger] (a + needle + b),
{
    let whole = before + needle + after;
    let at = before.len() as int;
    assert(whole.subrange(at, at + needle.len()) =~= needle);
    assert(matches_at(whole, needle, at));
    assert((needle + after).subrange(0, needle.len() as int) =~= needle);
    if has_prefix(chars, needle) {
        assert(chars =~= chars.subrange(0, needle.len() as int) + chars.skip(needle.len() as int));
    }
    if has_substring(chars, needle) {
        let i = choose|i: int| matches_at(chars, needle, i);
        let a = chars.take(i);
        let b = chars.skip(i + needle.len());
        assert(chars =~= a + chars.subrange(i, i + needle.len()) + b);
        assert(chars == a + needle + b);
    }
}

/// Digits without a needless nought in front read as the number that writes them, where it is not
/// too large; what is not all digits reads as none, and a plus in front changes nothing.
pub proof fn what_reads_as_a_number_writes_it(digits: Seq<char>, max: int)
    requires
        digits.len() > 0,
        digits[0] != '+',
    ensures
        number_in(digits, max) matches Some(n) ==> 0 <= n <= max && all_digits(digits),
        (digits.len() == 1 || digits[0] != '0') ==> (number_in(digits, max) matches Some(n)
            ==> decimal(n as nat) == digits),
        number_in(seq!['+'] + digits, max) == number_in(digits, max),
        number_in(seq!['0'] + digits, max) == number_in(digits, max),
        number_in(digits, max) is None && all_digits(digits) && (digits.len() == 1 || digits[0]
            != '0') ==> forall|n: nat| n <= max ==> #[trigger] decimal(n) != digits,
{
    assert((seq!['+'] + digits).drop_first() =~= digits);
    assert((seq!['+'] + digits)[0] == '+');
    let padded = seq!['0'] + digits;
    assert(padded[0] == '0');
    if all_digits(digits) {
        lemma_value_grows(digits, 0);
        lemma_padded(digits);
        assert forall|i: int| 0 <= i < padded.len() implies is_digit(#[trigger] padded[i]) by {
            if i > 0 {
                assert(padded[i] == digits[i - 1]);
            }
        }
        if digits.len() == 1 || digits[0] != '0' {
            lemma_writes(digits);
            assert forall|n: nat| n <= max && #[trigger] decimal(n) == digits implies number_in(
                digits,
                max,
            ) is Some by {
                lemma_decimal(n);
            }
        }
    } else {
        let k = choose|i: int| 0 <= i < digits.len() && !is_digit(#[trigger] digits[i]);
        assert(padded[k + 1] == digits[k]);
    }
}

proof fn lemma_padded(digits: Seq<char>)
    ensures
        value_of(seq!['0'] + digits) == value_of(digits),
    decreases digits.len(),
{
    let padded = seq!['0'] + digits;
    if digits.len() == 0 {
        assert(padded.drop_last() =~= Seq::<char>::empty());
        assert(padded.last() == '0');
        assert(value_of(Seq::<char>::empty()) == 0);
    } else {
        lemma_padded(digits.drop_last());
        assert(padded.drop_last() =~= seq!['0'] + digits.drop_last());
        assert(padded.last() == digits.last());
    }
}

proof fn lemma_writes(digits: Seq<char>)
    requires
        digits.len() > 0,
        all_digits(digits),
        digits.len() == 1 || digits[0] != '0',
    ensures
        value_of(digits) >= 0,
        digits.len() > 1 ==> value_of(digits) >= 10,
        digits[0] != '0' ==> value_of(digits) > 0,
        decimal(value_of(digits) as nat) == digits,
    decreases digits.len(),
{
    reveal_with_fuel(value_of, 2);
    let last = digits.last();
    assert(is_digit(digits[digits.len() - 1]));
    assert(is_digit(digits[0]));
    if digits.len() == 1 {
        assert(digits.drop_last() =~= Seq::<char>::empty());
        assert(digit(value_of(digits)) == last);
        assert(decimal(value_of(digits) as nat) =~= digits);
    } else {
        let rest = digits.drop_last();
        assert forall|i: int| 0 <= i < rest.len() implies is_digit(#[trigger] rest[i]) by {
            assert(rest[i] == digits[i]);
        }
        assert(rest[0] == digits[0]);
        lemma_writes(rest);
        let n = value_of(digits) as nat;
        assert(n / 10 == value_of(rest));
        assert(n % 10 == last as int - '0' as int);
        assert(digit((n % 10) as int) == last);
        assert(decimal(n) =~= digits);
    }
}

} // verus!
