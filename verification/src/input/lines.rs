//! Where the lines of a text are.
//!
//! A trailing newline does create a final empty line: pressing Enter at the end of a buffer has to
//! leave the caret a line to sit on.

use crate::text;
use vstd::prelude::*;
use vstd::string::*;

verus! {

/// The byte offset where each line begins. There is always a first line.
pub open spec fn line_starts(chars: Seq<char>) -> Seq<int>
    decreases chars.len(),
{
    if chars.len() == 0 {
        seq![0]
    } else if chars.last() == '\n' {
        line_starts(chars.drop_last()).push(text::byte_len(chars) as int)
    } else {
        line_starts(chars.drop_last())
    }
}

/// The line an offset is on: the last one that does not begin after it.
pub open spec fn line_of(starts: Seq<int>, offset: int) -> int
    decreases starts.len(),
{
    if starts.len() <= 1 {
        0
    } else if starts.last() <= offset {
        starts.len() - 1
    } else {
        line_of(starts.drop_last(), offset)
    }
}

/// Where a line begins; past the last line, the end of the text.
pub open spec fn line_start(chars: Seq<char>, line: int) -> int {
    let starts = line_starts(chars);
    if line < starts.len() {
        starts[line]
    } else {
        text::byte_len(chars) as int
    }
}

/// Where a line ends, before its newline and a carriage return in front of that.
pub open spec fn line_end(chars: Seq<char>, line: int) -> int {
    let starts = line_starts(chars);
    if line + 1 < starts.len() {
        let stop = starts[line + 1] - 1;
        if stop > starts[line] && chars[text::index_of(chars, stop) - 1] == '\r' {
            stop - 1
        } else {
            stop
        }
    } else {
        text::byte_len(chars) as int
    }
}

/// The text of a line.
pub open spec fn line_text(chars: Seq<char>, line: int) -> Seq<char> {
    text::sliced(chars, line_start(chars, line), line_end(chars, line))
}

/// The last boundary at or before an offset.
pub open spec fn floor_boundary(chars: Seq<char>, offset: int) -> int
    decreases offset,
{
    if offset <= 0 || text::is_boundary(chars, offset) {
        offset
    } else {
        floor_boundary(chars, offset - 1)
    }
}

/// The first boundary at or after an offset.
pub open spec fn ceil_boundary(chars: Seq<char>, offset: int) -> int
    decreases text::byte_len(chars) - offset,
{
    if offset >= text::byte_len(chars) || text::is_boundary(chars, offset) {
        offset
    } else {
        ceil_boundary(chars, offset + 1)
    }
}

/// One character back from an offset.
pub open spec fn char_before(chars: Seq<char>, offset: int) -> int {
    floor_boundary(
        chars,
        if offset <= 0 {
            0
        } else {
            offset - 1
        },
    )
}

/// One character on from an offset.
pub open spec fn char_after(chars: Seq<char>, offset: int) -> int {
    ceil_boundary(
        chars,
        if offset >= text::byte_len(chars) {
            text::byte_len(chars) as int
        } else {
            offset + 1
        },
    )
}

/// Where the caret lands `delta` lines from `cursor`: in the same byte column as far as the line
/// reaches, backed off to a character; past either end of the text, at that end.
pub open spec fn vertical(chars: Seq<char>, cursor: int, delta: int) -> int {
    let starts = line_starts(chars);
    let line = line_of(starts, cursor);
    let column = cursor - starts[line];
    let target = line + delta;
    if target < 0 || target >= starts.len() {
        if delta < 0 {
            0
        } else {
            text::byte_len(chars) as int
        }
    } else {
        let end = line_end(chars, target);
        floor_boundary(
            chars,
            if starts[target] + column <= end {
                starts[target] + column
            } else {
                end
            },
        )
    }
}

/// Whether index `i` of `chars` is where the line that begins at byte `start` begins.
pub open spec fn begins_line(chars: Seq<char>, start: int, i: int) -> bool {
    &&& 0 < i <= chars.len()
    &&& text::offset_of(chars, i) == start
    &&& chars[i - 1] == '\n'
}

/// Whether a line begins at byte `start`, just after a newline.
pub open spec fn follows_newline(chars: Seq<char>, start: int) -> bool {
    exists|i: int| begins_line(chars, start, i)
}

/// The line index: it begins at 0, grows, stays inside the text, and every later line begins just
/// after a newline.
pub proof fn line_index_is_sound(chars: Seq<char>)
    ensures
        line_starts(chars).len() >= 1,
        line_starts(chars)[0] == 0,
        forall|j: int, k: int|
            0 <= j < k < line_starts(chars).len() ==> #[trigger] line_starts(chars)[j]
                < #[trigger] line_starts(chars)[k],
        forall|k: int|
            0 <= k < line_starts(chars).len() ==> 0 <= #[trigger] line_starts(chars)[k]
                <= text::byte_len(chars),
        forall|k: int|
            1 <= k < line_starts(chars).len() ==> follows_newline(
                chars,
                #[trigger] line_starts(chars)[k],
            ),
    decreases chars.len(),
{
    if chars.len() > 0 {
        let n = chars.len() as int;
        let rest = chars.drop_last();
        let before = line_starts(rest);
        line_index_is_sound(rest);
        text::lemma_offset_ends(chars);
        text::lemma_offset_step(chars, n - 1);
        assert(rest =~= chars.take(n - 1));
        assert(text::offset_of(chars, n - 1) == text::byte_len(rest));
        let starts = line_starts(chars);
        assert forall|k: int| 1 <= k < starts.len() implies follows_newline(
            chars,
            #[trigger] starts[k],
        ) by {
            if k < before.len() {
                let start = before[k];
                assert(follows_newline(rest, start));
                let i = choose|i: int| begins_line(rest, start, i);
                assert(rest.take(i) =~= chars.take(i));
                assert(begins_line(chars, starts[k], i));
            } else {
                assert(begins_line(chars, starts[k], n));
            }
        }
    }
}

/// Line `line` begins at offset `line` at the earliest.
pub proof fn lemma_line_before_its_start(chars: Seq<char>, line: int)
    requires
        0 <= line < line_starts(chars).len(),
    ensures
        line <= line_starts(chars)[line],
    decreases line,
{
    line_index_is_sound(chars);
    if line > 0 {
        lemma_line_before_its_start(chars, line - 1);
        assert(line_starts(chars)[line - 1] < line_starts(chars)[line]);
    }
}

/// Every newline begins a line: the character after each is the start of one.
pub proof fn every_newline_begins_a_line(chars: Seq<char>, i: int)
    requires
        0 < i <= chars.len(),
        chars[i - 1] == '\n',
    ensures
        line_starts(chars).contains(text::offset_of(chars, i)),
    decreases chars.len(),
{
    let n = chars.len() as int;
    let rest = chars.drop_last();
    text::lemma_offset_ends(chars);
    if i == n {
        assert(line_starts(chars).last() == text::byte_len(chars));
    } else {
        every_newline_begins_a_line(rest, i);
        assert(rest.take(i) =~= chars.take(i));
        let k = line_starts(rest).index_of(text::offset_of(chars, i));
        assert(line_starts(chars)[k] == text::offset_of(chars, i));
    }
}

/// Where a line begins and ends can slice the text.
pub proof fn lemma_line_span(chars: Seq<char>, line: int)
    requires
        0 <= line,
    ensures
        text::is_span(chars, line_start(chars, line), line_end(chars, line)),
        line_end(chars, line) <= text::byte_len(chars),
        line + 1 < line_starts(chars).len() ==> text::is_boundary(
            chars,
            line_starts(chars)[line + 1] - 1,
        ) && text::index_of(chars, line_starts(chars)[line + 1] - 1) < chars.len()
            && (line_starts(chars)[line + 1] - 1 > line_starts(chars)[line] ==> text::index_of(
            chars,
            line_starts(chars)[line + 1] - 1,
        ) > 0),
{
    let starts = line_starts(chars);
    line_index_is_sound(chars);
    text::lemma_offset_ends(chars);
    lemma_start_is_boundary(chars, line);
    if line + 1 < starts.len() {
        let stop = starts[line + 1] - 1;
        let next = starts[line + 1];
        assert(follows_newline(chars, next));
        let i = choose|i: int| begins_line(chars, next, i);
        assert(text::width('\n') == 1);
        assert(text::width('\r') == 1);
        text::lemma_offset_step(chars, i - 1);
        text::lemma_index_of_offset(chars, i - 1);
        assert(starts[line] <= stop);
        text::lemma_index_monotone(chars, starts[line], stop);
        if stop > starts[line] {
            text::lemma_offset_of_index(chars, starts[line]);
            if chars[i - 2] == '\r' {
                text::lemma_offset_step(chars, i - 2);
                text::lemma_index_of_offset(chars, i - 2);
            }
        }
    }
}

proof fn lemma_start_is_boundary(chars: Seq<char>, line: int)
    requires
        0 <= line,
    ensures
        text::is_boundary(chars, line_start(chars, line)),
{
    let starts = line_starts(chars);
    line_index_is_sound(chars);
    text::lemma_offset_ends(chars);
    if 0 < line < starts.len() {
        assert(follows_newline(chars, starts[line]));
        let i = choose|i: int| begins_line(chars, starts[line], i);
        assert(text::offset_of(chars, i) == starts[line]);
    }
}

/// The line an offset is on begins at or before it, and the next one after it.
pub proof fn lemma_line_of(starts: Seq<int>, offset: int)
    requires
        starts.len() >= 1,
        starts[0] <= offset,
        forall|j: int, k: int|
            0 <= j < k < starts.len() ==> #[trigger] starts[j] < #[trigger] starts[k],
    ensures
        0 <= line_of(starts, offset) < starts.len(),
        starts[line_of(starts, offset)] <= offset,
        line_of(starts, offset) + 1 < starts.len() ==> offset < starts[line_of(starts, offset) + 1],
    decreases starts.len(),
{
    if starts.len() > 1 && starts.last() > offset {
        lemma_line_of(starts.drop_last(), offset);
    }
}

proof fn lemma_line_of_unique(starts: Seq<int>, offset: int, line: int)
    requires
        starts.len() >= 1,
        0 <= line < starts.len(),
        starts[line] <= offset,
        line + 1 < starts.len() ==> offset < starts[line + 1],
        forall|j: int, k: int|
            0 <= j < k < starts.len() ==> #[trigger] starts[j] < #[trigger] starts[k],
    ensures
        line_of(starts, offset) == line,
{
    if line > 0 {
        assert(starts[0] < starts[line]);
    }
    lemma_line_of(starts, offset);
    let found = line_of(starts, offset);
    if found < line {
        if found + 1 < line {
            assert(starts[found + 1] < starts[line]);
        }
    } else if line < found {
        if line + 1 < found {
            assert(starts[line + 1] < starts[found]);
        }
    }
}

pub proof fn lemma_floor(chars: Seq<char>, low: int, offset: int)
    requires
        0 <= low <= offset,
        text::is_boundary(chars, low),
    ensures
        low <= floor_boundary(chars, offset) <= offset,
        text::is_boundary(chars, floor_boundary(chars, offset)),
    decreases offset,
{
    text::lemma_offset_ends(chars);
    if !(offset <= 0 || text::is_boundary(chars, offset)) {
        lemma_floor(chars, low, offset - 1);
    }
}

pub proof fn lemma_ceil(chars: Seq<char>, offset: int)
    requires
        0 <= offset <= text::byte_len(chars),
    ensures
        offset <= ceil_boundary(chars, offset) <= text::byte_len(chars),
        text::is_boundary(chars, ceil_boundary(chars, offset)),
    decreases text::byte_len(chars) - offset,
{
    text::lemma_offset_ends(chars);
    if !(offset >= text::byte_len(chars) || text::is_boundary(chars, offset)) {
        lemma_ceil(chars, offset + 1);
    }
}

/// Left and right in the editor move by exactly one character, whatever its width.
pub proof fn one_character_each_way(chars: Seq<char>, i: int)
    requires
        0 <= i < chars.len(),
    ensures
        char_before(chars, text::offset_of(chars, i + 1)) == text::offset_of(chars, i),
        char_after(chars, text::offset_of(chars, i)) == text::offset_of(chars, i + 1),
        char_before(chars, 0) == 0,
        char_after(chars, text::byte_len(chars) as int) == text::byte_len(chars),
{
    let a = text::offset_of(chars, i);
    let b = text::offset_of(chars, i + 1);
    text::lemma_offset_step(chars, i);
    text::lemma_offset_ends(chars);
    text::lemma_offset_monotone(chars, 0, i);
    text::lemma_offset_monotone(chars, i + 1, chars.len() as int);
    text::lemma_index_of_offset(chars, i);
    text::lemma_index_of_offset(chars, i + 1);
    lemma_floor(chars, a, b - 1);
    lemma_ceil(chars, a + 1);
    lemma_nothing_between(chars, i, floor_boundary(chars, b - 1));
    lemma_ceil_at_most(chars, a + 1, b);
    lemma_nothing_between(chars, i, ceil_boundary(chars, a + 1));
}

proof fn lemma_ceil_at_most(chars: Seq<char>, offset: int, high: int)
    requires
        0 <= offset <= high <= text::byte_len(chars),
        text::is_boundary(chars, high),
    ensures
        ceil_boundary(chars, offset) <= high,
    decreases high - offset,
{
    if !(offset >= text::byte_len(chars) || text::is_boundary(chars, offset)) {
        lemma_ceil_at_most(chars, offset + 1, high);
    }
}

/// No boundary lies strictly inside a character.
proof fn lemma_nothing_between(chars: Seq<char>, i: int, offset: int)
    requires
        0 <= i < chars.len(),
        text::is_boundary(chars, offset),
    ensures
        !(text::offset_of(chars, i) < offset < text::offset_of(chars, i + 1)),
{
    text::lemma_offset_of_index(chars, offset);
    let k = text::index_of(chars, offset);
    if k <= i {
        text::lemma_offset_monotone(chars, k, i);
    } else {
        text::lemma_offset_monotone(chars, i + 1, k);
    }
}

/// Vertical movement lands between characters of the text, and inside the line it is heading for.
pub proof fn vertical_moves_land_on_their_line(chars: Seq<char>, cursor: int, delta: int)
    requires
        text::is_boundary(chars, cursor),
    ensures
        text::is_boundary(chars, vertical(chars, cursor, delta)),
        ({
            let target = line_of(line_starts(chars), cursor) + delta;
            0 <= target < line_starts(chars).len() ==> line_start(chars, target) <= vertical(
                chars,
                cursor,
                delta,
            ) <= line_end(chars, target)
        }),
{
    let starts = line_starts(chars);
    line_index_is_sound(chars);
    text::lemma_offset_ends(chars);
    text::lemma_offset_of_index(chars, cursor);
    lemma_line_of(starts, cursor);
    let line = line_of(starts, cursor);
    let target = line + delta;
    if 0 <= target < starts.len() {
        lemma_line_span(chars, target);
        let column = cursor - starts[line];
        let end = line_end(chars, target);
        let offset = if starts[target] + column <= end {
            starts[target] + column
        } else {
            end
        };
        lemma_floor(chars, starts[target], offset);
    }
}

/// The line index as offsets.
pub open spec fn offsets(starts: Seq<usize>) -> Seq<int> {
    starts.map_values(|s: usize| s as int)
}

/// The byte offset where each line begins.
pub fn compute_line_starts(content: &str) -> (starts: Vec<usize>)
    ensures
        offsets(starts@) == line_starts(content@),
{
    let chars = text::chars_of(content);
    let total: usize = text::byte_length(content);
    let mut starts: Vec<usize> = Vec::new();
    starts.push(0);
    let mut offset: usize = 0;
    let mut i: usize = 0;
    proof {
        assert(content@.take(0) =~= Seq::<char>::empty());
        assert(offsets(starts@) =~= seq![0int]);
        text::lemma_offset_ends(content@);
    }
    while i < chars.len()
        invariant
            i <= chars.len(),
            chars@ == content@,
            total == text::byte_len(content@),
            offset == text::offset_of(content@, i as int),
            offset <= total,
            offsets(starts@) == line_starts(content@.take(i as int)),
        decreases chars.len() - i,
    {
        proof {
            let grown = content@.take(i + 1);
            assert(grown.drop_last() =~= content@.take(i as int));
            assert(grown.last() == chars[i as int]);
            text::lemma_offset_step(content@, i as int);
            text::lemma_offset_monotone(content@, i + 1, content@.len() as int);
        }
        let c = chars[i];
        offset = offset + c.len_utf8();
        if c == '\n' {
            let ghost held = offsets(starts@);
            starts.push(offset);
            proof {
                assert(offsets(starts@) =~= held.push(offset as int));
            }
        }
        i = i + 1;
    }
    proof {
        assert(content@.take(content@.len() as int) =~= content@);
    }
    starts
}

/// The line an offset is on, by binary search.
pub fn find_line(starts: &Vec<usize>, offset: usize) -> (line: usize)
    requires
        starts.len() >= 1,
        starts[0] == 0,
        forall|j: int, k: int|
            0 <= j < k < starts.len() ==> #[trigger] starts[j] < #[trigger] starts[k],
    ensures
        line == line_of(offsets(starts@), offset as int),
        line < starts.len(),
        starts[line as int] <= offset,
{
    let mut low: usize = 0;
    let mut high: usize = starts.len();
    while high - low > 1
        invariant
            low < high <= starts.len(),
            starts[low as int] <= offset,
            high < starts.len() ==> offset < starts[high as int],
        decreases high - low,
    {
        let mid: usize = low + (high - low) / 2;
        if starts[mid] <= offset {
            low = mid;
        } else {
            high = mid;
        }
    }
    proof {
        let view = offsets(starts@);
        assert forall|j: int, k: int| 0 <= j < k < view.len() implies #[trigger] view[j]
            < #[trigger] view[k] by {
            assert(starts[j] < starts[k]);
        }
        lemma_line_of_unique(view, offset as int, low as int);
    }
    low
}

/// The floor of an offset is a place between characters, and none lies between the two.
pub proof fn a_floor_is_the_nearest_place_before(chars: Seq<char>, offset: int)
    requires
        0 <= offset,
    ensures
        0 <= floor_boundary(chars, offset) <= offset,
        text::is_boundary(chars, floor_boundary(chars, offset)),
        forall|x: int|
            floor_boundary(chars, offset) < x <= offset ==> !#[trigger] text::is_boundary(chars, x),
    decreases offset,
{
    text::lemma_offset_ends(chars);
    if offset == 0 {
        assert(text::offset_of(chars, 0) == 0);
    } else if !text::is_boundary(chars, offset) {
        a_floor_is_the_nearest_place_before(chars, offset - 1);
    }
}

/// A line that is not the last ends before its line break, which is a newline or a carriage return
/// and a newline, and the next line begins right after it; the last line ends with the text.
pub proof fn a_line_ends_before_its_break(chars: Seq<char>, line: int)
    requires
        0 <= line < line_starts(chars).len(),
    ensures
        line + 1 == line_starts(chars).len() ==> line_end(chars, line) == text::byte_len(chars),
        line + 1 < line_starts(chars).len() ==> ({
            let end = line_end(chars, line);
            let next = line_starts(chars)[line + 1];
            let i = text::index_of(chars, end);
            &&& 0 <= i < chars.len()
            &&& next == end + 1 ==> chars[i] == '\n'
            &&& next != end + 1 ==> next == end + 2 && i + 1 < chars.len() && chars[i] == '\r'
                && chars[i + 1] == '\n'
            &&& next == end + 1 && end > line_starts(chars)[line] ==> i > 0 && chars[i - 1] != '\r'
        }),
{
    let starts = line_starts(chars);
    line_index_is_sound(chars);
    text::lemma_offset_ends(chars);
    lemma_start_is_boundary(chars, line);
    if line + 1 < starts.len() {
        let stop = starts[line + 1] - 1;
        let next = starts[line + 1];
        assert(follows_newline(chars, next));
        let i = choose|i: int| begins_line(chars, next, i);
        assert(text::width('\n') == 1);
        assert(text::width('\r') == 1);
        text::lemma_offset_step(chars, i - 1);
        text::lemma_index_of_offset(chars, i - 1);
        assert(starts[line] <= stop);
        text::lemma_index_monotone(chars, starts[line], stop);
        if stop > starts[line] {
            text::lemma_offset_of_index(chars, starts[line]);
            if chars[i - 2] == '\r' {
                text::lemma_offset_step(chars, i - 2);
                text::lemma_index_of_offset(chars, i - 2);
            }
        }
    }
}

/// A step to another line keeps the column where that line reaches it, goes to the end of the line
/// where it does not, and inside a character goes before it; past the first line it goes to the
/// start of the text, past the last to its end.
pub proof fn a_step_to_another_line_keeps_the_column(chars: Seq<char>, cursor: int, delta: int)
    requires
        text::is_boundary(chars, cursor),
    ensures
        ({
            let starts = line_starts(chars);
            let line = line_of(starts, cursor);
            let target = line + delta;
            let to = vertical(chars, cursor, delta);
            &&& target < 0 ==> to == 0
            &&& target >= starts.len() ==> to == text::byte_len(chars)
            &&& 0 <= target < starts.len() ==> {
                let wanted = starts[target] + (cursor - starts[line]);
                &&& wanted >= line_end(chars, target) ==> to == line_end(chars, target)
                &&& wanted <= line_end(chars, target) && text::is_boundary(chars, wanted) ==> to
                    == wanted
                &&& to <= wanted
                &&& wanted <= line_end(chars, target) ==> forall|x: int|
                    to < x <= wanted ==> !#[trigger] text::is_boundary(chars, x)
            }
        }),
{
    let starts = line_starts(chars);
    line_index_is_sound(chars);
    text::lemma_offset_ends(chars);
    text::lemma_offset_of_index(chars, cursor);
    lemma_line_of(starts, cursor);
    let line = line_of(starts, cursor);
    let target = line + delta;
    if 0 <= target < starts.len() {
        lemma_line_span(chars, target);
        let wanted = starts[target] + (cursor - starts[line]);
        if wanted <= line_end(chars, target) {
            a_floor_is_the_nearest_place_before(chars, wanted);
        } else {
            a_floor_is_the_nearest_place_before(chars, line_end(chars, target));
        }
    }
}

/// Every place of a text is on the line that begins at or before it and is the last that does.
pub proof fn a_place_is_on_the_last_line_that_begins_before_it(chars: Seq<char>, offset: int, k: int)
    requires
        0 <= offset,
        0 <= k < line_starts(chars).len(),
    ensures
        ({
            let line = line_of(line_starts(chars), offset);
            &&& 0 <= line < line_starts(chars).len()
            &&& line_starts(chars)[line] <= offset
            &&& k > line ==> line_starts(chars)[k] > offset
            &&& line_start(chars, k) == line_starts(chars)[k]
            &&& line_text(chars, k) == text::sliced(
                chars,
                line_starts(chars)[k],
                line_end(chars, k),
            )
        }),
{
    line_index_is_sound(chars);
    let starts = line_starts(chars);
    lemma_line_of(starts, offset);
    let line = line_of(starts, offset);
    if k > line + 1 {
        assert(starts[line + 1] < starts[k]);
    }
}

} // verus!
