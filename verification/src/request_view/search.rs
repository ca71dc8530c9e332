//! The find bars: what was found, and which of it is current.

use crate::input::text_input;
use crate::input::text_input::{InputView, TextInput};
use crate::lists;
use crate::strings;
use crate::text;
use core::ops::Range;
use vstd::prelude::*;
use vstd::string::*;

verus! {

/// What a scan found.
pub struct Hits {
    /// The byte offset of every match, ascending.
    pub offsets: Vec<u32>,
    /// Whether the scan stopped with some of the text left.
    pub truncated: bool,
}

/// A find bar that is open. While it is closed there is none, so it cannot hold stale matches.
pub struct TextSearch {
    pub query: TextInput,
    /// The byte offset of every match, ascending.
    pub offsets: Vec<u32>,
    /// The row that each match falls in.
    pub rows: Vec<u32>,
    /// Which match is current. It means nothing while there are none.
    pub current: usize,
    /// Whether the scan stopped with some of the text left.
    pub truncated: bool,
    /// Whether the current match lies past what its row displays.
    pub current_clipped: bool,
    /// What to replace matches with, where the text can be edited.
    pub replace: Option<TextInput>,
    /// Just past what the last replacement put in, until the text is scanned again: that scan goes
    /// on from here.
    pub resume: Option<usize>,
}

/// The first match at or after an offset, looked for from match `i` on; the first of all where
/// there is none.
pub open spec fn match_from(offsets: Seq<u32>, from: int, i: int) -> int
    decreases offsets.len() - i,
{
    if i >= offsets.len() {
        0
    } else if offsets[i] >= from {
        i
    } else {
        match_from(offsets, from, i + 1)
    }
}

/// Which match a scan makes current.
pub open spec fn landing(offsets: Seq<u32>, resume: Option<usize>) -> int {
    match resume {
        Some(from) => match_from(offsets, from as int, 0),
        None => 0,
    }
}

/// The match a scan goes on from is the first at or after where it was left, and the first of all
/// where none is: a replacement moves to the next match, going round at the end.
pub proof fn a_scan_goes_on_to_the_next_match(offsets: Seq<u32>, from: usize)
    requires
        offsets.len() > 0,
    ensures
        ({
            let at = landing(offsets, Some(from));
            &&& 0 <= at < offsets.len()
            &&& offsets[at] >= from ==> forall|k: int| 0 <= k < at ==> (#[trigger] offsets[k])
                < from
            &&& offsets[at] < from ==> at == 0 && forall|k: int|
                0 <= k < offsets.len() ==> (#[trigger] offsets[k]) < from
        }),
{
    lemma_match_from(offsets, from as int, 0);
}

proof fn lemma_match_from(offsets: Seq<u32>, from: int, i: int)
    requires
        0 <= i <= offsets.len(),
        offsets.len() > 0,
        forall|k: int| 0 <= k < i ==> (#[trigger] offsets[k]) < from,
    ensures
        ({
            let at = match_from(offsets, from, i);
            &&& 0 <= at < offsets.len()
            &&& offsets[at] >= from ==> forall|k: int| 0 <= k < at ==> (#[trigger] offsets[k])
                < from
            &&& offsets[at] < from ==> at == 0 && forall|k: int|
                0 <= k < offsets.len() ==> (#[trigger] offsets[k]) < from
        }),
    decreases offsets.len() - i,
{
    if i < offsets.len() && offsets[i] < from {
        lemma_match_from(offsets, from, i + 1);
    }
}

/// Which match a scan makes current.
fn landing_of(offsets: &Vec<u32>, resume: Option<usize>) -> (r: usize)
    ensures
        r == landing(offsets@, resume),
        offsets.len() > 0 ==> r < offsets.len(),
{
    let from: usize = match resume {
        Some(from) => from,
        None => {
            return 0;
        },
    };
    let mut i: usize = 0;
    while i < offsets.len() && (offsets[i] as usize) < from
        invariant
            i <= offsets.len(),
            match_from(offsets@, from as int, 0) == match_from(offsets@, from as int, i as int),
        decreases offsets.len() - i,
    {
        i = i + 1;
    }
    if i < offsets.len() {
        i
    } else {
        0
    }
}

/// Where the find bar stands, as it reads on screen.
pub open spec fn status_text(current: int, total: int, query: Seq<char>) -> Seq<char> {
    if total > 0 {
        strings::decimal((current + 1) as nat) + " of "@ + strings::decimal(total as nat)
    } else if query.len() == 0 {
        Seq::empty()
    } else {
        "no matches"@
    }
}

/// The empty query of a bar over the response.
pub open spec fn response_query() -> InputView {
    text_input::fresh_input(Seq::empty(), "Find in response…"@, "ResponseSearch"@)
}

/// The empty query of a bar over the body.
pub open spec fn body_query() -> InputView {
    text_input::fresh_input(Seq::empty(), "Find in body…"@, "BodySearch"@)
}

/// The empty replacement of a bar over the body.
pub open spec fn body_replacement() -> InputView {
    text_input::fresh_input(Seq::empty(), "Replace with…"@, "BodySearch"@)
}

impl TextSearch {
    /// Nothing has been looked for: no match, none of them current or out of sight, nothing cut
    /// short, and nowhere to go on from.
    pub open spec fn is_unscanned(&self) -> bool {
        &&& self.offsets@ == Seq::<u32>::empty()
        &&& self.rows@ == Seq::<u32>::empty()
        &&& self.current == 0
        &&& !self.truncated
        &&& !self.current_clipped
        &&& self.resume is None
    }

    /// The current match is one of the matches.
    pub open spec fn wf(&self) -> bool {
        &&& self.query@.wf()
        &&& self.replace matches Some(replace) ==> replace@.wf()
        &&& self.offsets.len() > 0 ==> self.current < self.offsets.len()
    }

    /// A bar over text that is only read.
    pub fn over_response() -> (r: TextSearch)
        ensures
            r.wf(),
            r.query@ == response_query(),
            r.is_unscanned(),
            r.replace is None,
    {
        proof {
            reveal_strlit("");
            assert(""@ =~= Seq::<char>::empty());
        }
        TextSearch {
            query: TextInput::new("", "Find in response…", "ResponseSearch"),
            offsets: Vec::new(),
            rows: Vec::new(),
            current: 0,
            truncated: false,
            current_clipped: false,
            replace: None,
            resume: None,
        }
    }

    /// A bar over text that is being edited.
    pub fn over_body() -> (r: TextSearch)
        ensures
            r.wf(),
            r.query@ == body_query(),
            r.is_unscanned(),
            r.replace matches Some(replace) && replace@ == body_replacement(),
    {
        proof {
            reveal_strlit("");
            assert(""@ =~= Seq::<char>::empty());
        }
        TextSearch {
            query: TextInput::new("", "Find in body…", "BodySearch"),
            offsets: Vec::new(),
            rows: Vec::new(),
            current: 0,
            truncated: false,
            current_clipped: false,
            replace: Some(TextInput::new("", "Replace with…", "BodySearch")),
            resume: None,
        }
    }

    /// Which match is current, counted from one, and how many there are.
    pub fn position(&self) -> (r: Option<(usize, usize)>)
        requires
            self.wf(),
        ensures
            r is Some <==> self.offsets.len() > 0,
            r matches Some((at, total)) ==> at == self.current + 1 && total == self.offsets.len(),
    {
        if self.offsets.len() == 0 {
            None
        } else {
            Some((self.current + 1, self.offsets.len()))
        }
    }

    /// Where the bar stands, as it reads on screen.
    pub fn status(&self) -> (r: String)
        requires
            self.wf(),
        ensures
            r@ == status_text(
                self.current as int,
                self.offsets@.len() as int,
                self.query@.surface.text,
            ),
    {
        match self.position() {
            Some((at, total)) => {
                let mut r = strings::decimal_string(at as u64);
                r.append(" of ");
                r.append(strings::decimal_string(total as u64).as_str());
                r
            },
            None => if self.query.text().is_empty() {
                String::new()
            } else {
                "no matches".to_owned()
            },
        }
    }

    /// Take what a scan found. The first match becomes the current one, or after a replacement the
    /// next one.
    pub fn found(&mut self, hits: Hits, rows: Vec<u32>)
        requires
            old(self).wf(),
        ensures
            final(self).wf(),
            *final(self) == (TextSearch {
                offsets: hits.offsets,
                rows,
                truncated: hits.truncated,
                current: landing(hits.offsets@, old(self).resume) as usize,
                current_clipped: false,
                resume: None,
                ..*old(self)
            }),
    {
        self.current = landing_of(&hits.offsets, self.resume);
        self.resume = None;
        self.offsets = hits.offsets;
        self.rows = rows;
        self.truncated = hits.truncated;
        self.current_clipped = false;
    }

    /// Move to another match, going round at both ends. Says whether there is one.
    pub fn step(&mut self, delta: isize) -> (r: bool)
        requires
            old(self).wf(),
        ensures
            final(self).wf(),
            r == (old(self).offsets.len() > 0),
            *final(self) == (if old(self).offsets.len() == 0 {
                *old(self)
            } else {
                TextSearch {
                    current: lists::wrapped(
                        old(self).current as int,
                        delta as int,
                        old(self).offsets.len() as int,
                    ) as usize,
                    ..*old(self)
                }
            }),
    {
        if self.offsets.len() == 0 {
            return false;
        }
        self.current = lists::wrap(self.current, delta, self.offsets.len());
        true
    }

    /// The row of the current match.
    pub fn current_row(&self) -> (r: Option<u32>)
        ensures
            r == (if self.current < self.rows.len() {
                Some(self.rows[self.current as int])
            } else {
                None
            }),
    {
        if self.current < self.rows.len() {
            Some(self.rows[self.current])
        } else {
            None
        }
    }

    /// The offset of the current match.
    pub fn current_offset(&self) -> (r: Option<u32>)
        ensures
            r == (if self.current < self.offsets.len() {
                Some(self.offsets[self.current as int])
            } else {
                None
            }),
    {
        if self.current < self.offsets.len() {
            Some(self.offsets[self.current])
        } else {
            None
        }
    }

    /// The bytes the current match covers, where something is looked for.
    pub fn current_bytes(&self) -> (r: Option<Range<u32>>)
        requires
            self.current < self.offsets.len() ==> self.offsets[self.current as int]
                + text::byte_len(self.query@.surface.text) <= u32::MAX,
        ensures
            r is Some <==> self.current < self.offsets.len() && self.query@.surface.text.len() > 0,
            r matches Some(range) ==> range.start == self.offsets[self.current as int] && range.end
                == range.start + text::byte_len(self.query@.surface.text),
    {
        let len: usize = text::byte_length(self.query.text());
        proof {
            text::lemma_len_positive(self.query@.surface.text);
        }
        match self.current_offset() {
            Some(start) => if len > 0 {
                Some(start..start + len as u32)
            } else {
                None
            },
            None => None,
        }
    }
}

/// The bar counts the matches from one, and says how many there are; without any it says so, and
/// without a query it says nothing.
pub proof fn matches_are_counted_from_one(current: int, total: int, query: Seq<char>)
    requires
        0 <= current,
        total > 0 ==> current < total,
    ensures
        total > 0 && current == 0 ==> strings::has_prefix(
            status_text(current, total, query),
            "1 of "@,
        ),
        total > 0 && current + 1 == total ==> status_text(current, total, query)
            == strings::decimal(total as nat) + " of "@ + strings::decimal(total as nat),
        total > 0 ==> exists|before: nat|
            before == current + 1 && status_text(current, total, query) == #[trigger]
                strings::decimal(before) + " of "@ + strings::decimal(total as nat),
        total <= 0 && query.len() > 0 ==> status_text(current, total, query) == "no matches"@,
        total <= 0 && query.len() == 0 ==> status_text(current, total, query).len() == 0,
{
    if total > 0 && current == 0 {
        reveal_strlit("1 of ");
        reveal_strlit(" of ");
        strings::lemma_decimal(1);
        assert(strings::decimal(1) =~= seq!['1']);
        let text = status_text(current, total, query);
        assert(text.take(5) =~= "1 of "@);
    }
    if total > 0 {
        let before = (current + 1) as nat;
        assert(status_text(current, total, query) == strings::decimal(before) + " of "@
            + strings::decimal(total as nat));
    }
}

/// A scan that nothing was replaced before lands on the first match.
pub proof fn a_new_scan_lands_on_the_first_match(offsets: Seq<u32>)
    ensures
        landing(offsets, None) == 0,
{
}

} // verus!
