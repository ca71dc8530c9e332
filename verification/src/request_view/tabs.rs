//! The tab strips: the sections of a request, and the sections of a response.

use crate::kinds;
use crate::kinds::{KindEditor, KindEditorView};
use crate::lists;
use vstd::prelude::*;

verus! {

/// Which section of the request shows.
#[derive(Clone, Copy, Debug, PartialEq, Eq, Structural)]
pub enum RequestTab {
    Headers,
    /// One of the kind's own tabs, by its place among them.
    Kind(u8),
    /// What the request publishes after a successful send.
    Capture,
    /// What a run checks in the response.
    Assert,
}

impl Default for RequestTab {
    fn default() -> (r: RequestTab)
        ensures
            r == RequestTab::Kind(1),
    {
        RequestTab::Kind(1)
    }
}

/// The strip of a request: who you are, what you send, what you check. A kind without a single
/// response to check has no last two.
pub open spec fn strip(kind: KindEditorView) -> Seq<RequestTab> {
    let own = seq![RequestTab::Headers] + Seq::new(
        kind.tab_names().len(),
        |i: int| RequestTab::Kind(i as u8),
    );
    if kind.checks_a_response() {
        own + seq![RequestTab::Capture, RequestTab::Assert]
    } else {
        own
    }
}

/// Where a tab stands in a strip; the first place where it is not there.
pub open spec fn place_of(strip: Seq<RequestTab>, tab: RequestTab) -> int {
    let at = lists::first_at(strip, tab, 0);
    if at < strip.len() {
        at
    } else {
        0
    }
}

/// The tab some steps on in the strip of a kind.
pub open spec fn stepped(tab: RequestTab, delta: int, kind: KindEditorView) -> RequestTab {
    let all = strip(kind);
    all[lists::wrapped(place_of(all, tab), delta, all.len() as int)]
}

impl RequestTab {
    /// The strip, in the order it is drawn and stepped through.
    pub fn for_kind(kind: &KindEditor) -> (r: Vec<RequestTab>)
        ensures
            r@ == strip(kind@),
            r.len() > 0,
    {
        let mut tabs: Vec<RequestTab> = Vec::new();
        tabs.push(RequestTab::Headers);
        let own = kind.tabs();
        let count: usize = own.len();
        proof {
            assert(kinds::labels_of(own@).len() == count);
        }
        let mut slot: usize = 0;
        while slot < count
            invariant
                slot <= count,
                count <= 2,
                tabs@ == seq![RequestTab::Headers] + Seq::new(
                    slot as nat,
                    |i: int| RequestTab::Kind(i as u8),
                ),
            decreases count - slot,
        {
            tabs.push(RequestTab::Kind(slot as u8));
            slot = slot + 1;
            proof {
                assert(tabs@ =~= seq![RequestTab::Headers] + Seq::new(
                    slot as nat,
                    |i: int| RequestTab::Kind(i as u8),
                ));
            }
        }
        if kind.checks_a_response() {
            tabs.push(RequestTab::Capture);
            tabs.push(RequestTab::Assert);
        }
        proof {
            assert(tabs@ =~= strip(kind@));
        }
        tabs
    }

    /// The tab some steps on, going round at both ends. From a tab that is not in the strip the
    /// steps count from the first.
    pub fn step(self, delta: isize, kind: &KindEditor) -> (r: RequestTab)
        ensures
            r == stepped(self, delta as int, kind@),
            strip(kind@).contains(r),
    {
        let all = RequestTab::for_kind(kind);
        let found: usize = position(&all, self);
        let at: usize = if found < all.len() {
            found
        } else {
            0
        };
        let to: usize = lists::wrap(at, delta, all.len());
        proof {
            assert(strip(kind@)[to as int] == all@[to as int]);
        }
        all[to]
    }
}

/// Where a tab first stands in a list; the length where it does not.
pub fn position(all: &Vec<RequestTab>, tab: RequestTab) -> (r: usize)
    ensures
        r == lists::first_at(all@, tab, 0),
        r < all.len() <==> all@.contains(tab),
        r <= all.len(),
{
    let mut i: usize = 0;
    while i < all.len() && all[i] != tab
        invariant
            i <= all.len(),
            forall|k: int| 0 <= k < i ==> #[trigger] all@[k] != tab,
            lists::first_at(all@, tab, 0) == lists::first_at(all@, tab, i as int),
        decreases all.len() - i,
    {
        i = i + 1;
    }
    proof {
        if i < all.len() {
            assert(all@[i as int] == tab);
        }
    }
    i
}

/// Which section of a response shows.
#[derive(Clone, Copy, Debug, PartialEq, Eq, Structural)]
pub enum ResponseView {
    /// The answer the request was sent to get.
    Body,
    Headers,
    /// Where the time went.
    Timing,
    /// What changed since the run before.
    Diff,
}

impl Default for ResponseView {
    fn default() -> (r: ResponseView)
        ensures
            r == ResponseView::Body,
    {
        ResponseView::Body
    }
}

impl ResponseView {
    /// The sections, in the order they are drawn and stepped through.
    pub const ALL: [ResponseView; 4] = [
        ResponseView::Body,
        ResponseView::Headers,
        ResponseView::Timing,
        ResponseView::Diff,
    ];

    /// Where a section stands in the strip.
    pub open spec fn place(self) -> int {
        match self {
            ResponseView::Body => 0,
            ResponseView::Headers => 1,
            ResponseView::Timing => 2,
            ResponseView::Diff => 3,
        }
    }

    /// The section some steps on, going round at both ends.
    pub fn step(self, delta: isize) -> (r: ResponseView)
        ensures
            r.place() == lists::wrapped(self.place(), delta as int, 4),
    {
        let at: usize = match self {
            ResponseView::Body => 0,
            ResponseView::Headers => 1,
            ResponseView::Timing => 2,
            ResponseView::Diff => 3,
        };
        let to: usize = lists::wrap(at, delta, 4);
        if to == 0 {
            ResponseView::Body
        } else if to == 1 {
            ResponseView::Headers
        } else if to == 2 {
            ResponseView::Timing
        } else {
            ResponseView::Diff
        }
    }
}

/// The tab a buffer opens on is one of its strip, and every tab of the strip is there once.
pub proof fn a_strip_is_sound(kind: KindEditorView)
    ensures
        strip(kind).contains(RequestTab::Kind(kind.default_tab())),
        strip(kind).no_duplicates(),
        strip(kind)[0] == RequestTab::Headers,
{
    let s = strip(kind);
    assert(s[kind.default_tab() + 1] == RequestTab::Kind(kind.default_tab()));
}

/// A strip is the headers, the kind's own tabs in order, and where there is a response to check
/// what is captured and what is asserted, and nothing else.
pub proof fn a_strip_brackets_the_tabs_of_its_kind(kind: KindEditorView, i: int)
    ensures
        strip(kind).len() == kind.tab_names().len() + (if kind is WebSocket {
            1int
        } else {
            3int
        }),
        strip(kind)[0] == RequestTab::Headers,
        0 <= i < kind.tab_names().len() ==> strip(kind)[i + 1] == RequestTab::Kind(i as u8),
        kind !is WebSocket ==> strip(kind)[strip(kind).len() - 2] == RequestTab::Capture,
        kind !is WebSocket ==> strip(kind).last() == RequestTab::Assert,
{
}

/// A step goes to the next tab of the strip, and from the last to the first; a step back undoes
/// it. A tab that is not in the strip steps as the first does.
pub proof fn a_step_goes_to_the_next_tab(kind: KindEditorView, i: int, tab: RequestTab)
    requires
        0 <= i < strip(kind).len(),
    ensures
        i + 1 < strip(kind).len() ==> stepped(strip(kind)[i], 1, kind) == strip(kind)[i + 1],
        i + 1 == strip(kind).len() ==> stepped(strip(kind)[i], 1, kind) == strip(kind)[0],
        i > 0 ==> stepped(strip(kind)[i], -1, kind) == strip(kind)[i - 1],
        i == 0 ==> stepped(strip(kind)[i], -1, kind) == strip(kind).last(),
        stepped(strip(kind)[i], 0, kind) == strip(kind)[i],
        !strip(kind).contains(tab) ==> stepped(tab, 1, kind) == stepped(strip(kind)[0], 1, kind),
{
    let all = strip(kind);
    a_strip_is_sound(kind);
    lists::nothing_is_found_later_than_it_stands(all, all[i], 0);
    lists::lemma_first_at(all, all[i], 0);
    let at = lists::first_at(all, all[i], 0);
    assert(at < all.len() && all[at] == all[i]);
    assert(at == i);
    lists::steps_go_round_one_by_one(i, 0, 0, all.len() as int);
    lists::stepping_back_comes_home(i, 0, all.len() as int);
    lists::nothing_is_found_later_than_it_stands(all, all[0], 0);
    if !all.contains(tab) {
        lists::nothing_is_found_later_than_it_stands(all, tab, 0);
        let found = lists::first_at(all, tab, 0);
        if found < all.len() {
            assert(all[found] == tab);
        }
        let first = lists::first_at(all, all[0], 0);
        if first > 0 {
            assert(all[0] != all[0]);
        }
    }
}

/// The sections of a response stand in one order: the body, the headers, the timing, the
/// comparison.
pub proof fn the_sections_of_a_response_are_in_order()
    ensures
        0 <= ResponseView::Body.place() < ResponseView::Headers.place(),
        ResponseView::Headers.place() < ResponseView::Timing.place(),
        ResponseView::Timing.place() < ResponseView::Diff.place() < 4,
{
}

} // verus!
