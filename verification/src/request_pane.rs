//! The request's half of a buffer: what its tabs and tables say, and which controls they offer.

use crate::commands::Action;
use crate::kinds;
use crate::kinds::{KindEditor, KindEditorView};
use crate::request::{Op, RawKind};
use crate::request_view::{
    BodyType, CaptureRow, KeyValueRow, RequestTab, RequestView, RowKind,
};
use crate::request_view::tabs;
use crate::strings;
use vstd::prelude::*;
use vstd::string::*;

verus! {

/// What the pane shows below its tabs.
#[derive(Clone, Copy, Debug, PartialEq, Eq, Structural)]
pub enum Section {
    /// A table of rows.
    Rows(RowKind),
    /// The body, in whatever form it has.
    Body,
    /// The document of a query.
    Document,
    /// The variables of a query.
    Variables,
    /// A tab that its kind draws, by its place among them.
    Own(u8),
}

/// What a tab shows.
pub open spec fn shown(tab: RequestTab, kind: KindEditorView) -> Section {
    match tab {
        RequestTab::Headers => Section::Rows(RowKind::Header),
        RequestTab::Capture => Section::Rows(RowKind::Capture),
        RequestTab::Assert => Section::Rows(RowKind::Assert),
        RequestTab::Kind(slot) => match kind {
            KindEditorView::Http(_) => if slot == 0 {
                Section::Rows(RowKind::Query)
            } else {
                Section::Body
            },
            KindEditorView::GraphQl(_) => if slot == 0 {
                Section::Document
            } else {
                Section::Variables
            },
            KindEditorView::WebSocket(_) => Section::Own(slot),
        },
    }
}

/// What a tab shows. Which content a kind's own tab holds is the kind's business.
pub fn section(tab: RequestTab, kind: &KindEditor) -> (r: Section)
    ensures
        r == shown(tab, kind@),
{
    match tab {
        RequestTab::Headers => Section::Rows(RowKind::Header),
        RequestTab::Capture => Section::Rows(RowKind::Capture),
        RequestTab::Assert => Section::Rows(RowKind::Assert),
        RequestTab::Kind(slot) => match kind {
            KindEditor::Http(_) => if slot == 0 {
                Section::Rows(RowKind::Query)
            } else {
                Section::Body
            },
            KindEditor::GraphQl(_) => if slot == 0 {
                Section::Document
            } else {
                Section::Variables
            },
            KindEditor::WebSocket(_) => Section::Own(slot),
        },
    }
}

/// A name with a count after it, where there is anything to count.
pub open spec fn suffixed(label: Seq<char>, count: nat) -> Seq<char> {
    if count == 0 {
        label
    } else {
        kinds::numbered(label, count)
    }
}

/// A name with a count after it, where there is anything to count: a hidden section still says
/// that there is something in it.
pub fn count_suffix(label: &str, count: usize) -> (r: String)
    ensures
        r@ == suffixed(label@, count as nat),
{
    if count == 0 {
        label.to_owned()
    } else {
        kinds::with_number(label, count)
    }
}

/// A tab of the strip.
pub struct TabItem {
    pub tab: RequestTab,
    pub id: &'static str,
    pub label: String,
    /// Whether it is the one that shows. It then cannot be clicked.
    pub active: bool,
}

/// What a tab is found by.
pub open spec fn tab_id(tab: RequestTab) -> Seq<char> {
    match tab {
        RequestTab::Headers => "request-tab-headers"@,
        RequestTab::Kind(slot) => if slot == 0 {
            "request-tab-kind-0"@
        } else {
            "request-tab-kind-1"@
        },
        RequestTab::Capture => "request-tab-capture"@,
        RequestTab::Assert => "request-tab-assert"@,
    }
}

/// What a tab says.
pub open spec fn tab_text(view: RequestView, tab: RequestTab) -> Seq<char> {
    match tab {
        RequestTab::Headers => suffixed("Headers"@, view.headers.len() as nat),
        RequestTab::Kind(slot) => view.kind@.tab_label(slot),
        RequestTab::Capture => suffixed("Capture"@, view.captures.len() as nat),
        RequestTab::Assert => suffixed("Assert"@, view.assertions.len() as nat),
    }
}

/// Whether an item is what the strip has for a tab.
pub open spec fn is_item(item: TabItem, view: RequestView, tab: RequestTab) -> bool {
    &&& item.tab == tab
    &&& item.id@ == tab_id(tab)
    &&& item.label@ == tab_text(view, tab)
    &&& item.active == (view.request_tab == tab)
}

fn tab_item(view: &RequestView, tab: RequestTab) -> (r: TabItem)
    ensures
        is_item(r, *view, tab),
{
    let active = view.request_tab == tab;
    match tab {
        RequestTab::Headers => TabItem {
            tab,
            id: "request-tab-headers",
            label: count_suffix("Headers", view.headers.len()),
            active,
        },
        RequestTab::Kind(slot) => TabItem {
            tab,
            id: if slot == 0 {
                "request-tab-kind-0"
            } else {
                "request-tab-kind-1"
            },
            label: view.kind.tab_label(slot),
            active,
        },
        RequestTab::Capture => TabItem {
            tab,
            id: "request-tab-capture",
            label: count_suffix("Capture", view.captures.len()),
            active,
        },
        RequestTab::Assert => TabItem {
            tab,
            id: "request-tab-assert",
            label: count_suffix("Assert", view.assertions.len()),
            active,
        },
    }
}

/// The strip of tabs, composed from the kind of the request.
pub fn section_tabs(view: &RequestView) -> (r: Vec<TabItem>)
    ensures
        r.len() == tabs::strip(view.kind@).len(),
        forall|i: int|
            0 <= i < r.len() ==> is_item(
                #[trigger] r[i],
                *view,
                tabs::strip(view.kind@)[i],
            ),
{
    let all = RequestTab::for_kind(&view.kind);
    let mut items: Vec<TabItem> = Vec::new();
    let mut i: usize = 0;
    while i < all.len()
        invariant
            i <= all.len(),
            items.len() == i,
            all@ == tabs::strip(view.kind@),
            forall|j: int| 0 <= j < i ==> is_item(#[trigger] items[j], *view, all@[j]),
        decreases all.len() - i,
    {
        items.push(tab_item(view, all[i]));
        i = i + 1;
    }
    items
}

/// No two tabs of a strip are found by the same name.
pub proof fn tabs_are_told_apart(kind: KindEditorView, i: int, j: int)
    requires
        0 <= i < j < tabs::strip(kind).len(),
    ensures
        tab_id(tabs::strip(kind)[i]) != tab_id(tabs::strip(kind)[j]),
{
    let strip = tabs::strip(kind);
    reveal_strlit("request-tab-headers");
    reveal_strlit("request-tab-kind-0");
    reveal_strlit("request-tab-kind-1");
    reveal_strlit("request-tab-capture");
    reveal_strlit("request-tab-assert");
    assert(strip[0] == RequestTab::Headers);
    assert(strip[1] == RequestTab::Kind(0));
    assert(strip[2] == RequestTab::Kind(1));
    if strip.len() == 5 {
        assert(strip[3] == RequestTab::Capture);
        assert(strip[4] == RequestTab::Assert);
    }
    assert("request-tab-headers"@[12] == 'h');
    assert("request-tab-kind-0"@[12] == 'k');
    assert("request-tab-kind-0"@[17] == '0');
    assert("request-tab-kind-1"@[12] == 'k');
    assert("request-tab-kind-1"@[17] == '1');
    assert("request-tab-capture"@[12] == 'c');
    assert("request-tab-assert"@[12] == 'a');
}

/// How many of some rows are on.
pub open spec fn count_on(flags: Seq<bool>) -> nat
    decreases flags.len(),
{
    if flags.len() == 0 {
        0
    } else {
        count_on(flags.drop_last()) + (if flags.last() {
            1nat
        } else {
            0
        })
    }
}

/// Which rows of a table are on.
pub open spec fn row_flags(rows: Seq<KeyValueRow>) -> Seq<bool> {
    rows.map_values(|row: KeyValueRow| row.enabled)
}

/// Which capture rules are on.
pub open spec fn capture_flags(rows: Seq<CaptureRow>) -> Seq<bool> {
    rows.map_values(|row: CaptureRow| row.enabled)
}

/// How many rows of a table are on.
pub fn rows_on(rows: &Vec<KeyValueRow>) -> (r: usize)
    ensures
        r == count_on(row_flags(rows@)),
        r <= rows.len(),
{
    let ghost flags = row_flags(rows@);
    let mut n: usize = 0;
    let mut i: usize = 0;
    while i < rows.len()
        invariant
            i <= rows.len(),
            flags == row_flags(rows@),
            n == count_on(flags.take(i as int)),
            n <= i,
        decreases rows.len() - i,
    {
        proof {
            assert(flags.take(i + 1).drop_last() =~= flags.take(i as int));
            assert(flags[i as int] == rows[i as int].enabled);
        }
        if rows[i].enabled {
            n = n + 1;
        }
        i = i + 1;
    }
    proof {
        assert(flags.take(i as int) =~= flags);
    }
    n
}

/// How many capture rules are on.
pub fn captures_on(rows: &Vec<CaptureRow>) -> (r: usize)
    ensures
        r == count_on(capture_flags(rows@)),
        r <= rows.len(),
{
    let ghost flags = capture_flags(rows@);
    let mut n: usize = 0;
    let mut i: usize = 0;
    while i < rows.len()
        invariant
            i <= rows.len(),
            flags == capture_flags(rows@),
            n == count_on(flags.take(i as int)),
            n <= i,
        decreases rows.len() - i,
    {
        proof {
            assert(flags.take(i + 1).drop_last() =~= flags.take(i as int));
            assert(flags[i as int] == rows[i as int].enabled);
        }
        if rows[i].enabled {
            n = n + 1;
        }
        i = i + 1;
    }
    proof {
        assert(flags.take(i as int) =~= flags);
    }
    n
}

/// How many rows a table has and how many are on, as it reads.
pub fn count_label(enabled: usize, total: usize) -> (r: String)
    ensures
        r@ == (if total == 0 {
            "empty"@
        } else {
            strings::decimal(enabled as nat) + " of "@ + strings::decimal(total as nat)
                + " enabled"@
        }),
{
    if total == 0 {
        "empty".to_owned()
    } else {
        let mut said = strings::decimal_string(enabled as u64);
        said.append(" of ");
        said.append(strings::decimal_string(total as u64).as_str());
        said.append(" enabled");
        said
    }
}

/// What the header above the body says of its length.
pub fn lines_label(lines: usize) -> (r: String)
    ensures
        r@ == strings::decimal(lines as nat) + " lines"@,
{
    let mut said = strings::decimal_string(lines as u64);
    said.append(" lines");
    said
}

/// Which table the header above the body can add to: only a form and a multipart body are one.
pub fn body_rows(body: Option<BodyType>) -> (r: Option<RowKind>)
    ensures
        r == (match body {
            Some(BodyType::Form) => Some(RowKind::Form),
            Some(BodyType::Multipart) => Some(RowKind::Multipart),
            _ => None,
        }),
{
    match body {
        Some(BodyType::Form) => Some(RowKind::Form),
        Some(BodyType::Multipart) => Some(RowKind::Multipart),
        _ => None,
    }
}

/// Whether the body can be formatted: it is text, and the text is JSON.
pub fn offers_format(body: Option<BodyType>, kind: &RawKind) -> (r: bool)
    ensures
        r == (body == Some(BodyType::Raw) && kind.json),
{
    match body {
        Some(BodyType::Raw) => kind.json,
        _ => false,
    }
}

/// The button beside the address: while a request is under way, all that it can do is give it up.
pub fn send_button(sending: bool) -> (r: (&'static str, Action))
    ensures
        r.0@ == (if sending {
            "Cancel"@
        } else {
            "Send"@
        }),
        r.1 == (if sending {
            Action::CancelRequest
        } else {
            Action::SendRequest
        }),
{
    if sending {
        ("Cancel", Action::CancelRequest)
    } else {
        ("Send", Action::SendRequest)
    }
}

/// The control that adds a row to a table: what it is found by, and what it says.
pub fn add_control(kind: RowKind) -> (r: (&'static str, &'static str))
    ensures
        (r.0@, r.1@) == (match kind {
            RowKind::Header => ("add-header"@, "Add header"@),
            RowKind::Query => ("add-query"@, "Add query parameter"@),
            RowKind::Assert => ("add-assertion"@, "Add an assertion"@),
            RowKind::Capture => ("add-capture"@, "Capture a value from the response"@),
            RowKind::Form => ("add-form-field"@, "Add form field"@),
            RowKind::Multipart => ("add-part"@, "Add multipart field"@),
        }),
{
    match kind {
        RowKind::Header => ("add-header", "Add header"),
        RowKind::Query => ("add-query", "Add query parameter"),
        RowKind::Assert => ("add-assertion", "Add an assertion"),
        RowKind::Capture => ("add-capture", "Capture a value from the response"),
        RowKind::Form => ("add-form-field", "Add form field"),
        RowKind::Multipart => ("add-part", "Add multipart field"),
    }
}

/// What the names of a table's controls begin with.
pub open spec fn prefix_of(kind: RowKind) -> Seq<char> {
    match kind {
        RowKind::Header => "hdr"@,
        RowKind::Query => "qry"@,
        RowKind::Form => "fld"@,
        RowKind::Multipart => "prt"@,
        RowKind::Capture => "cap"@,
        RowKind::Assert => "asr"@,
    }
}

/// What the names of a table's controls begin with. A part's begin with what it sends.
pub fn row_prefix(kind: RowKind, file_part: Option<bool>) -> (r: &'static str)
    ensures
        r@ == (match file_part {
            Some(true) => "fil"@,
            Some(false) => "txt"@,
            None => prefix_of(kind),
        }),
{
    match file_part {
        Some(is_file) => {
            return if is_file {
                "fil"
            } else {
                "txt"
            };
        },
        None => {},
    }
    match kind {
        RowKind::Header => "hdr",
        RowKind::Query => "qry",
        RowKind::Form => "fld",
        RowKind::Multipart => "prt",
        RowKind::Capture => "cap",
        RowKind::Assert => "asr",
    }
}

/// What a control of a row is found by.
pub open spec fn control_of(prefix: Seq<char>, control: Seq<char>, ix: nat) -> Seq<char> {
    prefix + "-"@ + control + "-"@ + strings::decimal(ix)
}

/// What a control of a row is found by.
pub fn control_id(prefix: &str, control: &str, ix: usize) -> (r: String)
    ensures
        r@ == control_of(prefix@, control@, ix as nat),
{
    let mut id = prefix.to_owned();
    id.append("-");
    id.append(control);
    id.append("-");
    id.append(strings::decimal_string(ix as u64).as_str());
    id
}

/// What is said of a table without rows.
pub fn empty_headline(kind: RowKind) -> (r: &'static str)
    ensures
        r@ == (match kind {
            RowKind::Header => "No headers"@,
            RowKind::Query => "No query parameters"@,
            RowKind::Form => "No fields"@,
            RowKind::Assert => "No assertions"@,
            RowKind::Capture => "No captures"@,
            RowKind::Multipart => "No parts"@,
        }),
{
    match kind {
        RowKind::Header => "No headers",
        RowKind::Query => "No query parameters",
        RowKind::Form => "No fields",
        RowKind::Assert => "No assertions",
        RowKind::Capture => "No captures",
        RowKind::Multipart => "No parts",
    }
}

/// Whether an assertion has a value to hold against: one that asks only whether something is
/// there ignores it.
pub fn takes_value(op: Op) -> (r: bool)
    ensures
        r == (op != Op::Exists),
{
    !matches!(op, Op::Exists)
}

/// What is said of a capture rule's lock.
pub fn secret_hint(secret: bool) -> (r: &'static str)
    ensures
        r@ == (if secret {
            "Secret — written to the gitignored file"@
        } else {
            "Written to the committed file"@
        }),
{
    if secret {
        "Secret — written to the gitignored file"
    } else {
        "Written to the committed file"
    }
}

/// What a part's chip says, and what is said of it.
pub fn part_chip(is_file: bool) -> (r: (&'static str, &'static str))
    ensures
        (r.0@, r.1@) == (if is_file {
            ("file"@, "This part sends a file — click to change"@)
        } else {
            ("text"@, "This part sends text — click to change"@)
        }),
{
    if is_file {
        ("file", "This part sends a file — click to change")
    } else {
        ("text", "This part sends text — click to change")
    }
}

/// What stands in the body's place.
#[derive(Clone, Copy, Debug, PartialEq, Eq, Structural)]
pub enum BodyRegion {
    /// Nothing: the kind has no body of this sort.
    Nothing,
    Rows(RowKind),
    /// The file that is sent, or the way to pick one.
    File,
    /// That there is no body. The text that was typed is kept, but would not be sent.
    NoBody,
    Editor,
}

/// What stands in the body's place.
pub fn body_region(body: Option<BodyType>) -> (r: BodyRegion)
    ensures
        r == (match body {
            None => BodyRegion::Nothing,
            Some(BodyType::Form) => BodyRegion::Rows(RowKind::Form),
            Some(BodyType::Multipart) => BodyRegion::Rows(RowKind::Multipart),
            Some(BodyType::Binary) => BodyRegion::File,
            Some(BodyType::Empty) => BodyRegion::NoBody,
            Some(BodyType::Raw) => BodyRegion::Editor,
        }),
{
    match body {
        None => BodyRegion::Nothing,
        Some(BodyType::Form) => BodyRegion::Rows(RowKind::Form),
        Some(BodyType::Multipart) => BodyRegion::Rows(RowKind::Multipart),
        Some(BodyType::Binary) => BodyRegion::File,
        Some(BodyType::Empty) => BodyRegion::NoBody,
        Some(BodyType::Raw) => BodyRegion::Editor,
    }
}

/// What is said below the file that is sent. Without a file there is nothing to say.
pub fn file_note(chosen: bool) -> (r: Option<&'static str>)
    ensures
        strings::str_text(r) == (if chosen {
            Some("Read at send · no Content-Type is sent unless you add the header"@)
        } else {
            None
        }),
{
    if chosen {
        Some("Read at send · no Content-Type is sent unless you add the header")
    } else {
        None
    }
}

/// What the find bar says of a scan that stopped at its limit.
pub fn limit_note(truncated: bool, limit: usize) -> (r: Option<String>)
    ensures
        strings::opt_text(r) == (if truncated {
            Some("first "@ + strings::decimal(limit as nat) + " only"@)
        } else {
            None
        }),
{
    if !truncated {
        return None;
    }
    let mut said = "first ".to_owned();
    said.append(strings::decimal_string(limit as u64).as_str());
    said.append(" only");
    Some(said)
}

/// The tables are shown by the tabs named after them, and each tab of a strip shows something of
/// its own: no two show the same.
pub proof fn each_tab_shows_its_own_section(kind: KindEditorView, a: RequestTab, b: RequestTab)
    ensures
        shown(RequestTab::Headers, kind) == Section::Rows(RowKind::Header),
        shown(RequestTab::Capture, kind) == Section::Rows(RowKind::Capture),
        shown(RequestTab::Assert, kind) == Section::Rows(RowKind::Assert),
        (a matches RequestTab::Kind(slot) ==> slot < 2) && (b matches RequestTab::Kind(slot)
            ==> slot < 2) && shown(a, kind) == shown(b, kind) ==> a == b,
        kind is Http ==> shown(RequestTab::Kind(0), kind) == Section::Rows(RowKind::Query) && shown(
            RequestTab::Kind(1),
            kind,
        ) is Body,
        kind is GraphQl ==> shown(RequestTab::Kind(0), kind) is Document && shown(
            RequestTab::Kind(1),
            kind,
        ) is Variables,
        kind is WebSocket ==> forall|slot: u8| #[trigger]
            shown(RequestTab::Kind(slot), kind) == Section::Own(slot),
{
}

/// A count is left out where there is nothing to count, and else follows the name and a space; it
/// can be told from the text.
pub proof fn a_count_follows_the_name(label: Seq<char>, a: nat, b: nat)
    ensures
        suffixed(label, 0) == label,
        a > 0 ==> suffixed(label, a) == label.push(' ') + strings::decimal(a),
        suffixed(label, a) == suffixed(label, b) ==> a == b,
{
    reveal_strlit(" ");
    assert(kinds::numbered(label, a) =~= label.push(' ') + strings::decimal(a));
    assert(kinds::numbered(label, b) =~= label.push(' ') + strings::decimal(b));
    strings::lemma_decimal(a);
    strings::lemma_decimal(b);
    if a > 0 && b > 0 && suffixed(label, a) == suffixed(label, b) {
        let n = label.len() as int + 1;
        assert((label.push(' ') + strings::decimal(a)).skip(n) =~= strings::decimal(a));
        assert((label.push(' ') + strings::decimal(b)).skip(n) =~= strings::decimal(b));
    }
}

/// A tab with a table says how many rows the table has.
pub proof fn a_tab_says_how_much_it_holds(view: RequestView)
    ensures
        view.headers@.len() == 0 ==> tab_text(view, RequestTab::Headers) == "Headers"@,
        view.headers@.len() > 0 ==> tab_text(view, RequestTab::Headers) == "Headers"@.push(' ')
            + strings::decimal(view.headers@.len()),
        view.captures@.len() == 0 ==> tab_text(view, RequestTab::Capture) == "Capture"@,
        view.captures@.len() > 0 ==> tab_text(view, RequestTab::Capture) == "Capture"@.push(' ')
            + strings::decimal(view.captures@.len()),
        view.assertions@.len() == 0 ==> tab_text(view, RequestTab::Assert) == "Assert"@,
        view.assertions@.len() > 0 ==> tab_text(view, RequestTab::Assert) == "Assert"@.push(' ')
            + strings::decimal(view.assertions@.len()),
{
    a_count_follows_the_name("Headers"@, view.headers@.len(), 0);
    a_count_follows_the_name("Capture"@, view.captures@.len(), 0);
    a_count_follows_the_name("Assert"@, view.assertions@.len(), 0);
}

/// The rows that are counted are those that are on.
pub proof fn the_rows_counted_are_those_that_are_on(
    rows: Seq<KeyValueRow>,
    captures: Seq<CaptureRow>,
)
    ensures
        count_on(row_flags(rows)) == rows.filter(|row: KeyValueRow| row.enabled).len(),
        count_on(capture_flags(captures)) == captures.filter(|row: CaptureRow| row.enabled).len(),
    decreases rows.len() + captures.len(),
{
    reveal(Seq::filter);
    if rows.len() > 0 {
        assert(row_flags(rows).drop_last() =~= row_flags(rows.drop_last()));
        the_rows_counted_are_those_that_are_on(rows.drop_last(), captures);
    }
    if captures.len() > 0 {
        assert(capture_flags(captures).drop_last() =~= capture_flags(captures.drop_last()));
        the_rows_counted_are_those_that_are_on(rows, captures.drop_last());
    }
}

/// The controls of two rows of a table are told apart, and so are those of two tables.
pub proof fn controls_are_told_apart(
    a: RowKind,
    b: RowKind,
    control: Seq<char>,
    i: nat,
    j: nat,
)
    ensures
        control_of(prefix_of(a), control, i) == control_of(prefix_of(b), control, j) ==> a == b
            && i == j,
{
    reveal_strlit("hdr");
    reveal_strlit("qry");
    reveal_strlit("fld");
    reveal_strlit("prt");
    reveal_strlit("cap");
    reveal_strlit("asr");
    reveal_strlit("-");
    let x = control_of(prefix_of(a), control, i);
    let y = control_of(prefix_of(b), control, j);
    strings::lemma_decimal(i);
    strings::lemma_decimal(j);
    assert(x[0] == prefix_of(a)[0]);
    assert(y[0] == prefix_of(b)[0]);
    assert("hdr"@[0] == 'h');
    assert("qry"@[0] == 'q');
    assert("fld"@[0] == 'f');
    assert("prt"@[0] == 'p');
    assert("cap"@[0] == 'c');
    assert("asr"@[0] == 'a');
    let n = 5 + control.len() as int;
    assert(x.skip(n) =~= strings::decimal(i));
    assert(y.skip(n) =~= strings::decimal(j));
}

/// A tab that its kind draws is found by its place among them, and the other tabs by their names.
pub proof fn a_tab_is_found_by_its_place_or_name()
    ensures
        tab_id(RequestTab::Kind(0)) == "request-tab-kind-0"@,
        tab_id(RequestTab::Kind(1)) == "request-tab-kind-1"@,
        tab_id(RequestTab::Headers) == "request-tab-headers"@,
        tab_id(RequestTab::Capture) == "request-tab-capture"@,
        tab_id(RequestTab::Assert) == "request-tab-assert"@,
{
}

} // verus!
