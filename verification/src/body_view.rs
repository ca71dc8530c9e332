//! Deciding how to display a response body, and holding the fold state.

use crate::outline;
use crate::outline::{Outline, OutlineKind, OutlineRow};
use crate::strings;
use vstd::prelude::*;
use vstd::string::*;
use vstd::utf8::*;

verus! {

/// Above this many bytes, JSON is not parsed unless asked for: its index would cost more memory
/// than the body.
pub const MAX_AUTO_PARSE: usize = 10_485_760;

/// The lines of a body shown as raw text: how many, which is the widest, and how many characters
/// that one is drawn with.
#[derive(Clone, Copy, Debug, PartialEq, Eq, Structural)]
pub struct TextLines {
    pub count: usize,
    pub widest: usize,
    pub widest_chars: u32,
}

/// How a body is shown.
pub enum BodyKind {
    Empty,
    Json(Outline),
    Text(TextLines),
    Binary { len: usize },
}

/// Which half of an HTML body is shown.
#[derive(Clone, Copy, Debug, PartialEq, Eq, Structural)]
pub enum HtmlView {
    /// The text that can be read in it.
    Text,
    /// The markup itself.
    Raw,
}

impl Default for HtmlView {
    fn default() -> (r: HtmlView)
        ensures
            r == HtmlView::Text,
    {
        HtmlView::Text
    }
}

impl HtmlView {
    pub open spec fn spec_other(self) -> HtmlView {
        match self {
            HtmlView::Text => HtmlView::Raw,
            HtmlView::Raw => HtmlView::Text,
        }
    }

    /// The other half.
    pub fn other(self) -> (r: HtmlView)
        ensures
            r == self.spec_other(),
    {
        match self {
            HtmlView::Text => HtmlView::Raw,
            HtmlView::Raw => HtmlView::Text,
        }
    }
}

/// Why the body isn't shown as JSON, when it might have been.
#[derive(Debug)]
pub enum BodyNotice {
    TooLarge { len: usize },
    ParseFailed { message: String },
}

impl Clone for BodyNotice {
    fn clone(&self) -> (r: BodyNotice)
        ensures
            r == *self,
    {
        match self {
            BodyNotice::TooLarge { len } => BodyNotice::TooLarge { len: *len },
            BodyNotice::ParseFailed { message } => BodyNotice::ParseFailed {
                message: message.clone(),
            },
        }
    }
}

/// What a row's text is read from.
#[derive(Clone, Copy, Debug, PartialEq, Eq, Structural)]
pub enum RowSource {
    /// A value of the document: a string is decoded, and a container is its own text.
    Value(u32),
    /// A line, whole and not as much of it as is drawn.
    Line(u32),
}

/// Where a body stopped being JSON, and how.
pub struct ParseFailure {
    pub message: String,
    pub line: u64,
    pub column: u64,
}

/// What a notice says.
pub enum Notice {
    TooLarge(int),
    ParseFailed(Seq<char>),
}

/// What a notice says, where there is one.
pub open spec fn notice_of(notice: Option<BodyNotice>) -> Option<Notice> {
    match notice {
        Some(BodyNotice::TooLarge { len }) => Some(Notice::TooLarge(len as int)),
        Some(BodyNotice::ParseFailed { message }) => Some(Notice::ParseFailed(message@)),
        None => None,
    }
}

/// The blanks that may stand before a JSON document: space, tab, line feed, form feed and
/// carriage return.
pub open spec fn is_blank_byte(b: u8) -> bool {
    b == 0x20 || b == 0x09 || b == 0x0a || b == 0x0c || b == 0x0d
}

/// The first byte that is not blank.
pub open spec fn first_ink(body: Seq<u8>) -> Option<u8>
    decreases body.len(),
{
    if body.len() == 0 {
        None
    } else if is_blank_byte(body[0]) {
        first_ink(body.drop_first())
    } else {
        Some(body[0])
    }
}

/// Whether a content type, in lower case, says that a body is something other than JSON.
pub open spec fn names_another_type(kind: Seq<char>) -> bool {
    ||| strings::has_substring(kind, "html"@)
    ||| strings::has_substring(kind, "xml"@)
    ||| strings::has_prefix(kind, "image/"@)
    ||| strings::has_prefix(kind, "audio/"@)
    ||| strings::has_prefix(kind, "video/"@)
    ||| strings::has_substring(kind, "javascript"@)
    ||| strings::has_substring(kind, "css"@)
}

/// Whether the first byte that is not blank opens an object or an array.
pub open spec fn sniffs_as_json(body: Seq<u8>) -> bool {
    first_ink(body) == Some(0x7bu8) || first_ink(body) == Some(0x5bu8)
}

/// Whether a body is taken for JSON: by its content type where that decides, else by its first
/// byte.
pub open spec fn is_json_like(body: Seq<u8>, content_type: Option<Seq<char>>) -> bool {
    match content_type {
        Some(kind) => {
            let kind = strings::lowered(kind);
            strings::has_substring(kind, "json"@) || (!names_another_type(kind) && sniffs_as_json(
                body,
            ))
        },
        None => sniffs_as_json(body),
    }
}

/// Whether a body is to be parsed: it is taken for JSON, and is not too large or was asked for.
pub open spec fn is_parsed(body: Seq<u8>, content_type: Option<Seq<char>>, force: bool) -> bool {
    &&& body.len() > 0
    &&& is_json_like(body, content_type)
    &&& body.len() <= MAX_AUTO_PARSE || force
}

/// What a parse failure is reported as.
pub open spec fn failure_text(failure: ParseFailure) -> Seq<char> {
    failure.message@ + " at line "@ + strings::decimal(failure.line as nat) + ", column "@
        + strings::decimal(failure.column as nat)
}

/// Whether the first byte that is not blank opens an object or an array.
fn sniff(body: &[u8]) -> (r: bool)
    ensures
        r == sniffs_as_json(body@),
{
    let mut i: usize = 0;
    proof {
        assert(body@.skip(0) =~= body@);
    }
    while i < body.len()
        invariant
            i <= body.len(),
            first_ink(body@) == first_ink(body@.skip(i as int)),
        decreases body.len() - i,
    {
        let b: u8 = body[i];
        proof {
            assert(body@.skip(i as int)[0] == b);
            assert(body@.skip(i as int).drop_first() =~= body@.skip(i + 1));
        }
        if !(b == 0x20 || b == 0x09 || b == 0x0a || b == 0x0c || b == 0x0d) {
            return b == 0x7b || b == 0x5b;
        }
        i = i + 1;
    }
    false
}

/// Whether a body is taken for JSON. The content type comes first: plenty of APIs send JSON with
/// the wrong type or none, but one that names something else is respected.
pub fn looks_like_json(body: &[u8], content_type: Option<&str>) -> (r: bool)
    ensures
        r == is_json_like(body@, strings::str_text(content_type)),
{
    if let Some(content_type) = content_type {
        let kind = strings::to_lower(content_type);
        if strings::contains(kind.as_str(), "json") {
            return true;
        }
        if strings::contains(kind.as_str(), "html") || strings::contains(kind.as_str(), "xml")
            || strings::starts_with(kind.as_str(), "image/") || strings::starts_with(
            kind.as_str(),
            "audio/",
        ) || strings::starts_with(kind.as_str(), "video/") || strings::contains(
            kind.as_str(),
            "javascript",
        ) || strings::contains(kind.as_str(), "css") {
            return false;
        }
    }
    sniff(body)
}

/// `core::str::from_utf8`: succeeds exactly on bytes that are valid UTF-8.
#[verifier::external_body]
fn is_utf8(body: &[u8]) -> (r: bool)
    ensures
        r == valid_utf8(body@),
{
    core::str::from_utf8(body).is_ok()
}

/// Whether a visible row is a folded container.
///
/// Read off the visible index alone: an unfolded opening row is always followed by the row after
/// it, its first child or its own closing row.
pub fn is_folded_at(visible: &[u32], visible_ix: usize, row_ix: usize) -> (r: bool)
    requires
        visible_ix < usize::MAX,
        row_ix < usize::MAX,
    ensures
        r == (visible_ix + 1 >= visible@.len() || visible@[visible_ix + 1] != row_ix + 1),
{
    if visible_ix + 1 < visible.len() {
        visible[visible_ix + 1] as usize != row_ix + 1
    } else {
        true
    }
}

/// The last of `visible` that lies before `row`.
pub open spec fn last_below(visible: Seq<u32>, row: u32) -> Option<u32>
    decreases visible.len(),
{
    if visible.len() == 0 {
        None
    } else if visible.last() < row {
        Some(visible.last())
    } else {
        last_below(visible.drop_last(), row)
    }
}

/// Where a selection goes when the visible rows change: it stays while its row is on screen, and
/// else moves to the nearest visible row above.
pub open spec fn snapped(visible: Seq<u32>, selected: Option<u32>) -> Option<u32> {
    match selected {
        None => None,
        Some(row) => if visible.contains(row) {
            Some(row)
        } else {
            last_below(visible, row)
        },
    }
}

/// What a body view holds.
pub struct BodyState {
    pub kind: BodyKind,
    pub notice: Option<Notice>,
    pub folded: Seq<bool>,
    pub visible: Seq<u32>,
    pub widest_visible: int,
    pub widest_extent: (u16, u32),
    pub selected: Option<u32>,
}

impl BodyState {
    pub open spec fn rows(self) -> Seq<OutlineRow> {
        match self.kind {
            BodyKind::Json(o) => o.rows@,
            _ => Seq::empty(),
        }
    }

    pub open spec fn wf(self) -> bool {
        &&& match self.kind {
            BodyKind::Json(o) => {
                &&& o.wf()
                &&& self.folded.len() == o.rows.len()
                &&& self.selected matches Some(row) ==> self.visible.contains(row)
            },
            BodyKind::Text(lines) => {
                &&& lines.count <= u32::MAX
                &&& self.folded.len() == 0
                &&& self.selected matches Some(row) ==> row < lines.count
            },
            _ => self.folded.len() == 0 && self.selected is None,
        }
        &&& self.visible == outline::visible_of(self.rows(), self.folded)
        &&& self.kind is Json ==> {
            let widest = outline::widest_of(self.rows(), self.visible);
            self.widest_visible == widest.0 && self.widest_extent == widest.2
        }
    }

    /// The view with other folds.
    pub open spec fn refolded(self, folded: Seq<bool>) -> BodyState {
        let visible = outline::visible_of(self.rows(), folded);
        let widest = outline::widest_of(self.rows(), visible);
        BodyState {
            folded,
            visible,
            widest_visible: widest.0,
            widest_extent: widest.2,
            selected: snapped(visible, self.selected),
            ..self
        }
    }

    /// Whether row `ix` opens a container.
    pub open spec fn is_container(self, ix: int) -> bool {
        0 <= ix < self.rows().len() && self.rows()[ix].is_open()
    }

    /// The view after a fold at row `ix` is flipped, which does nothing but on a container.
    pub open spec fn toggled(self, ix: int) -> BodyState {
        if self.is_container(ix) {
            self.refolded(self.folded.update(ix, !self.folded[ix]))
        } else {
            self
        }
    }

    /// The folds with every container folded or not, the root never.
    pub open spec fn all_folds(self, folded: bool) -> Seq<bool> {
        Seq::new(
            self.rows().len(),
            |i: int| folded && self.rows()[i].is_open() && i != 0,
        )
    }

    /// The folds with every container around row `ix` open.
    pub open spec fn folds_open_around(self, ix: int) -> Seq<bool> {
        Seq::new(
            self.folded.len(),
            |f: int| self.folded[f] && !outline::encloses(self.rows(), f, ix),
        )
    }

    /// How many rows there are to draw.
    pub open spec fn count(self) -> int {
        match self.kind {
            BodyKind::Json(_) => self.visible.len() as int,
            BodyKind::Text(lines) => lines.count as int,
            _ => 0,
        }
    }

    /// The row drawn at a visible index.
    pub open spec fn row_at(self, visible_ix: int) -> u32 {
        match self.kind {
            BodyKind::Json(_) => self.visible[visible_ix],
            _ => visible_ix as u32,
        }
    }

    /// The visible index of the selection.
    pub open spec fn selected_ix(self) -> Option<int> {
        match self.selected {
            None => None,
            Some(row) => match self.kind {
                BodyKind::Json(_) => Some(self.visible.index_of(row)),
                BodyKind::Text(_) => Some(row as int),
                _ => None,
            },
        }
    }

    /// Where a selection that steps by `delta` lands: held inside the rows; from nothing, at the
    /// end the step came from.
    pub open spec fn stepped(self, delta: int) -> int {
        match self.selected_ix() {
            Some(at) => if at + delta < 0 {
                0
            } else if at + delta > self.count() - 1 {
                self.count() - 1
            } else {
                at + delta
            },
            None => if delta > 0 {
                0
            } else {
                self.count() - 1
            },
        }
    }
}

/// What revealing a row does: the containers around it open, and `at` is where it then shows. A
/// row of text shows where it stands; a row that is not there changes nothing.
pub open spec fn is_revealed(
    before: BodyState,
    row_ix: usize,
    after: BodyState,
    at: Option<usize>,
) -> bool {
    match before.kind {
        BodyKind::Json(outline) => if row_ix < outline.rows.len() {
            &&& after == before.refolded(before.folds_open_around(row_ix as int))
            &&& at matches Some(i) && i < after.visible.len() && after.visible[i as int] == row_ix
        } else {
            at is None && after == before
        },
        BodyKind::Text(lines) => {
            &&& after == before
            &&& at == (if row_ix < lines.count {
                Some(row_ix)
            } else {
                None
            })
        },
        _ => at is None && after == before,
    }
}

/// A response body on screen: what kind it is, which containers are folded, and where the reader
/// is standing.
pub struct BodyView {
    kind: BodyKind,
    notice: Option<BodyNotice>,
    folded: Vec<bool>,
    visible: Vec<u32>,
    widest_visible: usize,
    widest_extent: (u16, u32),
    selected: Option<u32>,
}

impl View for BodyView {
    type V = BodyState;

    closed spec fn view(&self) -> BodyState {
        BodyState {
            kind: self.kind,
            notice: notice_of(self.notice),
            folded: self.folded@,
            visible: self.visible@,
            widest_visible: self.widest_visible as int,
            widest_extent: self.widest_extent,
            selected: self.selected,
        }
    }
}

/// Where `row` stands in an index in order.
fn find_row(visible: &Vec<u32>, row: u32) -> (r: Option<usize>)
    requires
        forall|i: int, j: int|
            0 <= i < j < visible.len() ==> #[trigger] visible[i] < #[trigger] visible[j],
    ensures
        r matches Some(i) ==> i < visible.len() && visible[i as int] == row && i
            == visible@.index_of(row),
        r is None <==> !visible@.contains(row),
{
    let mut low: usize = 0;
    let mut high: usize = visible.len();
    while low < high
        invariant
            low <= high <= visible.len(),
            forall|i: int, j: int|
                0 <= i < j < visible.len() ==> #[trigger] visible[i] < #[trigger] visible[j],
            forall|i: int| 0 <= i < low ==> #[trigger] visible[i] < row,
            forall|i: int| high <= i < visible.len() ==> #[trigger] visible[i] > row,
        decreases high - low,
    {
        let mid: usize = low + (high - low) / 2;
        if visible[mid] == row {
            proof {
                let k = visible@.index_of(row);
                assert(visible@[mid as int] == row);
                assert(visible@.contains(row));
                assert(visible[k] == row);
                if k < mid {
                    assert(visible[k] < visible[mid as int]);
                } else if mid < k {
                    assert(visible[mid as int] < visible[k]);
                }
            }
            return Some(mid);
        }
        if visible[mid] < row {
            low = mid + 1;
        } else {
            high = mid;
        }
    }
    proof {
        if visible@.contains(row) {
            let k = visible@.index_of(row);
            assert(visible[k] == row);
        }
    }
    None
}

fn row_above(visible: &Vec<u32>, row: u32) -> (r: Option<u32>)
    ensures
        r == last_below(visible@, row),
{
    let mut n: usize = visible.len();
    proof {
        assert(visible@.take(n as int) =~= visible@);
    }
    while n > 0
        invariant
            n <= visible.len(),
            last_below(visible@, row) == last_below(visible@.take(n as int), row),
        decreases n,
    {
        proof {
            assert(visible@.take(n as int).drop_last() =~= visible@.take(n - 1));
        }
        if visible[n - 1] < row {
            return Some(visible[n - 1]);
        }
        n = n - 1;
    }
    None
}

proof fn lemma_last_below_is_visible(visible: Seq<u32>, row: u32)
    ensures
        last_below(visible, row) matches Some(above) ==> visible.contains(above) && above < row,
    decreases visible.len(),
{
    if visible.len() > 0 {
        if visible.last() < row {
            assert(visible[visible.len() - 1] == visible.last());
        } else {
            lemma_last_below_is_visible(visible.drop_last(), row);
            if let Some(above) = last_below(visible.drop_last(), row) {
                let i = visible.drop_last().index_of(above);
                assert(visible[i] == above);
            }
        }
    }
}

proof fn lemma_refolded_wf(s: BodyState, folded: Seq<bool>)
    requires
        s.kind is Json,
        s.kind->Json_0.wf(),
        folded.len() == s.rows().len(),
    ensures
        s.refolded(folded).wf(),
{
    let visible = outline::visible_of(s.rows(), folded);
    if let Some(row) = s.selected {
        lemma_last_below_is_visible(visible, row);
    }
}

impl BodyView {
    /// Whether a body is to be parsed as JSON before it can be shown.
    pub fn wants_parse(body: &[u8], content_type: Option<&str>, force_parse: bool) -> (r: bool)
        ensures
            r == is_parsed(body@, strings::str_text(content_type), force_parse),
    {
        body.len() > 0 && looks_like_json(body, content_type) && (body.len() <= MAX_AUTO_PARSE
            || force_parse)
    }

    /// Classify a body. `parsed` is what parsing it gave, where it was to be parsed, and `lines`
    /// are its lines as raw text.
    pub fn build(
        body: &[u8],
        content_type: Option<&str>,
        force_parse: bool,
        parsed: Option<Result<Outline, ParseFailure>>,
        lines: TextLines,
    ) -> (r: BodyView)
        requires
            is_parsed(body@, strings::str_text(content_type), force_parse) ==> parsed is Some,
            parsed matches Some(Ok(outline)) ==> outline.wf(),
            lines.count <= u32::MAX,
        ensures
            r@.wf(),
            r@.selected is None,
            ({
                let json = is_json_like(body@, strings::str_text(content_type));
                let plain = if valid_utf8(body@) {
                    BodyKind::Text(lines)
                } else {
                    BodyKind::Binary { len: body.len() }
                };
                if body@.len() == 0 {
                    r@.kind is Empty && r@.notice is None
                } else if is_parsed(body@, strings::str_text(content_type), force_parse) {
                    match parsed {
                        Some(Ok(outline)) => {
                            &&& r@.kind == BodyKind::Json(outline)
                            &&& r@.notice is None
                            &&& r@.folded == Seq::new(outline.rows@.len(), |i: int| false)
                        },
                        Some(Err(failure)) => r@.kind == plain && r@.notice == Some(
                            Notice::ParseFailed(failure_text(failure)),
                        ),
                        None => false,
                    }
                } else if json {
                    r@.kind == plain && r@.notice == Some(Notice::TooLarge(body@.len() as int))
                } else {
                    r@.kind == plain && r@.notice is None
                }
            }),
            r@.kind matches BodyKind::Text(lines) ==> r@.widest_visible == lines.widest
                && r@.widest_extent == (0u16, lines.widest_chars),
            r@.kind is Empty || r@.kind is Binary ==> r@.widest_visible == 0 && r@.widest_extent
                == (0u16, 0u32),
    {
        if body.len() == 0 {
            return Self::plain(BodyKind::Empty, None);
        }
        let is_json = looks_like_json(body, content_type);
        if is_json && body.len() > MAX_AUTO_PARSE && !force_parse {
            return Self::plain(
                text_or_binary(body, lines),
                Some(BodyNotice::TooLarge { len: body.len() }),
            );
        }
        if is_json {
            return match parsed.unwrap() {
                Ok(outline) => Self::json(outline),
                Err(failure) => {
                    let ghost said = failure_text(failure);
                    let mut message = failure.message;
                    message.append(" at line ");
                    message.append(strings::decimal_string(failure.line).as_str());
                    message.append(", column ");
                    message.append(strings::decimal_string(failure.column).as_str());
                    proof {
                        assert(message@ =~= said);
                    }
                    Self::plain(
                        text_or_binary(body, lines),
                        Some(BodyNotice::ParseFailed { message }),
                    )
                },
            };
        }
        Self::plain(text_or_binary(body, lines), None)
    }

    fn plain(kind: BodyKind, notice: Option<BodyNotice>) -> (r: BodyView)
        requires
            !(kind is Json),
            kind matches BodyKind::Text(lines) ==> lines.count <= u32::MAX,
        ensures
            r@.wf(),
            r@.kind == kind,
            r@.notice == notice_of(notice),
            r@.selected is None,
            kind matches BodyKind::Text(lines) ==> r@.widest_visible == lines.widest
                && r@.widest_extent == (0u16, lines.widest_chars),
            !(kind is Text) ==> r@.widest_visible == 0 && r@.widest_extent == (0u16, 0u32),
    {
        let widest_visible: usize = match &kind {
            BodyKind::Text(lines) => lines.widest,
            _ => 0,
        };
        let widest_extent: (u16, u32) = match &kind {
            BodyKind::Text(lines) => (0, lines.widest_chars),
            _ => (0, 0),
        };
        BodyView {
            kind,
            notice,
            folded: Vec::new(),
            visible: Vec::new(),
            widest_visible,
            widest_extent,
            selected: None,
        }
    }

    /// A parsed document with nothing folded.
    fn json(outline: Outline) -> (r: BodyView)
        requires
            outline.wf(),
        ensures
            r@.wf(),
            r@.kind == BodyKind::Json(outline),
            r@.notice is None,
            r@.folded == Seq::new(outline.rows@.len(), |i: int| false),
            r@.selected is None,
    {
        let mut folded: Vec<bool> = Vec::new();
        let mut i: usize = 0;
        while i < outline.len()
            invariant
                i <= outline.rows.len(),
                folded@ == Seq::new(i as nat, |i: int| false),
            decreases outline.rows.len() - i,
        {
            folded.push(false);
            i = i + 1;
            proof {
                assert(folded@ =~= Seq::new(i as nat, |i: int| false));
            }
        }
        let mut view = BodyView {
            kind: BodyKind::Json(outline),
            notice: None,
            folded,
            visible: Vec::new(),
            widest_visible: 0,
            widest_extent: (0, 0),
            selected: None,
        };
        view.rebuild_visible();
        view
    }

    /// Recompute what follows from the folds, keeping the selection on a row that is drawn.
    fn rebuild_visible(&mut self)
        requires
            old(self)@.kind matches BodyKind::Json(o) && o.wf() && old(self)@.folded.len()
                == o.rows.len(),
        ensures
            final(self)@ == old(self)@.refolded(old(self)@.folded),
            final(self)@.wf(),
    {
        proof {
            lemma_refolded_wf(self@, self@.folded);
            outline::lemma_visible(self@.rows(), self@.folded, self@.rows().len() as int);
        }
        if let BodyKind::Json(outline) = &self.kind {
            let visible = outline.visible_rows(&self.folded);
            let widest = outline::widest_json_row(&outline.rows, &visible);
            self.widest_visible = widest.0;
            self.widest_extent = widest.1;
            if let Some(row) = self.selected {
                if find_row(&visible, row).is_none() {
                    self.selected = row_above(&visible, row);
                }
            }
            self.visible = visible;
        }
    }

    /// The widest row's depth and drawn characters, for sizing the horizontal scroll region.
    pub fn widest_extent(&self) -> (r: (u16, u32))
        ensures
            r == self@.widest_extent,
    {
        self.widest_extent
    }

    /// The visible index of the widest row.
    pub fn widest_visible_ix(&self) -> (r: usize)
        ensures
            r == self@.widest_visible,
    {
        self.widest_visible
    }

    pub fn kind(&self) -> (r: &BodyKind)
        ensures
            *r == self@.kind,
    {
        &self.kind
    }

    pub fn notice(&self) -> (r: &Option<BodyNotice>)
        ensures
            notice_of(*r) == self@.notice,
    {
        &self.notice
    }

    pub fn outline(&self) -> (r: Option<&Outline>)
        ensures
            r is Some <==> self@.kind is Json,
            r matches Some(o) ==> self@.kind == BodyKind::Json(*o),
    {
        match &self.kind {
            BodyKind::Json(outline) => Some(outline),
            _ => None,
        }
    }

    pub fn visible(&self) -> (r: &Vec<u32>)
        ensures
            r@ == self@.visible,
    {
        &self.visible
    }

    /// How many rows there are to draw.
    pub fn row_count(&self) -> (r: usize)
        ensures
            r == self@.count(),
    {
        match &self.kind {
            BodyKind::Json(_) => self.visible.len(),
            BodyKind::Text(lines) => lines.count,
            _ => 0,
        }
    }

    /// Fold or unfold the container that row `row_ix` opens.
    pub fn toggle_fold(&mut self, row_ix: usize)
        requires
            old(self)@.wf(),
        ensures
            final(self)@.wf(),
            final(self)@ == old(self)@.toggled(row_ix as int),
    {
        let opens = match &self.kind {
            BodyKind::Json(outline) => row_ix < outline.len() && outline.rows[row_ix].is_open(),
            _ => false,
        };
        if opens {
            let flag = self.folded[row_ix];
            self.folded.set(row_ix, !flag);
            self.rebuild_visible();
        }
    }

    /// Fold or unfold every container at once, the root excepted.
    pub fn set_all_folded(&mut self, folded: bool)
        requires
            old(self)@.wf(),
        ensures
            final(self)@.wf(),
            final(self)@ == (if old(self)@.kind is Json {
                old(self)@.refolded(old(self)@.all_folds(folded))
            } else {
                old(self)@
            }),
    {
        if let BodyKind::Json(outline) = &self.kind {
            let mut flags: Vec<bool> = Vec::new();
            let mut ix: usize = 0;
            while ix < outline.len()
                invariant
                    ix <= outline.rows.len(),
                    flags@ == Seq::new(
                        ix as nat,
                        |i: int| folded && outline.rows@[i].is_open() && i != 0,
                    ),
                decreases outline.rows.len() - ix,
            {
                flags.push(folded && outline.rows[ix].is_open() && ix != 0);
                ix = ix + 1;
                proof {
                    assert(flags@ =~= Seq::new(
                        ix as nat,
                        |i: int| folded && outline.rows@[i].is_open() && i != 0,
                    ));
                }
            }
            proof {
                assert(flags@ =~= self@.all_folds(folded));
            }
            self.folded = flags;
            self.rebuild_visible();
        }
    }

    /// Whether a body shown as raw text was meant to be JSON: exactly when a notice explains why
    /// it is not shown as an outline.
    pub fn raw_is_json(&self) -> (r: bool)
        ensures
            r == (self@.kind is Text && self@.notice is Some),
    {
        matches!(self.kind, BodyKind::Text(_)) && self.notice.is_some()
    }

    pub fn is_json(&self) -> (r: bool)
        ensures
            r == (self@.kind is Json),
    {
        matches!(self.kind, BodyKind::Json(_))
    }

    /// Unfold whatever is needed for row `row_ix` to be on screen, and return where it now sits in
    /// the visible index.
    pub fn reveal_row(&mut self, row_ix: usize) -> (r: Option<usize>)
        requires
            old(self)@.wf(),
        ensures
            final(self)@.wf(),
            is_revealed(old(self)@, row_ix, final(self)@, r),
    {
        let ghost before = self@;
        let rows: usize = match &self.kind {
            BodyKind::Text(lines) => {
                return if row_ix < lines.count {
                    Some(row_ix)
                } else {
                    None
                };
            },
            BodyKind::Json(outline) => outline.len(),
            _ => {
                return None;
            },
        };
        if row_ix >= rows {
            return None;
        }
        let mut changed = false;
        let mut f: usize = 0;
        while f < rows
            invariant
                f <= rows,
                row_ix < rows,
                before.wf(),
                before.kind is Json,
                rows == before.rows().len(),
                self@ == (BodyState { folded: self@.folded, ..before }),
                self@.folded.len() == rows,
                forall|i: int|
                    0 <= i < f ==> #[trigger] self@.folded[i] == before.folds_open_around(
                        row_ix as int,
                    )[i],
                forall|i: int| f <= i < rows ==> #[trigger] self@.folded[i] == before.folded[i],
                !changed ==> self@.folded == before.folded,
            decreases rows - f,
        {
            let around = match &self.kind {
                BodyKind::Json(outline) => match outline.rows[f].kind {
                    OutlineKind::Open { close } => f < row_ix && row_ix <= close as usize,
                    _ => false,
                },
                _ => false,
            };
            proof {
                assert(around == outline::encloses(before.rows(), f as int, row_ix as int));
            }
            if around && self.folded[f] {
                self.folded.set(f, false);
                changed = true;
            }
            f = f + 1;
        }
        proof {
            assert(self@.folded =~= before.folds_open_around(row_ix as int));
            if !changed {
                lemma_reopening_nothing(before, row_ix as int);
            }
            outline::lemma_visible(before.rows(), self@.folded, rows as int);
            lemma_open_around_shows(before, row_ix as int);
        }
        if changed {
            self.rebuild_visible();
        }
        find_row(&self.visible, row_ix as u32)
    }

    /// The selected row.
    pub fn selected(&self) -> (r: Option<u32>)
        ensures
            r == self@.selected,
    {
        self.selected
    }

    /// Where the selection sits in the visible index.
    pub fn selected_visible_ix(&self) -> (r: Option<usize>)
        requires
            self@.wf(),
        ensures
            match self@.selected_ix() {
                Some(i) => r matches Some(at) && at == i && at < self@.count(),
                None => r is None,
            },
    {
        proof {
            outline::lemma_visible(self@.rows(), self@.folded, self@.rows().len() as int);
        }
        match self.selected {
            None => None,
            Some(row) => match &self.kind {
                BodyKind::Text(_) => Some(row as usize),
                BodyKind::Json(_) => find_row(&self.visible, row),
                _ => None,
            },
        }
    }

    /// Select the row drawn at `visible_ix`, returning it for scrolling.
    pub fn select_visible(&mut self, visible_ix: usize) -> (r: Option<usize>)
        requires
            old(self)@.wf(),
        ensures
            final(self)@.wf(),
            if visible_ix < old(self)@.count() {
                &&& r == Some(visible_ix)
                &&& final(self)@ == (BodyState {
                    selected: Some(old(self)@.row_at(visible_ix as int)),
                    ..old(self)@
                })
            } else {
                r is None && final(self)@ == old(self)@
            },
    {
        if visible_ix >= self.row_count() {
            return None;
        }
        let row: u32 = match &self.kind {
            BodyKind::Json(_) => self.visible[visible_ix],
            _ => visible_ix as u32,
        };
        self.selected = Some(row);
        proof {
            if self@.kind is Json {
                assert(self@.visible[visible_ix as int] == row);
            }
        }
        Some(visible_ix)
    }

    /// Step the selection by `delta` visible rows, held inside them, returning where it landed.
    pub fn move_selection(&mut self, delta: isize) -> (r: Option<usize>)
        requires
            old(self)@.wf(),
        ensures
            final(self)@.wf(),
            if old(self)@.count() == 0 {
                r is None && final(self)@ == old(self)@
            } else {
                &&& r matches Some(at) && at == old(self)@.stepped(delta as int)
                &&& final(self)@ == (BodyState {
                    selected: Some(old(self)@.row_at(old(self)@.stepped(delta as int))),
                    ..old(self)@
                })
            },
    {
        let count: usize = self.row_count();
        if count == 0 {
            return None;
        }
        let next: usize = match self.selected_visible_ix() {
            Some(current) => {
                let wanted: i128 = current as i128 + delta as i128;
                if wanted < 0 {
                    0
                } else if wanted > count as i128 - 1 {
                    count - 1
                } else {
                    wanted as usize
                }
            },
            None => if delta > 0 {
                0
            } else {
                count - 1
            },
        };
        self.select_visible(next)
    }

    /// Where the selected row's value is read from, to be copied.
    pub fn selected_value(&self) -> (r: Option<RowSource>)
        ensures
            r == (match (self@.selected, self@.kind) {
                (Some(row), BodyKind::Json(_)) => Some(RowSource::Value(row)),
                (Some(row), BodyKind::Text(_)) => Some(RowSource::Line(row)),
                _ => None,
            }),
    {
        match self.selected {
            None => None,
            Some(row) => match &self.kind {
                BodyKind::Json(_) => Some(RowSource::Value(row)),
                BodyKind::Text(_) => Some(RowSource::Line(row)),
                BodyKind::Empty | BodyKind::Binary { .. } => None,
            },
        }
    }

    /// The row whose path is to be copied: only the rows of a document have one.
    pub fn selected_path(&self) -> (r: Option<u32>)
        ensures
            r == (if self@.kind is Json {
                self@.selected
            } else {
                None
            }),
    {
        match &self.kind {
            BodyKind::Json(_) => self.selected,
            _ => None,
        }
    }

    /// Whether there is anything on screen to search.
    pub fn is_searchable(&self) -> (r: bool)
        ensures
            r == (self@.kind is Json || self@.kind is Text),
    {
        match &self.kind {
            BodyKind::Json(_) | BodyKind::Text(_) => true,
            BodyKind::Empty | BodyKind::Binary { .. } => false,
        }
    }

    /// Whether a match is drawn once its row is. `in_line` says whether it lies in the drawn part
    /// of its line; a document's rows are drawn whole.
    pub fn offset_is_displayed(&self, in_line: bool) -> (r: bool)
        ensures
            r == (self@.kind is Text ==> in_line),
    {
        match &self.kind {
            BodyKind::Text(_) => in_line,
            _ => true,
        }
    }

    /// Whether the selected row opens a container.
    pub fn selected_is_container(&self) -> (r: bool)
        ensures
            r == (self@.selected matches Some(row) && self@.is_container(row as int)),
    {
        match self.selected {
            None => false,
            Some(row) => match &self.kind {
                BodyKind::Json(outline) => (row as usize) < outline.len()
                    && outline.rows[row as usize].is_open(),
                _ => false,
            },
        }
    }

    /// Whether the selected container is folded.
    pub fn selected_is_folded(&self) -> (r: bool)
        ensures
            r == (self@.selected matches Some(row) && row < self@.folded.len()
                && self@.folded[row as int]),
    {
        match self.selected {
            None => false,
            Some(row) => (row as usize) < self.folded.len() && self.folded[row as usize],
        }
    }

    /// Fold or unfold the selected container.
    pub fn toggle_selected_fold(&mut self)
        requires
            old(self)@.wf(),
        ensures
            final(self)@.wf(),
            final(self)@ == (match old(self)@.selected {
                Some(row) => old(self)@.toggled(row as int),
                None => old(self)@,
            }),
    {
        if let Some(row) = self.selected {
            self.toggle_fold(row as usize);
        }
    }
}

fn text_or_binary(body: &[u8], lines: TextLines) -> (r: BodyKind)
    ensures
        r == (if valid_utf8(body@) {
            BodyKind::Text(lines)
        } else {
            BodyKind::Binary { len: body.len() }
        }),
{
    if is_utf8(body) {
        BodyKind::Text(lines)
    } else {
        BodyKind::Binary { len: body.len() }
    }
}

/// Where nothing around a row is folded, opening what is around it changes nothing.
proof fn lemma_reopening_nothing(s: BodyState, ix: int)
    requires
        s.wf(),
        s.kind is Json,
        s.folds_open_around(ix) == s.folded,
    ensures
        s.refolded(s.folds_open_around(ix)) == s,
{
}

/// Once the containers around a row are open, the row is on screen.
proof fn lemma_open_around_shows(s: BodyState, ix: int)
    requires
        s.wf(),
        s.kind is Json,
        0 <= ix < s.rows().len(),
    ensures
        !outline::is_hidden(s.rows(), s.folds_open_around(ix), ix),
        outline::visible_of(s.rows(), s.folds_open_around(ix)).contains(ix as u32),
{
    let folded = s.folds_open_around(ix);
    assert(!outline::is_hidden(s.rows(), folded, ix));
    outline::lemma_visible(s.rows(), folded, s.rows().len() as int);
}

/// Flipping a fold twice puts the folds and the rows on screen back.
pub proof fn folding_twice_changes_nothing(s: BodyState, ix: int)
    requires
        s.wf(),
    ensures
        s.toggled(ix).toggled(ix).folded == s.folded,
        s.toggled(ix).toggled(ix).visible == s.visible,
        s.toggled(ix).toggled(ix).widest_extent == s.widest_extent,
        s.toggled(ix).toggled(ix).widest_visible == s.widest_visible,
{
    if s.is_container(ix) {
        assert(s.folded.update(ix, !s.folded[ix]).update(ix, s.folded[ix]) =~= s.folded);
    }
}

/// Folding a container hides exactly the rows after it up to its closing row; nothing else that
/// was on screen goes, and nothing that was hidden appears.
pub proof fn folding_hides_only_the_subtree(s: BodyState, ix: int, r: int)
    requires
        s.wf(),
        s.is_container(ix),
        !s.folded[ix],
        0 <= r < s.rows().len(),
    ensures
        s.toggled(ix).visible.contains(r as u32) <==> s.visible.contains(r as u32)
            && !outline::encloses(s.rows(), ix, r),
{
    let folded = s.folded.update(ix, true);
    outline::visible_rows_are_the_unhidden_ones(s.rows(), s.folded, r);
    outline::visible_rows_are_the_unhidden_ones(s.rows(), folded, r);
    if outline::is_hidden(s.rows(), s.folded, r) {
        let f = choose|f: int|
            0 <= f < s.rows().len() && s.folded[f] && #[trigger] outline::encloses(s.rows(), f, r);
        assert(folded[f] && outline::encloses(s.rows(), f, r));
    }
    if outline::encloses(s.rows(), ix, r) {
        assert(folded[ix]);
    }
}

/// Fold-all leaves the root open: its first child, or the row that closes it, is on screen.
pub proof fn fold_all_leaves_the_root_open(s: BodyState)
    requires
        s.wf(),
        s.kind is Json,
        s.rows().len() > 1,
    ensures
        !s.refolded(s.all_folds(true)).folded[0],
        s.refolded(s.all_folds(true)).visible.contains(0u32),
        s.refolded(s.all_folds(true)).visible.contains(1u32),
{
    let folded = s.all_folds(true);
    assert(!outline::is_hidden(s.rows(), folded, 0));
    assert(!outline::is_hidden(s.rows(), folded, 1));
    outline::visible_rows_are_the_unhidden_ones(s.rows(), folded, 0);
    outline::visible_rows_are_the_unhidden_ones(s.rows(), folded, 1);
}

/// Unfold-all puts every row on screen.
pub proof fn unfold_all_shows_everything(s: BodyState)
    requires
        s.wf(),
        s.kind is Json,
    ensures
        s.refolded(s.all_folds(false)).visible == Seq::new(s.rows().len(), |i: int| i as u32),
{
    outline::unfolded_shows_everything(s.rows(), s.all_folds(false), s.rows().len() as int);
}

/// Revealing a row leaves the folds of every container that is not around it.
pub proof fn revealing_leaves_unrelated_folds(s: BodyState, ix: int, f: int)
    requires
        s.wf(),
        s.kind is Json,
        0 <= ix < s.rows().len(),
        0 <= f < s.rows().len(),
        !outline::encloses(s.rows(), f, ix),
    ensures
        s.refolded(s.folds_open_around(ix)).folded[f] == s.folded[f],
{
}

/// The visible index alone tells whether a container on screen is folded.
pub proof fn folds_can_be_read_off_the_visible_index(s: BodyState, visible_ix: int)
    requires
        s.wf(),
        s.kind is Json,
        0 <= visible_ix < s.visible.len(),
        s.is_container(s.visible[visible_ix] as int),
    ensures
        ({
            let row = s.visible[visible_ix] as int;
            s.folded[row] <==> visible_ix + 1 >= s.visible.len() || s.visible[visible_ix + 1] != row
                + 1
        }),
{
    let rows = s.rows();
    let row = s.visible[visible_ix] as int;
    outline::lemma_visible(rows, s.folded, rows.len() as int);
    assert(!outline::is_hidden(rows, s.folded, row));
    let close = rows[row].kind->close;
    assert(row < close < rows.len());
    if s.folded[row] {
        assert(outline::encloses(rows, row, row + 1));
        assert(outline::is_hidden(rows, s.folded, row + 1));
    } else {
        assert forall|f: int| 0 <= f < rows.len() && s.folded[f] implies !#[trigger] outline::encloses(
            rows,
            f,
            row + 1,
        ) by {
            if outline::encloses(rows, f, row + 1) && f != row {
                assert(outline::encloses(rows, f, row));
            }
        }
        assert(!outline::is_hidden(rows, s.folded, row + 1));
        let k = s.visible.index_of((row + 1) as u32);
        assert(s.visible[k] == row + 1);
        if k < visible_ix {
            assert(s.visible[k] < s.visible[visible_ix]);
        } else if k > visible_ix + 1 {
            assert(s.visible[visible_ix] < s.visible[visible_ix + 1]);
            assert(s.visible[visible_ix + 1] < s.visible[k]);
        }
    }
}

/// A step over the rows of a document lands on the row nearest to where it points: `delta` rows
/// on, and at an end where that lies past it. With nothing selected, a step down begins at the
/// first row on screen and a step up at the last.
pub proof fn a_step_lands_on_the_nearest_row(s: BodyState, delta: int, k: int)
    requires
        s.wf(),
        s.kind is Json,
        0 <= k < s.visible.len(),
    ensures
        0 <= s.stepped(delta) < s.visible.len(),
        s.row_at(s.stepped(delta)) == s.visible[s.stepped(delta)],
        s.selected is None && delta > 0 ==> s.stepped(delta) == 0,
        s.selected is None && delta <= 0 ==> s.stepped(delta) == s.visible.len() - 1,
        forall|at: int|
            0 <= at < s.visible.len() && s.selected == Some(#[trigger] s.visible[at]) ==> {
                let to = s.stepped(delta) - (at + delta);
                let other = k - (at + delta);
                &&& (0 <= to ==> other < 0 || to <= other)
                &&& (to <= 0 ==> other > 0 || other <= to)
                &&& 0 <= at + delta < s.visible.len() ==> s.stepped(delta) == at + delta
            },
{
    outline::lemma_visible(s.rows(), s.folded, s.rows().len() as int);
    assert forall|at: int| 0 <= at < s.visible.len() && s.selected == Some(
        #[trigger] s.visible[at],
    ) implies s.selected_ix() == Some(at) by {
        let found = s.visible.index_of(s.visible[at]);
        assert(s.visible.contains(s.visible[at]));
        assert(s.visible[found] == s.visible[at]);
        if found < at {
            assert(s.visible[found] < s.visible[at]);
        } else if at < found {
            assert(s.visible[at] < s.visible[found]);
        }
    }
    if let Some(row) = s.selected {
        assert(s.visible.contains(row));
        let at = s.visible.index_of(row);
        assert(s.visible[at] == row);
    }
}

/// The same over the lines of raw text, where the row selected is the line itself.
pub proof fn a_step_lands_on_the_nearest_line(s: BodyState, delta: int)
    requires
        s.wf(),
        s.kind is Text,
        s.kind->Text_0.count > 0,
    ensures
        ({
            let count = s.kind->Text_0.count as int;
            let to = s.row_at(s.stepped(delta)) as int;
            &&& 0 <= to < count
            &&& s.stepped(delta) == to
            &&& s.selected is None && delta > 0 ==> to == 0
            &&& s.selected is None && delta <= 0 ==> to == count - 1
            &&& s.selected matches Some(line) ==> {
                &&& line + delta < 0 ==> to == 0
                &&& line + delta >= count ==> to == count - 1
                &&& 0 <= line + delta < count ==> to == line + delta
            }
        }),
{
}

/// As many rows are drawn as are on screen, each the one at its place; nothing is drawn of a body
/// that is empty or is not text.
pub proof fn what_is_drawn_is_what_is_on_screen(s: BodyState, i: int)
    ensures
        s.kind is Json ==> s.count() == s.visible.len(),
        s.kind is Json && 0 <= i < s.visible.len() ==> s.row_at(i) == s.visible[i],
        s.kind matches BodyKind::Text(lines) ==> s.count() == lines.count,
        s.kind is Text && 0 <= i <= u32::MAX ==> s.row_at(i) == i,
        s.kind is Empty || s.kind is Binary ==> s.count() == 0,
{
}

/// However the folds change, a selected row that is still on screen stays selected; one that is
/// not gives way to the nearest row on screen above it, and to none only where there is none.
pub proof fn a_selection_stays_on_screen(s: BodyState, folded: Seq<bool>)
    requires
        s.wf(),
        s.kind is Json,
        s.selected is Some,
    ensures
        ({
            let after = s.refolded(folded);
            let row = s.selected->0;
            &&& after.visible.contains(row) ==> after.selected == Some(row)
            &&& !after.visible.contains(row) ==> match after.selected {
                Some(above) => {
                    &&& above < row
                    &&& after.visible.contains(above)
                    &&& forall|v: u32| #[trigger]
                        after.visible.contains(v) && v < row ==> v <= above
                },
                None => forall|v: u32| #[trigger] after.visible.contains(v) ==> v > row,
            }
        }),
{
    let after = s.refolded(folded);
    let row = s.selected->0;
    outline::lemma_visible(s.rows(), folded, s.rows().len() as int);
    if !after.visible.contains(row) {
        lemma_last_below_is_nearest(after.visible, row);
    }
}

proof fn lemma_last_below_is_nearest(visible: Seq<u32>, row: u32)
    requires
        forall|i: int, j: int|
            0 <= i < j < visible.len() ==> #[trigger] visible[i] < #[trigger] visible[j],
        !visible.contains(row),
    ensures
        match last_below(visible, row) {
            Some(above) => {
                &&& above < row
                &&& visible.contains(above)
                &&& forall|v: u32| #[trigger] visible.contains(v) && v < row ==> v <= above
            },
            None => forall|v: u32| #[trigger] visible.contains(v) ==> v > row,
        },
    decreases visible.len(),
{
    if visible.len() > 0 {
        let front = visible.drop_last();
        let last = visible.last();
        assert(visible[visible.len() - 1] == last);
        assert forall|v: u32| visible.contains(v) implies v <= last && (v == last
            || front.contains(v)) by {
            let i = visible.index_of(v);
            assert(visible[i] == v);
            if i < visible.len() - 1 {
                assert(front[i] == v);
            }
        }
        if last >= row {
            assert forall|v: u32| front.contains(v) implies visible.contains(v) by {
                let i = front.index_of(v);
                assert(visible[i] == v);
            }
            assert(!front.contains(row));
            lemma_last_below_is_nearest(front, row);
        }
    }
}

/// Flipping a fold flips that one and no other, and leaves what the body is. A row that opens
/// nothing has none to flip.
pub proof fn a_fold_flips_alone(s: BodyState, ix: int, f: int)
    requires
        s.wf(),
        0 <= f < s.folded.len(),
    ensures
        s.toggled(ix).folded.len() == s.folded.len(),
        f != ix ==> s.toggled(ix).folded[f] == s.folded[f],
        s.kind matches BodyKind::Json(outline) && outline.rows[f].kind is Open ==> s.toggled(
            f,
        ).folded[f] == !s.folded[f],
        s.kind matches BodyKind::Json(outline) && !(outline.rows[f].kind is Open) ==> s.toggled(f)
            == s,
        !(s.kind is Json) ==> s.toggled(ix) == s,
        s.toggled(ix).kind == s.kind,
        s.toggled(ix).notice == s.notice,
{
}

/// Folding all folds every container but the first, and unfolding all folds none; neither changes
/// what the body is.
pub proof fn folding_all_folds_each_container(s: BodyState, f: int)
    requires
        s.wf(),
        s.kind is Json,
        0 <= f < s.folded.len(),
    ensures
        s.refolded(s.all_folds(true)).folded[f] <==> s.kind->Json_0.rows[f].kind is Open && f > 0,
        !s.refolded(s.all_folds(false)).folded[f],
        s.refolded(s.all_folds(true)).folded.len() == s.folded.len(),
        s.refolded(s.all_folds(false)).folded.len() == s.folded.len(),
        s.refolded(s.all_folds(true)).kind == s.kind,
        s.refolded(s.all_folds(true)).notice == s.notice,
{
}

/// A row that is revealed is on screen where it is said to be, whatever was folded around it; one
/// that is not there is nowhere, and nothing changes.
pub proof fn a_revealed_row_is_where_it_is_said_to_be(
    before: BodyState,
    row_ix: usize,
    after: BodyState,
    at: Option<usize>,
)
    requires
        before.wf(),
        is_revealed(before, row_ix, after, at),
    ensures
        before.kind matches BodyKind::Json(outline) && row_ix < outline.rows.len() ==> {
            &&& at matches Some(i) && i < after.visible.len() && after.visible[i as int] == row_ix
            &&& forall|f: int|
                0 <= f < row_ix && (before.kind->Json_0.rows[f].kind matches OutlineKind::Open {
                    close,
                } && row_ix <= close) ==> !#[trigger] after.folded[f]
        },
        before.kind matches BodyKind::Text(lines) && row_ix < lines.count ==> at == Some(row_ix),
        (before.kind matches BodyKind::Json(outline) && row_ix >= outline.rows.len()) || (
        before.kind matches BodyKind::Text(lines) && row_ix >= lines.count) || before.kind is Empty
            || before.kind is Binary ==> at is None,
        at is None || before.kind is Text ==> after == before,
        after.kind == before.kind,
        after.notice == before.notice,
{
    if let BodyKind::Json(outline) = before.kind {
        if row_ix < outline.rows.len() {
            assert forall|f: int|
                0 <= f < row_ix && (before.kind->Json_0.rows[f].kind matches OutlineKind::Open {
                    close,
                } && row_ix <= close) implies !#[trigger] after.folded[f] by {
                assert(outline::encloses(before.rows(), f, row_ix as int));
            }
        }
    }
}

/// Without a content type, a body is taken for JSON exactly where an opening brace or bracket is
/// the first thing in it that is not blank.
pub proof fn an_undeclared_body_is_judged_by_its_first_byte(body: Seq<u8>)
    ensures
        is_json_like(body, None) <==> exists|i: int|
            0 <= i < body.len() && ((#[trigger] body[i]) == 0x7b || body[i] == 0x5b) && forall|k: int|
                0 <= k < i ==> (#[trigger] body[k]) == 0x20 || body[k] == 0x09 || body[k] == 0x0a
                    || body[k] == 0x0c || body[k] == 0x0d,
    decreases body.len(),
{
    if body.len() > 0 {
        let rest = body.drop_first();
        an_undeclared_body_is_judged_by_its_first_byte(rest);
        if is_blank_byte(body[0]) {
            if is_json_like(rest, None) {
                let i = choose|i: int|
                    0 <= i < rest.len() && ((#[trigger] rest[i]) == 0x7b || rest[i] == 0x5b)
                        && forall|k: int|
                        0 <= k < i ==> (#[trigger] rest[k]) == 0x20 || rest[k] == 0x09 || rest[k]
                            == 0x0a || rest[k] == 0x0c || rest[k] == 0x0d;
                assert(body[i + 1] == rest[i]);
                assert forall|k: int| 0 <= k < i + 1 implies (#[trigger] body[k]) == 0x20 || body[k]
                    == 0x09 || body[k] == 0x0a || body[k] == 0x0c || body[k] == 0x0d by {
                    if k > 0 {
                        assert(body[k] == rest[k - 1]);
                    }
                }
            }
            if exists|i: int|
                0 <= i < body.len() && ((#[trigger] body[i]) == 0x7b || body[i] == 0x5b) && forall|
                    k: int,
                |
                    0 <= k < i ==> (#[trigger] body[k]) == 0x20 || body[k] == 0x09 || body[k]
                        == 0x0a || body[k] == 0x0c || body[k] == 0x0d {
                let i = choose|i: int|
                    0 <= i < body.len() && ((#[trigger] body[i]) == 0x7b || body[i] == 0x5b)
                        && forall|k: int|
                        0 <= k < i ==> (#[trigger] body[k]) == 0x20 || body[k] == 0x09 || body[k]
                            == 0x0a || body[k] == 0x0c || body[k] == 0x0d;
                assert(i > 0);
                assert(rest[i - 1] == body[i]);
                assert forall|k: int| 0 <= k < i - 1 implies (#[trigger] rest[k]) == 0x20 || rest[k]
                    == 0x09 || rest[k] == 0x0a || rest[k] == 0x0c || rest[k] == 0x0d by {
                    assert(rest[k] == body[k + 1]);
                }
            }
        } else if exists|i: int|
            0 <= i < body.len() && ((#[trigger] body[i]) == 0x7b || body[i] == 0x5b) && forall|
                k: int,
            |
                0 <= k < i ==> (#[trigger] body[k]) == 0x20 || body[k] == 0x09 || body[k] == 0x0a
                    || body[k] == 0x0c || body[k] == 0x0d {
            let i = choose|i: int|
                0 <= i < body.len() && ((#[trigger] body[i]) == 0x7b || body[i] == 0x5b) && forall|
                    k: int,
                |
                    0 <= k < i ==> (#[trigger] body[k]) == 0x20 || body[k] == 0x09 || body[k]
                        == 0x0a || body[k] == 0x0c || body[k] == 0x0d;
            if i > 0 {
                assert(is_blank_byte(body[0]));
            }
        } else {
            assert(body[0] != 0x7b && body[0] != 0x5b);
        }
    }
}

/// A content type decides in any case of its letters: one that names JSON makes the body JSON
/// whatever it holds, one that names something else makes it none, and any other leaves it to the
/// body.
pub proof fn a_content_type_decides_before_the_body(body: Seq<u8>, kind: Seq<char>, needle: Seq<char>)
    ensures
        strings::has_substring(strings::lowered(kind), "json"@) ==> is_json_like(body, Some(kind)),
        !strings::has_substring(strings::lowered(kind), "json"@) && strings::has_substring(
            strings::lowered(kind),
            needle,
        ) && (needle == "html"@ || needle == "xml"@ || needle == "javascript"@ || needle == "css"@)
            ==> !is_json_like(body, Some(kind)),
        !strings::has_substring(strings::lowered(kind), "json"@) && strings::has_prefix(
            strings::lowered(kind),
            needle,
        ) && (needle == "image/"@ || needle == "audio/"@ || needle == "video/"@) ==> !is_json_like(
            body,
            Some(kind),
        ),
        is_json_like(body, Some(kind)) != is_json_like(body, None) ==> strings::has_substring(
            strings::lowered(kind),
            "json"@,
        ) || strings::has_substring(strings::lowered(kind), "html"@) || strings::has_substring(
            strings::lowered(kind),
            "xml"@,
        ) || strings::has_substring(strings::lowered(kind), "javascript"@)
            || strings::has_substring(strings::lowered(kind), "css"@) || strings::has_prefix(
            strings::lowered(kind),
            "image/"@,
        ) || strings::has_prefix(strings::lowered(kind), "audio/"@) || strings::has_prefix(
            strings::lowered(kind),
            "video/"@,
        ),
{
}

/// Whatever is taken for JSON is parsed, unless it is larger than is parsed unasked; asking
/// parses it too. Nothing else ever is.
pub proof fn only_size_keeps_json_from_being_parsed(body: Seq<u8>, kind: Option<Seq<char>>)
    requires
        body.len() > 0,
    ensures
        is_parsed(body, kind, true) == is_json_like(body, kind),
        is_parsed(body, kind, false) ==> is_parsed(body, kind, true),
        is_parsed(body, kind, true) && !is_parsed(body, kind, false) ==> body.len()
            > MAX_AUTO_PARSE,
        body.len() > MAX_AUTO_PARSE ==> !is_parsed(body, kind, false),
{
}

/// A page has two halves, and swapping goes from each to the other.
pub proof fn the_halves_of_a_page_swap(half: HtmlView)
    ensures
        half.spec_other() != half,
        half.spec_other().spec_other() == half,
{
}

/// What is said of a body that does not parse begins with the parser's words and ends with the
/// place: the line, then the column.
pub proof fn a_parse_failure_is_told_by_its_place(failure: ParseFailure)
    ensures
        ({
            let text = failure_text(failure);
            let line = strings::decimal(failure.line as nat);
            let column = strings::decimal(failure.column as nat);
            let n = failure.message@.len() as int;
            &&& text.take(n) == failure.message@
            &&& text.subrange(n, n + 9) == " at line "@
            &&& text.subrange(n + 9, n + 9 + line.len()) == line
            &&& text.skip(text.len() - column.len()) == column
            &&& text.len() == n + 9 + line.len() + 9 + column.len()
        }),
{
    reveal_strlit(" at line ");
    reveal_strlit(", column ");
    let text = failure_text(failure);
    let line = strings::decimal(failure.line as nat);
    let column = strings::decimal(failure.column as nat);
    let n = failure.message@.len() as int;
    assert(text.take(n) =~= failure.message@);
    assert(text.subrange(n, n + 9) =~= " at line "@);
    assert(text.subrange(n + 9, n + 9 + line.len()) =~= line);
    assert(text.skip(text.len() - column.len()) =~= column);
}

} // verus!
