//! The rows a request is edited through: pairs, parts, captures and assertions.

use crate::input::text_input;
use crate::input::text_input::{InputView, TextInput};
use crate::input::words;
use crate::request;
use crate::request::{
    Assertion, AssertionView, Capture, CaptureView, KeyValue, KeyValueView, MultipartField,
    MultipartValue, Op, PartValueView, PartView,
};
use crate::strings;
use vstd::prelude::*;
use vstd::string::*;

verus! {

/// What a key-value row holds.
pub struct RowView {
    pub enabled: bool,
    pub name: InputView,
    pub value: InputView,
}

impl RowView {
    pub open spec fn wf(self) -> bool {
        &&& self.name.wf()
        &&& self.value.wf()
    }

    /// What the row says.
    pub open spec fn pair(self) -> KeyValueView {
        KeyValueView {
            enabled: self.enabled,
            name: self.name.surface.text,
            value: self.value.surface.text,
        }
    }

    pub open spec fn flipped(self) -> RowView {
        RowView { enabled: !self.enabled, ..self }
    }

    /// Whether anything but whitespace has been typed into either cell.
    pub open spec fn is_typed(self) -> bool {
        ||| !strings::is_blank(self.name.surface.text)
        ||| !strings::is_blank(self.value.surface.text)
    }
}

/// One editable row of a table of pairs. Muting it does not disturb what was typed.
pub struct KeyValueRow {
    pub enabled: bool,
    pub name: TextInput,
    pub value: TextInput,
}

impl View for KeyValueRow {
    type V = RowView;

    open spec fn view(&self) -> RowView {
        RowView { enabled: self.enabled, name: self.name@, value: self.value@ }
    }
}

/// A row that has just been given its texts.
pub open spec fn fresh_row(pair: KeyValueView, context: Seq<char>) -> RowView {
    RowView {
        enabled: pair.enabled,
        name: text_input::fresh_input(pair.name, "name"@, context),
        value: text_input::fresh_input(pair.value, "value"@, context),
    }
}

/// What a list of rows holds.
pub open spec fn rows_of(rows: Seq<KeyValueRow>) -> Seq<RowView> {
    rows.map_values(|row: KeyValueRow| row@)
}

/// What a list of rows says.
pub open spec fn pairs_of(rows: Seq<RowView>) -> Seq<KeyValueView> {
    rows.map_values(|row: RowView| row.pair())
}

/// The rows a list of pairs is edited through.
pub open spec fn fresh_rows(pairs: Seq<KeyValueView>, context: Seq<char>) -> Seq<RowView> {
    pairs.map_values(|pair: KeyValueView| fresh_row(pair, context))
}

pub open spec fn rows_wf(rows: Seq<RowView>) -> bool {
    forall|i: int| 0 <= i < rows.len() ==> (#[trigger] rows[i]).wf()
}

/// Whether anything but whitespace has been typed into any of the rows.
pub open spec fn any_typed(rows: Seq<RowView>) -> bool {
    exists|i: int| 0 <= i < rows.len() && (#[trigger] rows[i]).is_typed()
}

impl KeyValueRow {
    pub fn new(enabled: bool, name: &str, value: &str, context: &str) -> (r: KeyValueRow)
        ensures
            r@ == fresh_row(
                KeyValueView { enabled, name: name@, value: value@ },
                context@,
            ),
            r@.wf(),
    {
        KeyValueRow {
            enabled,
            name: TextInput::new(name, "name", context),
            value: TextInput::new(value, "value", context),
        }
    }

    /// What the row says.
    pub fn pair(&self) -> (r: KeyValue)
        ensures
            r@ == self@.pair(),
    {
        KeyValue {
            enabled: self.enabled,
            name: self.name.text().to_owned(),
            value: self.value.text().to_owned(),
        }
    }
}

/// The rows a list of pairs is edited through.
pub fn build_rows(pairs: &Vec<KeyValue>, context: &str) -> (r: Vec<KeyValueRow>)
    ensures
        rows_of(r@) == fresh_rows(request::key_values(pairs@), context@),
        rows_wf(rows_of(r@)),
{
    let mut r: Vec<KeyValueRow> = Vec::new();
    let mut i: usize = 0;
    let ghost views = request::key_values(pairs@);
    while i < pairs.len()
        invariant
            i <= pairs.len(),
            r.len() == i,
            views == request::key_values(pairs@),
            forall|k: int|
                0 <= k < i ==> (#[trigger] r@[k])@ == fresh_row(views[k], context@) && r@[k]@.wf(),
        decreases pairs.len() - i,
    {
        r.push(
            KeyValueRow::new(
                pairs[i].enabled,
                pairs[i].name.as_str(),
                pairs[i].value.as_str(),
                context,
            ),
        );
        i = i + 1;
    }
    proof {
        assert(rows_of(r@) =~= fresh_rows(views, context@));
    }
    r
}

/// What a list of rows says.
pub fn read_rows(rows: &Vec<KeyValueRow>) -> (r: Vec<KeyValue>)
    ensures
        request::key_values(r@) == pairs_of(rows_of(rows@)),
{
    let mut r: Vec<KeyValue> = Vec::new();
    let mut i: usize = 0;
    while i < rows.len()
        invariant
            i <= rows.len(),
            r.len() == i,
            forall|k: int| 0 <= k < i ==> (#[trigger] r@[k])@ == rows@[k]@.pair(),
        decreases rows.len() - i,
    {
        r.push(rows[i].pair());
        i = i + 1;
    }
    proof {
        assert(request::key_values(r@) =~= pairs_of(rows_of(rows@)));
    }
    r
}

/// Whether the rows say what `base` says, without building either.
pub fn rows_match(rows: &Vec<KeyValueRow>, base: &Vec<KeyValue>) -> (r: bool)
    ensures
        r == (pairs_of(rows_of(rows@)) == request::key_values(base@)),
{
    let ghost said = pairs_of(rows_of(rows@));
    let ghost wanted = request::key_values(base@);
    if rows.len() != base.len() {
        proof {
            assert(said.len() != wanted.len());
        }
        return false;
    }
    let mut i: usize = 0;
    while i < rows.len()
        invariant
            i <= rows.len(),
            rows.len() == base.len(),
            said == pairs_of(rows_of(rows@)),
            wanted == request::key_values(base@),
            forall|k: int| 0 <= k < i ==> #[trigger] said[k] == wanted[k],
        decreases rows.len() - i,
    {
        let row = &rows[i];
        let was = &base[i];
        proof {
            assert(said[i as int] == row@.pair());
            assert(wanted[i as int] == was@);
        }
        if row.enabled != was.enabled || !strings::same(row.name.text(), was.name.as_str())
            || !strings::same(row.value.text(), was.value.as_str()) {
            return false;
        }
        i = i + 1;
    }
    proof {
        assert(said =~= wanted);
    }
    true
}

/// Whether anything but whitespace has been typed into any of the rows.
pub fn has_typed(rows: &Vec<KeyValueRow>) -> (r: bool)
    ensures
        r == any_typed(rows_of(rows@)),
{
    let ghost views = rows_of(rows@);
    let mut i: usize = 0;
    while i < rows.len()
        invariant
            i <= rows.len(),
            views == rows_of(rows@),
            forall|k: int| 0 <= k < i ==> !(#[trigger] views[k]).is_typed(),
        decreases rows.len() - i,
    {
        proof {
            assert(views[i as int] == rows@[i as int]@);
        }
        if !strings::blank(rows[i].name.text()) || !strings::blank(rows[i].value.text()) {
            return true;
        }
        i = i + 1;
    }
    false
}

/// Whether anything but whitespace has been typed into any of the parts.
pub open spec fn any_part_typed(rows: Seq<PartRowView>) -> bool {
    exists|i: int| 0 <= i < rows.len() && (#[trigger] rows[i]).row.is_typed()
}

/// Whether anything but whitespace has been typed into any of the parts.
pub fn has_typed_part(rows: &Vec<MultipartRow>) -> (r: bool)
    ensures
        r == any_part_typed(part_rows_of(rows@)),
{
    let ghost views = part_rows_of(rows@);
    let mut i: usize = 0;
    while i < rows.len()
        invariant
            i <= rows.len(),
            views == part_rows_of(rows@),
            forall|k: int| 0 <= k < i ==> !(#[trigger] views[k]).row.is_typed(),
        decreases rows.len() - i,
    {
        proof {
            assert(views[i as int] == rows@[i as int]@);
        }
        if !strings::blank(rows[i].row.name.text()) || !strings::blank(rows[i].row.value.text()) {
            return true;
        }
        i = i + 1;
    }
    false
}

/// Flip a row between sent and muted. Says whether there is such a row.
pub fn flip_enabled(rows: &mut Vec<KeyValueRow>, ix: usize) -> (r: bool)
    ensures
        r == (ix < old(rows).len()),
        !r ==> final(rows)@ == old(rows)@,
        r ==> rows_of(final(rows)@) == rows_of(old(rows)@).update(
            ix as int,
            rows_of(old(rows)@)[ix as int].flipped(),
        ),
{
    if ix >= rows.len() {
        return false;
    }
    let ghost before = rows@;
    rows[ix].enabled = !rows[ix].enabled;
    proof {
        assert(rows_of(rows@) =~= rows_of(before).update(
            ix as int,
            rows_of(before)[ix as int].flipped(),
        ));
    }
    true
}

/// What a row of a multipart body holds.
pub struct PartRowView {
    pub row: RowView,
    pub is_file: bool,
}

impl PartRowView {
    /// What the part sends: its value is read as a path where it is a file.
    pub open spec fn part(self) -> PartView {
        PartView {
            enabled: self.row.enabled,
            name: self.row.name.surface.text,
            value: if self.is_file {
                PartValueView::File(self.row.value.surface.text)
            } else {
                PartValueView::Text(self.row.value.surface.text)
            },
        }
    }
}

/// One part of a multipart body: a row, and whether its value is the path of a file.
pub struct MultipartRow {
    pub row: KeyValueRow,
    pub is_file: bool,
}

impl View for MultipartRow {
    type V = PartRowView;

    open spec fn view(&self) -> PartRowView {
        PartRowView { row: self.row@, is_file: self.is_file }
    }
}

/// A part row that has just been given its texts.
pub open spec fn fresh_part(part: PartView) -> PartRowView {
    PartRowView {
        row: fresh_row(
            KeyValueView {
                enabled: part.enabled,
                name: part.name,
                value: match part.value {
                    PartValueView::Text(text) => text,
                    PartValueView::File(path) => path,
                },
            },
            "PartCell"@,
        ),
        is_file: part.value is File,
    }
}

/// What a list of part rows holds.
pub open spec fn part_rows_of(rows: Seq<MultipartRow>) -> Seq<PartRowView> {
    rows.map_values(|row: MultipartRow| row@)
}

/// What a list of part rows sends.
pub open spec fn sent_parts(rows: Seq<PartRowView>) -> Seq<PartView> {
    rows.map_values(|row: PartRowView| row.part())
}

/// The rows a list of parts is edited through.
pub open spec fn fresh_parts(parts: Seq<PartView>) -> Seq<PartRowView> {
    parts.map_values(|part: PartView| fresh_part(part))
}

pub open spec fn part_rows_wf(rows: Seq<PartRowView>) -> bool {
    forall|i: int| 0 <= i < rows.len() ==> (#[trigger] rows[i]).row.wf()
}

/// The rows a list of parts is edited through.
pub fn build_parts(parts: &Vec<MultipartField>) -> (r: Vec<MultipartRow>)
    ensures
        part_rows_of(r@) == fresh_parts(request::parts_of(parts@)),
        part_rows_wf(part_rows_of(r@)),
{
    let mut r: Vec<MultipartRow> = Vec::new();
    let mut i: usize = 0;
    let ghost views = request::parts_of(parts@);
    while i < parts.len()
        invariant
            i <= parts.len(),
            r.len() == i,
            views == request::parts_of(parts@),
            forall|k: int|
                0 <= k < i ==> (#[trigger] r@[k])@ == fresh_part(views[k]) && r@[k]@.row.wf(),
        decreases parts.len() - i,
    {
        let field = &parts[i];
        let (text, is_file) = match &field.value {
            MultipartValue::Text(text) => (text.as_str(), false),
            MultipartValue::File(path) => (path.as_str(), true),
        };
        r.push(
            MultipartRow {
                row: KeyValueRow::new(field.enabled, field.name.as_str(), text, "PartCell"),
                is_file,
            },
        );
        i = i + 1;
    }
    proof {
        assert(part_rows_of(r@) =~= fresh_parts(views));
    }
    r
}

/// What a list of part rows sends.
pub fn read_parts(rows: &Vec<MultipartRow>) -> (r: Vec<MultipartField>)
    ensures
        request::parts_of(r@) == sent_parts(part_rows_of(rows@)),
{
    let mut r: Vec<MultipartField> = Vec::new();
    let mut i: usize = 0;
    while i < rows.len()
        invariant
            i <= rows.len(),
            r.len() == i,
            forall|k: int| 0 <= k < i ==> (#[trigger] r@[k])@ == rows@[k]@.part(),
        decreases rows.len() - i,
    {
        let part = &rows[i];
        let text = part.row.value.text().to_owned();
        r.push(
            MultipartField {
                enabled: part.row.enabled,
                name: part.row.name.text().to_owned(),
                value: if part.is_file {
                    MultipartValue::File(text)
                } else {
                    MultipartValue::Text(text)
                },
            },
        );
        i = i + 1;
    }
    proof {
        assert(request::parts_of(r@) =~= sent_parts(part_rows_of(rows@)));
    }
    r
}

/// Whether the part rows send what `base` sends, without building either.
pub fn parts_match(rows: &Vec<MultipartRow>, base: &Vec<MultipartField>) -> (r: bool)
    ensures
        r == (sent_parts(part_rows_of(rows@)) == request::parts_of(base@)),
{
    let ghost said = sent_parts(part_rows_of(rows@));
    let ghost wanted = request::parts_of(base@);
    if rows.len() != base.len() {
        proof {
            assert(said.len() != wanted.len());
        }
        return false;
    }
    let mut i: usize = 0;
    while i < rows.len()
        invariant
            i <= rows.len(),
            rows.len() == base.len(),
            said == sent_parts(part_rows_of(rows@)),
            wanted == request::parts_of(base@),
            forall|k: int| 0 <= k < i ==> #[trigger] said[k] == wanted[k],
        decreases rows.len() - i,
    {
        let row = &rows[i];
        let part = &base[i];
        proof {
            assert(said[i as int] == row@.part());
            assert(wanted[i as int] == part@);
        }
        let text = row.row.value.text();
        let same_value = match (&part.value, row.is_file) {
            (MultipartValue::File(path), true) => strings::same(path.as_str(), text),
            (MultipartValue::Text(was), false) => strings::same(was.as_str(), text),
            _ => false,
        };
        if row.row.enabled != part.enabled || !strings::same(
            row.row.name.text(),
            part.name.as_str(),
        ) || !same_value {
            return false;
        }
        i = i + 1;
    }
    proof {
        assert(said =~= wanted);
    }
    true
}

/// What a capture row holds.
pub struct CaptureRowView {
    pub enabled: bool,
    pub path: InputView,
    pub name: InputView,
    pub secret: bool,
}

impl CaptureRowView {
    /// The rule the row states.
    pub open spec fn rule(self) -> CaptureView {
        CaptureView {
            enabled: self.enabled,
            path: self.path.surface.text,
            name: self.name.surface.text,
            secret: self.secret,
        }
    }
}

/// One editable capture rule.
pub struct CaptureRow {
    pub enabled: bool,
    pub path: TextInput,
    pub name: TextInput,
    pub secret: bool,
}

impl View for CaptureRow {
    type V = CaptureRowView;

    open spec fn view(&self) -> CaptureRowView {
        CaptureRowView {
            enabled: self.enabled,
            path: self.path@,
            name: self.name@,
            secret: self.secret,
        }
    }
}

/// A capture row that has just been given its texts.
pub open spec fn fresh_capture(capture: CaptureView) -> CaptureRowView {
    CaptureRowView {
        enabled: capture.enabled,
        path: text_input::fresh_input(capture.path, "$.access_token"@, "CaptureCell"@),
        name: text_input::fresh_input(capture.name, "token"@, "CaptureCell"@),
        secret: capture.secret,
    }
}

/// What a list of capture rows holds.
pub open spec fn capture_rows_of(rows: Seq<CaptureRow>) -> Seq<CaptureRowView> {
    rows.map_values(|row: CaptureRow| row@)
}

/// The rules a list of capture rows states.
pub open spec fn rules_of(rows: Seq<CaptureRowView>) -> Seq<CaptureView> {
    rows.map_values(|row: CaptureRowView| row.rule())
}

/// The rows a list of captures is edited through.
pub open spec fn fresh_captures(captures: Seq<CaptureView>) -> Seq<CaptureRowView> {
    captures.map_values(|capture: CaptureView| fresh_capture(capture))
}

pub open spec fn capture_rows_wf(rows: Seq<CaptureRowView>) -> bool {
    forall|i: int|
        0 <= i < rows.len() ==> (#[trigger] rows[i]).path.wf() && rows[i].name.wf()
}

impl CaptureRow {
    pub fn new(capture: &Capture) -> (r: CaptureRow)
        ensures
            r@ == fresh_capture(capture@),
            r@.path.wf(),
            r@.name.wf(),
    {
        CaptureRow {
            enabled: capture.enabled,
            path: TextInput::new(capture.path.as_str(), "$.access_token", "CaptureCell"),
            name: TextInput::new(capture.name.as_str(), "token", "CaptureCell"),
            secret: capture.secret,
        }
    }

    /// The rule the row states.
    pub fn rule(&self) -> (r: Capture)
        ensures
            r@ == self@.rule(),
    {
        Capture {
            enabled: self.enabled,
            path: self.path.text().to_owned(),
            name: self.name.text().to_owned(),
            secret: self.secret,
        }
    }
}

/// The rows a list of captures is edited through.
pub fn build_captures(captures: &Vec<Capture>) -> (r: Vec<CaptureRow>)
    ensures
        capture_rows_of(r@) == fresh_captures(request::captures_of(captures@)),
        capture_rows_wf(capture_rows_of(r@)),
{
    let mut r: Vec<CaptureRow> = Vec::new();
    let mut i: usize = 0;
    let ghost views = request::captures_of(captures@);
    while i < captures.len()
        invariant
            i <= captures.len(),
            r.len() == i,
            views == request::captures_of(captures@),
            forall|k: int|
                0 <= k < i ==> (#[trigger] r@[k])@ == fresh_capture(views[k]) && r@[k]@.path.wf()
                    && r@[k]@.name.wf(),
        decreases captures.len() - i,
    {
        r.push(CaptureRow::new(&captures[i]));
        i = i + 1;
    }
    proof {
        assert(capture_rows_of(r@) =~= fresh_captures(views));
    }
    r
}

/// The rules a list of capture rows states.
pub fn read_captures(rows: &Vec<CaptureRow>) -> (r: Vec<Capture>)
    ensures
        request::captures_of(r@) == rules_of(capture_rows_of(rows@)),
{
    let mut r: Vec<Capture> = Vec::new();
    let mut i: usize = 0;
    while i < rows.len()
        invariant
            i <= rows.len(),
            r.len() == i,
            forall|k: int| 0 <= k < i ==> (#[trigger] r@[k])@ == rows@[k]@.rule(),
        decreases rows.len() - i,
    {
        r.push(rows[i].rule());
        i = i + 1;
    }
    proof {
        assert(request::captures_of(r@) =~= rules_of(capture_rows_of(rows@)));
    }
    r
}

/// Whether the rows state the rules of `base`, without building either.
pub fn captures_match(rows: &Vec<CaptureRow>, base: &Vec<Capture>) -> (r: bool)
    ensures
        r == (rules_of(capture_rows_of(rows@)) == request::captures_of(base@)),
{
    let ghost said = rules_of(capture_rows_of(rows@));
    let ghost wanted = request::captures_of(base@);
    if rows.len() != base.len() {
        proof {
            assert(said.len() != wanted.len());
        }
        return false;
    }
    let mut i: usize = 0;
    while i < rows.len()
        invariant
            i <= rows.len(),
            rows.len() == base.len(),
            said == rules_of(capture_rows_of(rows@)),
            wanted == request::captures_of(base@),
            forall|k: int| 0 <= k < i ==> #[trigger] said[k] == wanted[k],
        decreases rows.len() - i,
    {
        let row = &rows[i];
        let was = &base[i];
        proof {
            assert(said[i as int] == row@.rule());
            assert(wanted[i as int] == was@);
        }
        if row.enabled != was.enabled || row.secret != was.secret || !strings::same(
            row.path.text(),
            was.path.as_str(),
        ) || !strings::same(row.name.text(), was.name.as_str()) {
            return false;
        }
        i = i + 1;
    }
    proof {
        assert(said =~= wanted);
    }
    true
}

/// What an assertion row holds.
pub struct AssertionRowView {
    pub enabled: bool,
    pub path: InputView,
    pub op: Op,
    pub value: InputView,
}

impl AssertionRowView {
    /// The check the row states.
    pub open spec fn check(self) -> AssertionView {
        AssertionView {
            enabled: self.enabled,
            path: self.path.surface.text,
            op: self.op,
            value: self.value.surface.text,
        }
    }
}

/// One editable assertion.
pub struct AssertionRow {
    pub enabled: bool,
    pub path: TextInput,
    pub op: Op,
    pub value: TextInput,
}

impl View for AssertionRow {
    type V = AssertionRowView;

    open spec fn view(&self) -> AssertionRowView {
        AssertionRowView {
            enabled: self.enabled,
            path: self.path@,
            op: self.op,
            value: self.value@,
        }
    }
}

/// An assertion row that has just been given its texts.
pub open spec fn fresh_assertion(assertion: AssertionView) -> AssertionRowView {
    AssertionRowView {
        enabled: assertion.enabled,
        path: text_input::fresh_input(assertion.path, "$.status"@, "AssertCell"@),
        op: assertion.op,
        value: text_input::fresh_input(assertion.value, "ok"@, "AssertCell"@),
    }
}

/// What a list of assertion rows holds.
pub open spec fn assertion_rows_of(rows: Seq<AssertionRow>) -> Seq<AssertionRowView> {
    rows.map_values(|row: AssertionRow| row@)
}

/// The checks a list of assertion rows states.
pub open spec fn checks_of(rows: Seq<AssertionRowView>) -> Seq<AssertionView> {
    rows.map_values(|row: AssertionRowView| row.check())
}

/// The rows a list of assertions is edited through.
pub open spec fn fresh_assertions(assertions: Seq<AssertionView>) -> Seq<AssertionRowView> {
    assertions.map_values(|assertion: AssertionView| fresh_assertion(assertion))
}

pub open spec fn assertion_rows_wf(rows: Seq<AssertionRowView>) -> bool {
    forall|i: int|
        0 <= i < rows.len() ==> (#[trigger] rows[i]).path.wf() && rows[i].value.wf()
}

impl AssertionRow {
    pub fn new(assertion: &Assertion) -> (r: AssertionRow)
        ensures
            r@ == fresh_assertion(assertion@),
            r@.path.wf(),
            r@.value.wf(),
    {
        AssertionRow {
            enabled: assertion.enabled,
            path: TextInput::new(assertion.path.as_str(), "$.status", "AssertCell"),
            op: assertion.op,
            value: TextInput::new(assertion.value.as_str(), "ok", "AssertCell"),
        }
    }

    /// The check the row states.
    pub fn check(&self) -> (r: Assertion)
        ensures
            r@ == self@.check(),
    {
        Assertion {
            enabled: self.enabled,
            path: self.path.text().to_owned(),
            op: self.op,
            value: self.value.text().to_owned(),
        }
    }
}

/// The rows a list of assertions is edited through.
pub fn build_assertions(assertions: &Vec<Assertion>) -> (r: Vec<AssertionRow>)
    ensures
        assertion_rows_of(r@) == fresh_assertions(request::assertions_of(assertions@)),
        assertion_rows_wf(assertion_rows_of(r@)),
{
    let mut r: Vec<AssertionRow> = Vec::new();
    let mut i: usize = 0;
    let ghost views = request::assertions_of(assertions@);
    while i < assertions.len()
        invariant
            i <= assertions.len(),
            r.len() == i,
            views == request::assertions_of(assertions@),
            forall|k: int|
                0 <= k < i ==> (#[trigger] r@[k])@ == fresh_assertion(views[k]) && r@[k]@.path.wf()
                    && r@[k]@.value.wf(),
        decreases assertions.len() - i,
    {
        r.push(AssertionRow::new(&assertions[i]));
        i = i + 1;
    }
    proof {
        assert(assertion_rows_of(r@) =~= fresh_assertions(views));
    }
    r
}

/// The checks a list of assertion rows states.
pub fn read_assertions(rows: &Vec<AssertionRow>) -> (r: Vec<Assertion>)
    ensures
        request::assertions_of(r@) == checks_of(assertion_rows_of(rows@)),
{
    let mut r: Vec<Assertion> = Vec::new();
    let mut i: usize = 0;
    while i < rows.len()
        invariant
            i <= rows.len(),
            r.len() == i,
            forall|k: int| 0 <= k < i ==> (#[trigger] r@[k])@ == rows@[k]@.check(),
        decreases rows.len() - i,
    {
        r.push(rows[i].check());
        i = i + 1;
    }
    proof {
        assert(request::assertions_of(r@) =~= checks_of(assertion_rows_of(rows@)));
    }
    r
}

/// Whether the rows state the checks of `base`, without building either.
pub fn assertions_match(rows: &Vec<AssertionRow>, base: &Vec<Assertion>) -> (r: bool)
    ensures
        r == (checks_of(assertion_rows_of(rows@)) == request::assertions_of(base@)),
{
    let ghost said = checks_of(assertion_rows_of(rows@));
    let ghost wanted = request::assertions_of(base@);
    if rows.len() != base.len() {
        proof {
            assert(said.len() != wanted.len());
        }
        return false;
    }
    let mut i: usize = 0;
    while i < rows.len()
        invariant
            i <= rows.len(),
            rows.len() == base.len(),
            said == checks_of(assertion_rows_of(rows@)),
            wanted == request::assertions_of(base@),
            forall|k: int| 0 <= k < i ==> #[trigger] said[k] == wanted[k],
        decreases rows.len() - i,
    {
        let row = &rows[i];
        let was = &base[i];
        proof {
            assert(said[i as int] == row@.check());
            assert(wanted[i as int] == was@);
        }
        if row.enabled != was.enabled || row.op != was.op || !strings::same(
            row.path.text(),
            was.path.as_str(),
        ) || !strings::same(row.value.text(), was.value.as_str()) {
            return false;
        }
        i = i + 1;
    }
    proof {
        assert(said =~= wanted);
    }
    true
}

/// A row that was made for something says it, whatever is edited: each row made from a list says
/// what the list says at its place, and there are as many.
pub proof fn what_a_row_is_made_for_it_says(
    pairs: Seq<KeyValueView>,
    parts: Seq<PartView>,
    captures: Seq<CaptureView>,
    assertions: Seq<AssertionView>,
    context: Seq<char>,
)
    requires
        forall|i: int|
            0 <= i < pairs.len() ==> text_input::is_single_line((#[trigger] pairs[i]).name)
                && text_input::is_single_line(pairs[i].value),
        forall|i: int|
            0 <= i < parts.len() ==> text_input::is_single_line((#[trigger] parts[i]).name)
                && text_input::is_single_line(
                match parts[i].value {
                    PartValueView::Text(text) => text,
                    PartValueView::File(path) => path,
                },
            ),
        forall|i: int|
            0 <= i < captures.len() ==> text_input::is_single_line((#[trigger] captures[i]).name)
                && text_input::is_single_line(captures[i].path),
        forall|i: int|
            0 <= i < assertions.len() ==> text_input::is_single_line(
                (#[trigger] assertions[i]).value,
            ) && text_input::is_single_line(assertions[i].path),
    ensures
        pairs_of(fresh_rows(pairs, context)) == pairs,
        sent_parts(fresh_parts(parts)) == parts,
        rules_of(fresh_captures(captures)) == captures,
        checks_of(fresh_assertions(assertions)) == assertions,
{
    assert forall|i: int| 0 <= i < pairs.len() implies pairs_of(fresh_rows(pairs, context))[i]
        == #[trigger] pairs[i] by {
        text_input::lemma_single_line_stays(pairs[i].name);
        text_input::lemma_single_line_stays(pairs[i].value);
    }
    assert(pairs_of(fresh_rows(pairs, context)) =~= pairs);
    assert forall|i: int| 0 <= i < parts.len() implies sent_parts(fresh_parts(parts))[i]
        == #[trigger] parts[i] by {
        text_input::lemma_single_line_stays(parts[i].name);
        text_input::lemma_single_line_stays(
            match parts[i].value {
                PartValueView::Text(text) => text,
                PartValueView::File(path) => path,
            },
        );
    }
    assert(sent_parts(fresh_parts(parts)) =~= parts);
    assert forall|i: int| 0 <= i < captures.len() implies rules_of(fresh_captures(captures))[i]
        == #[trigger] captures[i] by {
        text_input::lemma_single_line_stays(captures[i].name);
        text_input::lemma_single_line_stays(captures[i].path);
    }
    assert(rules_of(fresh_captures(captures)) =~= captures);
    assert forall|i: int| 0 <= i < assertions.len() implies checks_of(
        fresh_assertions(assertions),
    )[i] == #[trigger] assertions[i] by {
        text_input::lemma_single_line_stays(assertions[i].value);
        text_input::lemma_single_line_stays(assertions[i].path);
    }
    assert(checks_of(fresh_assertions(assertions)) =~= assertions);
}

/// A row says what its boxes hold and whether it is on; a part is a file where it is marked as
/// one.
pub proof fn a_row_says_what_its_boxes_hold(
    row: RowView,
    part: PartRowView,
    capture: CaptureRowView,
    assertion: AssertionRowView,
)
    ensures
        row.pair().enabled == row.enabled,
        row.pair().name == row.name.surface.text,
        row.pair().value == row.value.surface.text,
        part.part().enabled == part.row.enabled,
        part.part().name == part.row.name.surface.text,
        part.is_file ==> part.part().value == PartValueView::File(part.row.value.surface.text),
        !part.is_file ==> part.part().value == PartValueView::Text(part.row.value.surface.text),
        capture.rule().enabled == capture.enabled,
        capture.rule().path == capture.path.surface.text,
        capture.rule().name == capture.name.surface.text,
        capture.rule().secret == capture.secret,
        assertion.check().enabled == assertion.enabled,
        assertion.check().path == assertion.path.surface.text,
        assertion.check().op == assertion.op,
        assertion.check().value == assertion.value.surface.text,
        row.flipped().pair().enabled != row.enabled,
        row.flipped().flipped() == row,
{
}

/// Something is typed into a table where some box of it holds a character that is no whitespace.
pub proof fn a_table_is_typed_into_where_a_box_is(rows: Seq<RowView>, i: int, k: int)
    requires
        0 <= i < rows.len(),
    ensures
        0 <= k < rows[i].name.surface.text.len() && !words::is_whitespace_char(
            rows[i].name.surface.text[k],
        ) ==> any_typed(rows),
        0 <= k < rows[i].value.surface.text.len() && !words::is_whitespace_char(
            rows[i].value.surface.text[k],
        ) ==> any_typed(rows),
        !any_typed(rows) && 0 <= k < rows[i].name.surface.text.len() ==> words::is_whitespace_char(
            rows[i].name.surface.text[k],
        ),
{
    strings::a_blank_text_is_all_whitespace(rows[i].name.surface.text);
    strings::a_blank_text_is_all_whitespace(rows[i].value.surface.text);
    assert(rows[i].is_typed() ==> any_typed(rows));
}

} // verus!
