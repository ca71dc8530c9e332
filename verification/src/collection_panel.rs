//! The collection panel: the tree of saved requests as a list of rows.

use crate::paths;
use crate::request::{Method, MethodView};
use crate::strings;
use crate::text;
use vstd::prelude::*;
use vstd::string::*;

verus! {

/// How many characters of a verb fit its column.
pub const VERB_CHARS: usize = 5;

/// What a row of the tree is.
pub enum NodeKind {
    Directory,
    Request { method: Method },
}

/// A row of the tree.
pub struct Node {
    pub name: String,
    pub path: String,
    /// How many directories it lies in.
    pub depth: u16,
    pub kind: NodeKind,
}

/// `str::to_uppercase` of a text, by the Unicode tables.
pub uninterp spec fn unicode_uppercase(text: Seq<char>) -> Seq<char>;

/// `str::to_uppercase`: the text with its small letters made capitals, as Unicode has it. Nothing
/// more is claimed of what comes back.
#[verifier::external_body]
fn to_uppercase(text: &str) -> (r: String)
    ensures
        r@ == unicode_uppercase(text@),
{
    text.to_uppercase()
}

/// As much of a verb as its column holds.
pub open spec fn head_of(verb: Seq<char>) -> Seq<char> {
    if verb.len() <= VERB_CHARS {
        verb
    } else {
        verb.take(VERB_CHARS as int)
    }
}

/// As much of a verb as its column holds.
pub fn verb_head(verb: &str) -> (r: String)
    ensures
        r@ == head_of(verb@),
{
    let chars: Vec<char> = text::chars_of(verb);
    if chars.len() <= VERB_CHARS {
        verb.to_owned()
    } else {
        strings::collect(&chars, 0, VERB_CHARS)
    }
}

/// What stands in a request's verb column. A verb of no characters is marked, not left blank.
pub open spec fn label_of(method: MethodView) -> Seq<char> {
    match method {
        MethodView::Get => "GET"@,
        MethodView::Post => "POST"@,
        MethodView::Put => "PUT"@,
        MethodView::Patch => "PATCH"@,
        MethodView::Delete => "DEL"@,
        MethodView::Head => "HEAD"@,
        MethodView::Options => "OPT"@,
        MethodView::Other(verb) => if verb.len() == 0 {
            "?"@
        } else {
            unicode_uppercase(head_of(verb))
        },
    }
}

/// What stands in a request's verb column.
pub fn method_label(method: &Method) -> (r: String)
    ensures
        r@ == label_of(method@),
{
    match method {
        Method::Get => "GET".to_owned(),
        Method::Post => "POST".to_owned(),
        Method::Put => "PUT".to_owned(),
        Method::Patch => "PATCH".to_owned(),
        Method::Delete => "DEL".to_owned(),
        Method::Head => "HEAD".to_owned(),
        Method::Options => "OPT".to_owned(),
        Method::Other(verb) => {
            let head = verb_head(verb.as_str());
            if text::chars_of(verb.as_str()).len() == 0 {
                "?".to_owned()
            } else {
                to_uppercase(head.as_str())
            }
        },
    }
}

/// The verbs that have a name of their own are told apart by their labels, and each label fits
/// the column.
pub proof fn known_verbs_are_told_apart(a: MethodView, b: MethodView)
    requires
        !(a is Other),
        !(b is Other),
    ensures
        label_of(a) == label_of(b) ==> a == b,
        0 < label_of(a).len() <= VERB_CHARS,
{
    reveal_strlit("GET");
    reveal_strlit("POST");
    reveal_strlit("PUT");
    reveal_strlit("PATCH");
    reveal_strlit("DEL");
    reveal_strlit("HEAD");
    reveal_strlit("OPT");
    assert("GET"@[0] == 'G');
    assert("POST"@[1] == 'O');
    assert("PUT"@[1] == 'U');
    assert("PUT"@[0] == 'P');
    assert("PATCH"@[1] == 'A');
    assert("DEL"@[0] == 'D');
    assert("HEAD"@[0] == 'H');
    assert("OPT"@[0] == 'O');
}

/// What a row of the list draws.
#[derive(Clone, Copy, Debug, PartialEq, Eq, Structural)]
pub enum ListRow {
    /// The box in which something new is being named.
    Draft,
    /// A row of the tree, by its place there.
    Node(usize),
    /// Nothing: the tree no longer has the row.
    Blank,
}

/// How many rows the list has. A draft is a row of its own.
pub open spec fn row_count(visible: Seq<usize>, draft: Option<usize>) -> int {
    visible.len() + (if draft is Some {
        1int
    } else {
        0
    })
}

/// Which entry of `visible` row `at` draws, where it is not the draft: rows past the draft have
/// moved down by one.
pub open spec fn shifted(draft: Option<usize>, at: int) -> int {
    match draft {
        Some(place) if at > place => at - 1,
        _ => at,
    }
}

/// What row `at` of the list draws. `visible` gives the places in the tree of the rows that no
/// collapsed directory hides, and `nodes` how many rows the tree has.
pub open spec fn row_of(visible: Seq<usize>, nodes: int, draft: Option<usize>, at: int) -> ListRow {
    if draft is Some && draft->0 == at {
        ListRow::Draft
    } else if 0 <= shifted(draft, at) < visible.len() && visible[shifted(draft, at)] < nodes {
        ListRow::Node(visible[shifted(draft, at)])
    } else {
        ListRow::Blank
    }
}

/// How many rows the list has.
pub fn list_count(visible: &Vec<usize>, draft: Option<usize>) -> (r: usize)
    requires
        visible.len() < usize::MAX,
    ensures
        r == row_count(visible@, draft),
{
    if draft.is_some() {
        visible.len() + 1
    } else {
        visible.len()
    }
}

/// What row `at` of the list draws.
pub fn list_row(visible: &Vec<usize>, nodes: usize, draft: Option<usize>, at: usize) -> (r: ListRow)
    ensures
        r == row_of(visible@, nodes as int, draft, at as int),
{
    let entry: usize = match draft {
        Some(place) => {
            if at == place {
                return ListRow::Draft;
            }
            if at > place {
                at - 1
            } else {
                at
            }
        },
        None => at,
    };
    if entry < visible.len() && visible[entry] < nodes {
        ListRow::Node(visible[entry])
    } else {
        ListRow::Blank
    }
}

/// A draft takes one row and hides none: every row that was there is there, in the same order,
/// and the draft stands where it was put.
pub proof fn a_draft_hides_no_row(visible: Seq<usize>, nodes: int, draft: usize)
    requires
        draft <= visible.len(),
    ensures
        row_of(visible, nodes, Some(draft), draft as int) == ListRow::Draft,
        row_count(visible, Some(draft)) == row_count(visible, None) + 1,
        forall|i: int|
            0 <= i < draft ==> #[trigger] row_of(visible, nodes, Some(draft), i) == row_of(
                visible,
                nodes,
                None,
                i,
            ),
        forall|i: int|
            draft < i < row_count(visible, Some(draft)) ==> #[trigger] row_of(
                visible,
                nodes,
                Some(draft),
                i,
            ) == row_of(visible, nodes, None, i - 1),
{
}

/// Whether a directory at `path` is collapsed.
pub open spec fn is_collapsed(collapsed: Seq<String>, path: Seq<char>) -> bool {
    exists|i: int| 0 <= i < collapsed.len() && paths::same(#[trigger] collapsed[i]@, path)
}

/// Whether a row is drawn open: a directory that is not collapsed.
pub fn is_expanded(node: &Node, collapsed: &Vec<String>) -> (r: bool)
    ensures
        r == (node.kind is Directory && !is_collapsed(collapsed@, node.path@)),
{
    if !matches!(node.kind, NodeKind::Directory) {
        return false;
    }
    let mut i: usize = 0;
    while i < collapsed.len()
        invariant
            i <= collapsed.len(),
            node.kind is Directory,
            forall|j: int| 0 <= j < i ==> !paths::same(#[trigger] collapsed[j]@, node.path@),
        decreases collapsed.len() - i,
    {
        if paths::same_path(collapsed[i].as_str(), node.path.as_str()) {
            return false;
        }
        i = i + 1;
    }
    true
}

/// Whether a name is longer than what is drawn of it, and so is shown whole on hover.
pub fn overflows(name: &str, budget: usize) -> (r: bool)
    ensures
        r == (name@.len() > budget),
{
    text::chars_of(name).len() > budget
}

/// What the panel's header says.
pub fn title(collection: Option<String>) -> (r: String)
    ensures
        r@ == (match collection {
            Some(name) => name@,
            None => "No collection"@,
        }),
{
    match collection {
        Some(name) => name,
        None => "No collection".to_owned(),
    }
}

/// What is said in place of an empty tree: it is being read, or holds nothing, or holds only what
/// is no request.
pub open spec fn notice_text(scanned: bool, skipped: nat) -> Seq<char> {
    if !scanned {
        "Reading the collection…"@
    } else if skipped == 0 {
        "Nothing saved yet. Ctrl+S writes the request you're editing into the collection."@
    } else if skipped == 1 {
        "No requests here — 1 other file was skipped."@
    } else {
        "No requests here — "@ + strings::decimal(skipped) + " other files were skipped."@
    }
}

/// What is said in place of an empty tree, and nothing where it is not empty: a row being named
/// counts.
pub fn empty_notice(nodes: usize, drafting: bool, scanned: bool, skipped: usize) -> (r: Option<
    String,
>)
    ensures
        strings::opt_text(r) == (if nodes > 0 || drafting {
            None
        } else {
            Some(notice_text(scanned, skipped as nat))
        }),
{
    if nodes > 0 || drafting {
        return None;
    }
    if !scanned {
        return Some("Reading the collection…".to_owned());
    }
    if skipped == 0 {
        return Some(
            "Nothing saved yet. Ctrl+S writes the request you're editing into the collection.".to_owned(),
        );
    }
    if skipped == 1 {
        return Some("No requests here — 1 other file was skipped.".to_owned());
    }
    let mut said = "No requests here — ".to_owned();
    said.append(strings::decimal_string(skipped as u64).as_str());
    said.append(" other files were skipped.");
    Some(said)
}

/// A verb of its own label is labelled by how it begins, and any other by as much of it as fits.
pub proof fn a_verb_is_labelled_by_how_it_begins(verb: Seq<char>)
    ensures
        label_of(MethodView::Get) == "GET"@,
        label_of(MethodView::Post) == "POST"@,
        label_of(MethodView::Put) == "PUT"@,
        label_of(MethodView::Patch) == "PATCH"@,
        label_of(MethodView::Head) == "HEAD"@,
        strings::has_prefix("DELETE"@, label_of(MethodView::Delete)),
        strings::has_prefix("OPTIONS"@, label_of(MethodView::Options)),
        head_of(verb).len() <= VERB_CHARS,
        strings::has_prefix(verb, head_of(verb)),
        verb.len() <= VERB_CHARS ==> head_of(verb) == verb,
        verb.len() > VERB_CHARS ==> head_of(verb).len() == VERB_CHARS,
        verb.len() > 0 ==> label_of(MethodView::Other(verb)) == unicode_uppercase(head_of(verb)),
        label_of(MethodView::Other(Seq::empty())).len() > 0,
{
    reveal_strlit("DEL");
    reveal_strlit("DELETE");
    reveal_strlit("OPT");
    reveal_strlit("OPTIONS");
    reveal_strlit("?");
    assert("DELETE"@.subrange(0, 3) =~= "DEL"@);
    assert("OPTIONS"@.subrange(0, 3) =~= "OPT"@);
    assert(verb.subrange(0, head_of(verb).len() as int) =~= head_of(verb));
}

/// Without a draft, the list draws the rows that no collapsed directory hides, one by one; a row
/// that the tree no longer has is blank.
pub proof fn the_list_draws_the_rows_that_show(visible: Seq<usize>, nodes: int, at: int)
    ensures
        row_count(visible, None) == visible.len(),
        0 <= at < visible.len() && visible[at] < nodes ==> row_of(visible, nodes, None, at)
            == ListRow::Node(visible[at]),
        0 <= at < visible.len() && visible[at] >= nodes ==> row_of(visible, nodes, None, at)
            == ListRow::Blank,
        at >= visible.len() ==> row_of(visible, nodes, None, at) == ListRow::Blank,
{
}

/// A directory is collapsed where it is among those that were, however its path is spelled there.
pub proof fn a_directory_is_collapsed_however_it_is_spelled(
    collapsed: Seq<String>,
    i: int,
    path: Seq<char>,
)
    ensures
        0 <= i < collapsed.len() && paths::same(collapsed[i]@, path) ==> is_collapsed(
            collapsed,
            path,
        ),
        collapsed.len() == 0 ==> !is_collapsed(collapsed, path),
        0 <= i < collapsed.len() ==> is_collapsed(collapsed, collapsed[i]@),
{
    if 0 <= i < collapsed.len() {
        assert(paths::same(collapsed[i]@, collapsed[i]@));
    }
}

/// An empty tree says how many files were passed over, where any were.
pub proof fn an_empty_tree_says_what_was_passed_over(skipped: nat)
    ensures
        skipped > 0 ==> strings::has_prefix(notice_text(true, skipped), "No requests here"@),
        skipped > 1 ==> strings::has_substring(notice_text(true, skipped), strings::decimal(skipped)),
        notice_text(false, skipped) == notice_text(false, 0),
        notice_text(false, 0) != notice_text(true, 0),
        skipped > 0 ==> notice_text(true, skipped) != notice_text(true, 0),
{
    reveal_strlit("No requests here");
    reveal_strlit("No requests here — ");
    reveal_strlit("No requests here — 1 other file was skipped.");
    reveal_strlit("Reading the collection…");
    reveal_strlit(
        "Nothing saved yet. Ctrl+S writes the request you're editing into the collection.",
    );
    let whole = notice_text(true, skipped);
    if skipped > 0 {
        assert(whole.subrange(0, "No requests here"@.len() as int) =~= "No requests here"@);
        assert(whole[1] == 'o' && whole[2] == ' ');
        assert(notice_text(true, 0)[2] == 't');
    }
    if skipped > 1 {
        strings::a_substring_has_something_on_either_side(
            "No requests here — "@,
            strings::decimal(skipped),
            " other files were skipped."@,
            whole,
        );
    }
    assert(notice_text(false, 0)[0] == 'R');
    assert(notice_text(true, 0)[0] == 'N');
}

} // verus!
