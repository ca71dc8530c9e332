//! The certificates panel.
//!
//! There are two sections because they are not alike: one client identity is presented at a time,
//! while every trusted issuer is in force.

use crate::lists;
use crate::paths;
use crate::strings;
use vstd::prelude::*;
use vstd::string::*;

verus! {

/// The certificate files that are known.
pub struct TlsFiles {
    /// The client identity that is presented, if any.
    pub identity: Option<String>,
    pub identities: Vec<String>,
    pub root_cas: Vec<String>,
}

impl Default for TlsFiles {
    fn default() -> (r: TlsFiles)
        ensures
            r.identity is None,
            r.identities@.len() == 0,
            r.root_cas@.len() == 0,
    {
        TlsFiles { identity: None, identities: Vec::new(), root_cas: Vec::new() }
    }
}

/// What a row does when it is chosen. It carries a path and not a place, so a list that changed
/// under the selection cannot activate the wrong file.
#[derive(Debug, PartialEq, Eq)]
pub enum Row {
    /// Present this identity.
    UseIdentity(String),
    /// Present none.
    UseNoIdentity,
    ChooseIdentity,
    /// A trusted issuer, which can only be removed.
    RootCa(String),
    ChooseRootCa,
}

impl Clone for Row {
    fn clone(&self) -> (r: Row)
        ensures
            r == *self,
    {
        match self {
            Row::UseIdentity(path) => Row::UseIdentity(path.clone()),
            Row::UseNoIdentity => Row::UseNoIdentity,
            Row::ChooseIdentity => Row::ChooseIdentity,
            Row::RootCa(path) => Row::RootCa(path.clone()),
            Row::ChooseRootCa => Row::ChooseRootCa,
        }
    }
}

/// Every row, in the order they are drawn.
pub open spec fn row_list(files: TlsFiles) -> Seq<Row> {
    seq![Row::UseNoIdentity] + files.identities@.map_values(|path: String| Row::UseIdentity(path))
        + seq![Row::ChooseIdentity] + files.root_cas@.map_values(|path: String| Row::RootCa(path))
        + seq![Row::ChooseRootCa]
}

/// Which row is selected.
pub struct CertPanel {
    pub selected: usize,
}

impl CertPanel {
    pub fn new() -> (r: CertPanel)
        ensures
            r.selected == 0,
    {
        CertPanel { selected: 0 }
    }

    /// Every row, in the order they are drawn.
    pub fn rows(files: &TlsFiles) -> (r: Vec<Row>)
        ensures
            r@ == row_list(*files),
            r.len() > 0,
    {
        let mut r: Vec<Row> = Vec::new();
        r.push(Row::UseNoIdentity);
        let ghost uses = files.identities@.map_values(|path: String| Row::UseIdentity(path));
        let ghost issuers = files.root_cas@.map_values(|path: String| Row::RootCa(path));
        let ghost first = seq![Row::UseNoIdentity];
        let mut i: usize = 0;
        proof {
            assert(r@ =~= first + uses.take(0));
        }
        while i < files.identities.len()
            invariant
                i <= files.identities.len(),
                uses == files.identities@.map_values(|path: String| Row::UseIdentity(path)),
                r@ == first + uses.take(i as int),
            decreases files.identities.len() - i,
        {
            r.push(Row::UseIdentity(files.identities[i].clone()));
            i = i + 1;
            proof {
                assert(r@ =~= first + uses.take(i as int));
            }
        }
        r.push(Row::ChooseIdentity);
        let ghost second = r@;
        let mut k: usize = 0;
        proof {
            assert(uses.take(i as int) =~= uses);
            assert(second =~= first + uses + seq![Row::ChooseIdentity]);
            assert(r@ =~= second + issuers.take(0));
        }
        while k < files.root_cas.len()
            invariant
                k <= files.root_cas.len(),
                issuers == files.root_cas@.map_values(|path: String| Row::RootCa(path)),
                r@ == second + issuers.take(k as int),
            decreases files.root_cas.len() - k,
        {
            r.push(Row::RootCa(files.root_cas[k].clone()));
            k = k + 1;
            proof {
                assert(r@ =~= second + issuers.take(k as int));
            }
        }
        r.push(Row::ChooseRootCa);
        proof {
            assert(issuers.take(k as int) =~= issuers);
            assert(r@ =~= row_list(*files));
        }
        r
    }

    /// Step through the rows, going round at both ends.
    pub fn step(&mut self, delta: isize, files: &TlsFiles)
        ensures
            final(self).selected == lists::wrapped(
                old(self).selected as int,
                delta as int,
                row_list(*files).len() as int,
            ),
    {
        let len: usize = CertPanel::rows(files).len();
        self.selected = lists::wrap_from(self.selected, delta, len);
    }

    /// The selected row, where it is still there.
    pub fn row(&self, files: &TlsFiles) -> (r: Option<Row>)
        ensures
            r == (if self.selected < row_list(*files).len() {
                Some(row_list(*files)[self.selected as int])
            } else {
                None
            }),
    {
        let rows = CertPanel::rows(files);
        if self.selected < rows.len() {
            Some(rows[self.selected].clone())
        } else {
            None
        }
    }
}

/// A path's file name; the path where it has none.
pub fn name_of(path: &str) -> (r: String)
    ensures
        r@ == crate::app_state::label_of(path@),
{
    match paths::file_name(path) {
        Some(name) => name,
        None => path.to_owned(),
    }
}

/// Whether a row belongs to the section of identities.
pub open spec fn in_identities(row: Row) -> bool {
    row is UseIdentity || row is UseNoIdentity || row is ChooseIdentity
}

/// Whether a row belongs to the section of identities.
pub fn is_identity(row: &Row) -> (r: bool)
    ensures
        r == in_identities(*row),
{
    match row {
        Row::UseIdentity(_) | Row::UseNoIdentity | Row::ChooseIdentity => true,
        _ => false,
    }
}

/// How a row is drawn.
pub struct Entry {
    /// A filled or an empty circle for an identity; nothing for an issuer.
    pub marker: String,
    pub label: String,
    pub removable: bool,
}

/// Whether a row is the choice that is in force.
pub open spec fn is_chosen(row: Row, active: Option<String>) -> bool {
    match (row, active) {
        (Row::UseNoIdentity, None) => true,
        (Row::UseIdentity(path), Some(active)) => paths::same(active@, path@),
        _ => false,
    }
}

/// How a row is drawn, given the identity that is in force.
pub fn entry(row: &Row, active: &Option<String>) -> (r: Entry)
    ensures
        r.marker@ == (if *row is UseNoIdentity || *row is UseIdentity {
            if is_chosen(*row, *active) {
                "●"@
            } else {
                "○"@
            }
        } else {
            Seq::empty()
        }),
        r.label@ == (match *row {
            Row::UseNoIdentity => "None"@,
            Row::UseIdentity(path) => crate::app_state::label_of(path@),
            Row::RootCa(path) => crate::app_state::label_of(path@),
            _ => "Choose a file…"@,
        }),
        r.removable == (*row is UseIdentity || *row is RootCa),
{
    match row {
        Row::UseNoIdentity => Entry {
            marker: if active.is_none() {
                "●".to_owned()
            } else {
                "○".to_owned()
            },
            label: "None".to_owned(),
            removable: false,
        },
        Row::UseIdentity(path) => {
            let chosen = match active {
                Some(active) => paths::same_path(active.as_str(), path.as_str()),
                None => false,
            };
            Entry {
                marker: if chosen {
                    "●".to_owned()
                } else {
                    "○".to_owned()
                },
                label: name_of(path.as_str()),
                removable: true,
            }
        },
        Row::RootCa(path) => Entry {
            marker: String::new(),
            label: name_of(path.as_str()),
            removable: true,
        },
        Row::ChooseIdentity | Row::ChooseRootCa => Entry {
            marker: String::new(),
            label: "Choose a file…".to_owned(),
            removable: false,
        },
    }
}

/// Every panel offers both choosers, however little there is, and the identities stand before the
/// issuers.
pub proof fn a_panel_always_offers_both_choosers(files: TlsFiles)
    ensures
        row_list(files).contains(Row::ChooseIdentity),
        row_list(files).contains(Row::ChooseRootCa),
        row_list(files).len() == files.identities@.len() + files.root_cas@.len() + 3,
        forall|i: int, j: int|
            0 <= i < j < row_list(files).len() && in_identities(#[trigger] row_list(files)[j])
                ==> in_identities(#[trigger] row_list(files)[i]),
{
    let rows = row_list(files);
    let n = files.identities@.len() as int;
    assert(rows[n + 1] == Row::ChooseIdentity);
    assert(rows[rows.len() - 1] == Row::ChooseRootCa);
    assert forall|j: int| 0 <= j < rows.len() implies in_identities(#[trigger] rows[j]) == (j <= n
        + 1) by {}
}

/// Every identity and every issuer has its row, in the order they are kept, and no other file has
/// one; presenting none comes first.
pub proof fn every_file_has_its_row(files: TlsFiles, i: int)
    ensures
        row_list(files)[0] == Row::UseNoIdentity,
        0 <= i < files.identities.len() ==> row_list(files)[i + 1] == Row::UseIdentity(
            files.identities[i],
        ),
        row_list(files)[files.identities.len() + 1] == Row::ChooseIdentity,
        0 <= i < files.root_cas.len() ==> row_list(files)[files.identities.len() + 2 + i]
            == Row::RootCa(files.root_cas[i]),
        row_list(files).last() == Row::ChooseRootCa,
        row_list(files).len() == files.identities.len() + files.root_cas.len() + 3,
{
}

/// The identity that is in force is the one that is marked, however its path is spelled, and none
/// is marked only where none is in force; issuers are never a choice.
pub proof fn the_identity_in_force_is_marked(path: String, active: Option<String>)
    ensures
        is_chosen(Row::UseNoIdentity, active) <==> active is None,
        active is None ==> !is_chosen(Row::UseIdentity(path), active),
        active matches Some(kept) ==> (is_chosen(Row::UseIdentity(path), active) <==> paths::same(
            kept@,
            path@,
        )),
        !is_chosen(Row::RootCa(path), active),
        !is_chosen(Row::ChooseIdentity, active) && !is_chosen(Row::ChooseRootCa, active),
        in_identities(Row::UseIdentity(path)) && in_identities(Row::UseNoIdentity)
            && in_identities(Row::ChooseIdentity),
        !in_identities(Row::RootCa(path)) && !in_identities(Row::ChooseRootCa),
{
}

} // verus!
