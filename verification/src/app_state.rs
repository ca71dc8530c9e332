//! Which workspaces exist, which was last open, and the theme.
//!
//! A workspace is a directory of requests, and it belongs to its user. What is kept here is the
//! application's own bookkeeping about them, and is never written into one.

use crate::paths;
use crate::strings;
use vstd::prelude::*;
use vstd::set_lib;
use vstd::string::*;

verus! {

/// The id of the workspace that is always there.
pub const DEFAULT_ID: &'static str = "default";

/// The version of the registry's format that this build writes.
pub const CURRENT_VERSION: u32 = 1;

/// How the application looks.
#[derive(Clone, Copy, Debug, PartialEq, Eq, Structural)]
pub enum Appearance {
    Dark,
    Light,
}

/// One registered workspace. It has no name of its own: it is named by its directory.
#[derive(Debug, PartialEq, Eq)]
pub struct WorkspaceEntry {
    pub id: String,
    pub path: String,
}

impl Clone for WorkspaceEntry {
    fn clone(&self) -> (r: WorkspaceEntry)
        ensures
            r == *self,
    {
        WorkspaceEntry { id: self.id.clone(), path: self.path.clone() }
    }
}

/// What a `WorkspaceEntry` is.
pub struct EntryView {
    pub id: Seq<char>,
    pub path: Seq<char>,
}

impl View for WorkspaceEntry {
    type V = EntryView;

    open spec fn view(&self) -> EntryView {
        EntryView { id: self.id@, path: self.path@ }
    }
}

/// What a list of entries is.
pub open spec fn entries_of(list: Seq<WorkspaceEntry>) -> Seq<EntryView> {
    list.map_values(|entry: WorkspaceEntry| entry@)
}

/// The registry, as it is written down.
pub struct AppFile {
    pub version: u32,
    pub theme: Appearance,
    /// The workspace to open. One that is no longer registered counts as none.
    pub last: Option<String>,
    pub workspaces: Vec<WorkspaceEntry>,
}

/// What an `AppFile` is.
pub struct FileView {
    pub version: u32,
    pub theme: Appearance,
    pub last: Option<Seq<char>>,
    pub workspaces: Seq<EntryView>,
}

impl View for AppFile {
    type V = FileView;

    open spec fn view(&self) -> FileView {
        FileView {
            version: self.version,
            theme: self.theme,
            last: strings::opt_text(self.last),
            workspaces: entries_of(self.workspaces@),
        }
    }
}

/// The registry, and where it is kept.
pub struct AppState {
    /// The directory it is kept in; nothing where it is not kept.
    pub dir: Option<String>,
    pub file: AppFile,
}

/// The place of the first entry with an id; the length where there is none.
pub open spec fn place_of(entries: Seq<EntryView>, id: Seq<char>) -> int
    decreases entries.len(),
{
    if entries.len() == 0 {
        0
    } else if entries[0].id == id {
        0
    } else {
        1 + place_of(entries.drop_first(), id)
    }
}

/// Whether there is an entry with an id.
pub open spec fn is_registered(entries: Seq<EntryView>, id: Seq<char>) -> bool {
    exists|i: int| 0 <= i < entries.len() && (#[trigger] entries[i]).id == id
}

/// The place of the workspace to open: the last one where it is still registered, else the first.
pub open spec fn active_place(file: FileView) -> int {
    match file.last {
        Some(id) => if is_registered(file.workspaces, id) {
            place_of(file.workspaces, id)
        } else {
            0
        },
        None => 0,
    }
}

/// The workspace to open, if there is any.
pub open spec fn active_entry(file: FileView) -> Option<EntryView> {
    if file.workspaces.len() == 0 {
        None
    } else {
        Some(file.workspaces[active_place(file)])
    }
}

proof fn lemma_place(entries: Seq<EntryView>, id: Seq<char>)
    ensures
        0 <= place_of(entries, id) <= entries.len(),
        is_registered(entries, id) <==> place_of(entries, id) < entries.len(),
        place_of(entries, id) < entries.len() ==> entries[place_of(entries, id)].id == id,
        forall|i: int| 0 <= i < place_of(entries, id) ==> (#[trigger] entries[i]).id != id,
    decreases entries.len(),
{
    if entries.len() > 0 && entries[0].id != id {
        let rest = entries.drop_first();
        lemma_place(rest, id);
        assert forall|i: int| 0 <= i < place_of(entries, id) implies (#[trigger] entries[i]).id
            != id by {
            if i > 0 {
                assert(rest[i - 1] == entries[i]);
            }
        }
        if is_registered(rest, id) {
            let i = choose|i: int| 0 <= i < rest.len() && (#[trigger] rest[i]).id == id;
            assert(entries[i + 1].id == id);
        }
        if is_registered(entries, id) {
            let i = choose|i: int| 0 <= i < entries.len() && (#[trigger] entries[i]).id == id;
            assert(rest[i - 1].id == id);
        }
    }
}

/// Where an id stands in a registry, if it does.
pub fn find_entry(entries: &Vec<WorkspaceEntry>, id: &str) -> (r: Option<usize>)
    ensures
        r is Some <==> is_registered(entries_of(entries@), id@),
        r matches Some(i) ==> i < entries.len() && i == place_of(entries_of(entries@), id@),
{
    let ghost views = entries_of(entries@);
    let mut i: usize = 0;
    while i < entries.len()
        invariant
            i <= entries.len(),
            views == entries_of(entries@),
            forall|k: int| 0 <= k < i ==> (#[trigger] views[k]).id != id@,
        decreases entries.len() - i,
    {
        proof {
            assert(views[i as int] == entries[i as int]@);
        }
        if strings::same(entries[i].id.as_str(), id) {
            proof {
                lemma_place(views, id@);
                assert(is_registered(views, id@));
            }
            return Some(i);
        }
        i = i + 1;
    }
    None
}

/// A copy of a list of entries.
pub fn clone_entries(list: &Vec<WorkspaceEntry>) -> (r: Vec<WorkspaceEntry>)
    ensures
        r@ == list@,
{
    let r = list.clone();
    proof {
        assert forall|i: int| 0 <= i < list.len() implies r@[i] == #[trigger] list@[i] by {
            assert(cloned::<WorkspaceEntry>(list[i], r[i]));
        }
        assert(r@ =~= list@);
    }
    r
}

/// A registry that holds nothing but the default workspace, where there is a place for it.
pub open spec fn fresh_file(default_workspace: Option<Seq<char>>) -> FileView {
    FileView {
        version: CURRENT_VERSION,
        theme: Appearance::Dark,
        last: Some(DEFAULT_ID@),
        workspaces: match default_workspace {
            Some(path) => seq![EntryView { id: DEFAULT_ID@, path }],
            None => Seq::empty(),
        },
    }
}

/// The entries with other ids, in order.
pub open spec fn others(entries: Seq<EntryView>, id: Seq<char>) -> Seq<EntryView>
    decreases entries.len(),
{
    if entries.len() == 0 {
        Seq::empty()
    } else if entries.last().id == id {
        others(entries.drop_last(), id)
    } else {
        others(entries.drop_last(), id).push(entries.last())
    }
}

/// The registry without an entry. The one to open moves to the first that is left, where it was
/// the one that went.
pub open spec fn without(file: FileView, id: Seq<char>) -> FileView {
    let left = others(file.workspaces, id);
    FileView {
        workspaces: left,
        last: if file.last == Some(id) {
            if left.len() > 0 {
                Some(left[0].id)
            } else {
                None
            }
        } else {
            file.last
        },
        ..file
    }
}

impl AppState {
    /// A registry that holds nothing but the default workspace.
    pub fn fresh(default_workspace: Option<String>) -> (r: AppFile)
        ensures
            r@ == fresh_file(strings::opt_text(default_workspace)),
    {
        let mut workspaces: Vec<WorkspaceEntry> = Vec::new();
        if let Some(path) = default_workspace {
            workspaces.push(WorkspaceEntry { id: DEFAULT_ID.to_owned(), path });
        }
        let r = AppFile {
            version: CURRENT_VERSION,
            theme: Appearance::Dark,
            last: Some(DEFAULT_ID.to_owned()),
            workspaces,
        };
        proof {
            assert(r@.workspaces =~= fresh_file(strings::opt_text(default_workspace)).workspaces);
        }
        r
    }

    /// The workspace to open: the last one where it is still registered, else the first.
    pub fn active(&self) -> (r: Option<&WorkspaceEntry>)
        ensures
            active_entry(self.file@) == (match r {
                Some(entry) => Some(entry@),
                None => None,
            }),
    {
        if self.file.workspaces.len() == 0 {
            return None;
        }
        let at: usize = match &self.file.last {
            Some(id) => match find_entry(&self.file.workspaces, id.as_str()) {
                Some(at) => at,
                None => 0,
            },
            None => 0,
        };
        proof {
            assert(self.file@.workspaces[at as int] == self.file.workspaces[at as int]@);
        }
        Some(&self.file.workspaces[at])
    }

    /// Every registered workspace, in the order they were registered.
    pub fn workspaces(&self) -> (r: Vec<WorkspaceEntry>)
        ensures
            r@ == self.file.workspaces@,
    {
        clone_entries(&self.file.workspaces)
    }

    /// The id of the workspace to open.
    pub fn active_id(&self) -> (r: Option<String>)
        ensures
            strings::opt_text(r) == (match active_entry(self.file@) {
                Some(entry) => Some(entry.id),
                None => None,
            }),
    {
        match self.active() {
            Some(entry) => Some(entry.id.clone()),
            None => None,
        }
    }

    /// Register a directory and return its id; `slug` is its name made fit for a file name. A
    /// directory that is registered already keeps its entry. Says whether the registry changed.
    pub fn add_workspace(&mut self, path: String, slug: &str) -> (r: (String, bool))
        requires
            old(self).file.workspaces.len() < u32::MAX,
        ensures
            final(self).dir == old(self).dir,
            match registered_path(old(self).file@.workspaces, path@) {
                Some(entry) => {
                    &&& *final(self) == *old(self)
                    &&& r.0@ == entry.id
                    &&& !r.1
                },
                None => {
                    &&& r.1
                    &&& r.0@ == free_id(old(self).file@.workspaces, stem_of(path@, slug@))
                    &&& final(self).file@ == (FileView {
                        workspaces: old(self).file@.workspaces.push(
                            EntryView { id: r.0@, path: path@ },
                        ),
                        ..old(self).file@
                    })
                },
            },
    {
        let ghost views = entries_of(self.file.workspaces@);
        let mut i: usize = 0;
        proof {
            assert(views.skip(0) =~= views);
        }
        while i < self.file.workspaces.len()
            invariant
                i <= self.file.workspaces.len(),
                views == entries_of(self.file.workspaces@),
                registered_path(views, path@) == registered_path(views.skip(i as int), path@),
                *self == *old(self),
            decreases self.file.workspaces.len() - i,
        {
            proof {
                assert(views.skip(i as int)[0] == self.file.workspaces[i as int]@);
                assert(views.skip(i as int).drop_first() =~= views.skip(i + 1));
            }
            if paths::same_path(self.file.workspaces[i].path.as_str(), path.as_str()) {
                return (self.file.workspaces[i].id.clone(), false);
            }
            i = i + 1;
        }
        let id = allocate_id(&self.file.workspaces, path.as_str(), slug);
        let ghost held = self.file.workspaces@;
        self.file.workspaces.push(WorkspaceEntry { id: id.clone(), path });
        proof {
            assert(entries_of(self.file.workspaces@) =~= entries_of(held).push(
                EntryView { id: id@, path: path@ },
            ));
        }
        (id, true)
    }

    /// Drop a workspace from the registry; its directory is left alone. The only entry stays, as
    /// there would be nothing left to open. Says whether it went, and which session file goes
    /// with it.
    pub fn forget_workspace(&mut self, id: &str) -> (r: (bool, Option<String>))
        ensures
            final(self).dir == old(self).dir,
            r.0 == (old(self).file@.workspaces.len() >= 2 && is_registered(
                old(self).file@.workspaces,
                id@,
            )),
            !r.0 ==> *final(self) == *old(self) && r.1 is None,
            r.0 ==> {
                &&& final(self).file@ == without(old(self).file@, id@)
                &&& strings::opt_text(r.1) == (match old(self).dir {
                    Some(dir) => Some(session_file(dir@, id@)),
                    None => None,
                })
            },
    {
        if self.file.workspaces.len() < 2 || find_entry(&self.file.workspaces, id).is_none() {
            return (false, None);
        }
        let ghost before = self.file@;
        let left = keep_others(&self.file.workspaces, id);
        let was_last = match &self.file.last {
            Some(last) => strings::same(last.as_str(), id),
            None => false,
        };
        self.file.workspaces = left;
        if was_last {
            self.file.last = if self.file.workspaces.len() > 0 {
                Some(self.file.workspaces[0].id.clone())
            } else {
                None
            };
        }
        proof {
            let views = entries_of(self.file.workspaces@);
            if views.len() > 0 {
                assert(views[0] == self.file.workspaces[0]@);
            }
        }
        let session = match &self.dir {
            Some(dir) => Some(session_path(dir.as_str(), id)),
            None => None,
        };
        (true, session)
    }

    /// Make a workspace the one to open. Says whether that changed anything: it has to be
    /// registered, and not the one already.
    pub fn set_active(&mut self, id: &str) -> (changed: bool)
        ensures
            final(self).dir == old(self).dir,
            changed == (is_registered(old(self).file@.workspaces, id@) && old(self).file@.last
                != Some(id@)),
            final(self).file@ == (if changed {
                FileView { last: Some(id@), ..old(self).file@ }
            } else {
                old(self).file@
            }),
    {
        if find_entry(&self.file.workspaces, id).is_none() {
            return false;
        }
        let is_last = match &self.file.last {
            Some(last) => strings::same(last.as_str(), id),
            None => false,
        };
        if is_last {
            return false;
        }
        self.file.last = Some(id.to_owned());
        true
    }

    /// What the registry stands for: the root of the collection to open, and the file its session
    /// is kept in.
    pub fn resolve(&self) -> (r: (Option<String>, Option<String>))
        ensures
            strings::opt_text(r.0) == (match active_entry(self.file@) {
                Some(entry) => Some(entry.path),
                None => None,
            }),
            strings::opt_text(r.1) == (match (self.dir, active_entry(self.file@)) {
                (Some(dir), Some(entry)) => Some(session_file(dir@, entry.id)),
                _ => None,
            }),
    {
        match self.active() {
            Some(entry) => {
                let session = match &self.dir {
                    Some(dir) => Some(session_path(dir.as_str(), entry.id.as_str())),
                    None => None,
                };
                (Some(entry.path.clone()), session)
            },
            None => (None, None),
        }
    }

    pub fn theme(&self) -> (r: Appearance)
        ensures
            r == self.file@.theme,
    {
        self.file.theme
    }

    /// Remember a theme. Says whether it is another one.
    pub fn set_theme(&mut self, theme: Appearance) -> (changed: bool)
        ensures
            final(self).dir == old(self).dir,
            final(self).file@ == (FileView { theme, ..old(self).file@ }),
            changed == (old(self).file@.theme != theme),
    {
        if self.file.theme == theme {
            return false;
        }
        self.file.theme = theme;
        true
    }

    /// Where the default workspace is to be, if it is registered.
    pub fn default_workspace_path(file: &AppFile) -> (r: Option<String>)
        ensures
            strings::opt_text(r) == (if is_registered(file@.workspaces, DEFAULT_ID@) {
                Some(file@.workspaces[place_of(file@.workspaces, DEFAULT_ID@)].path)
            } else {
                None
            }),
    {
        match find_entry(&file.workspaces, DEFAULT_ID) {
            Some(at) => {
                proof {
                    assert(file@.workspaces[at as int] == file.workspaces[at as int]@);
                }
                Some(file.workspaces[at].path.clone())
            },
            None => None,
        }
    }
}

/// The entries with other ids, in order.
fn keep_others(entries: &Vec<WorkspaceEntry>, id: &str) -> (r: Vec<WorkspaceEntry>)
    ensures
        entries_of(r@) == others(entries_of(entries@), id@),
{
    let ghost views = entries_of(entries@);
    let mut r: Vec<WorkspaceEntry> = Vec::new();
    let mut i: usize = 0;
    proof {
        assert(views.take(0) =~= Seq::<EntryView>::empty());
        assert(entries_of(r@) =~= Seq::<EntryView>::empty());
    }
    while i < entries.len()
        invariant
            i <= entries.len(),
            views == entries_of(entries@),
            entries_of(r@) == others(views.take(i as int), id@),
        decreases entries.len() - i,
    {
        let ghost held = r@;
        proof {
            assert(views.take(i + 1).drop_last() =~= views.take(i as int));
            assert(views.take(i + 1).last() == entries[i as int]@);
        }
        if !strings::same(entries[i].id.as_str(), id) {
            r.push(entries[i].clone());
            proof {
                assert(entries_of(r@) =~= entries_of(held).push(entries[i as int]@));
            }
        }
        i = i + 1;
    }
    proof {
        assert(views.take(views.len() as int) =~= views);
    }
    r
}

/// The entry of a directory that is registered already.
pub open spec fn registered_path(entries: Seq<EntryView>, path: Seq<char>) -> Option<EntryView>
    decreases entries.len(),
{
    if entries.len() == 0 {
        None
    } else if paths::same(entries[0].path, path) {
        Some(entries[0])
    } else {
        registered_path(entries.drop_first(), path)
    }
}

/// A workspace's display name: its directory's own.
pub open spec fn label_of(path: Seq<char>) -> Seq<char> {
    match paths::file_name_of(path) {
        Some(name) => name,
        None => path,
    }
}

/// A workspace's display name: its directory's own, so moving the directory cannot leave a stale
/// name behind.
pub fn label(path: &str) -> (r: String)
    ensures
        r@ == label_of(path@),
{
    match paths::file_name(path) {
        Some(name) => name,
        None => path.to_owned(),
    }
}

/// `str::to_lowercase` of a text, by the Unicode tables.
pub uninterp spec fn unicode_lowercase(text: Seq<char>) -> Seq<char>;

/// `str::to_lowercase`: the text with its capitals made small, as Unicode has it. Nothing more is
/// claimed of what comes back.
#[verifier::external_body]
fn to_lowercase(text: &str) -> (r: String)
    ensures
        r@ == unicode_lowercase(text@),
{
    text.to_lowercase()
}

/// What an id is made from, given the slug in small letters: the word "workspace" where there is
/// none or it is reserved.
pub open spec fn stem_from(has_name: bool, slug: Seq<char>) -> Seq<char> {
    if has_name && slug.len() > 0 && slug != DEFAULT_ID@ {
        slug
    } else {
        "workspace"@
    }
}

/// What the id of a workspace is made from.
pub open spec fn stem_of(path: Seq<char>, slug: Seq<char>) -> Seq<char> {
    stem_from(paths::file_name_of(path) is Some, unicode_lowercase(slug))
}

/// The `n`th id made from a stem, for `n` from two on.
pub open spec fn candidate(stem: Seq<char>, n: int) -> Seq<char> {
    stem + "-"@ + strings::decimal(n as nat)
}

/// The first candidate from `n` on that is free. There is one among as many as there are entries
/// and one more.
pub open spec fn free_from(entries: Seq<EntryView>, stem: Seq<char>, n: int) -> Seq<char>
    decreases entries.len() + 3 - n,
{
    if n > entries.len() + 2 || !is_registered(entries, candidate(stem, n)) {
        candidate(stem, n)
    } else {
        free_from(entries, stem, n + 1)
    }
}

/// The id made from a stem: the stem where it is free, else the first numbered one that is.
pub open spec fn free_id(entries: Seq<EntryView>, stem: Seq<char>) -> Seq<char> {
    if is_registered(entries, stem) {
        free_from(entries, stem, 2)
    } else {
        stem
    }
}

proof fn lemma_candidates_differ(stem: Seq<char>, a: int, b: int)
    requires
        0 <= a,
        0 <= b,
        candidate(stem, a) == candidate(stem, b),
    ensures
        a == b,
{
    let x = strings::decimal(a as nat);
    let y = strings::decimal(b as nat);
    let head = stem + "-"@;
    assert(candidate(stem, a).skip(head.len() as int) =~= x);
    assert(candidate(stem, b).skip(head.len() as int) =~= y);
    strings::lemma_decimal(a as nat);
    strings::lemma_decimal(b as nat);
}

/// There are never more taken candidates in a row than there are entries.
proof fn lemma_a_candidate_is_free(entries: Seq<EntryView>, stem: Seq<char>, n: int)
    requires
        2 <= n,
        forall|i: int| 2 <= i < n ==> is_registered(entries, #[trigger] candidate(stem, i)),
    ensures
        n - 2 <= entries.len(),
{
    let ids = entries.map_values(|entry: EntryView| entry.id);
    let made = |i: int| candidate(stem, i);
    let numbers = set_lib::set_int_range(2, n);
    set_lib::lemma_int_range(2, n);
    assert(set_lib::set_int_range(2, n).len() == n - 2);
    assert forall|a: int, b: int|
        numbers.contains(a) && numbers.contains(b) && #[trigger] made(a) == #[trigger] made(
            b,
        ) implies a == b by {
        lemma_candidates_differ(stem, a, b);
    }
    let taken = numbers.map(made);
    set_lib::lemma_map_size(numbers, taken, made);
    ids.lemma_cardinality_of_set();
    assert(taken.subset_of(ids.to_set())) by {
        assert forall|id: Seq<char>| taken.contains(id) implies ids.to_set().contains(id) by {
            let i = choose|i: int| numbers.contains(i) && made(i) == id;
            assert(is_registered(entries, candidate(stem, i)));
            let k = choose|k: int|
                0 <= k < entries.len() && (#[trigger] entries[k]).id == candidate(stem, i);
            assert(ids[k] == id);
        }
    }
    set_lib::lemma_len_subset(taken, ids.to_set());
}

/// Whichever candidate is taken for free is free.
proof fn lemma_free_from(entries: Seq<EntryView>, stem: Seq<char>, n: int)
    requires
        2 <= n <= entries.len() + 3,
        forall|i: int| 2 <= i < n ==> is_registered(entries, #[trigger] candidate(stem, i)),
    ensures
        !is_registered(entries, free_from(entries, stem, n)),
    decreases entries.len() + 3 - n,
{
    if is_registered(entries, candidate(stem, n)) {
        assert forall|i: int| 2 <= i < n + 1 implies is_registered(
            entries,
            #[trigger] candidate(stem, i),
        ) by {}
        lemma_a_candidate_is_free(entries, stem, n + 1);
        lemma_free_from(entries, stem, n + 1);
    }
}

/// A new id is never one that is registered.
pub proof fn ids_never_collide(entries: Seq<EntryView>, stem: Seq<char>)
    ensures
        !is_registered(entries, free_id(entries, stem)),
{
    if is_registered(entries, stem) {
        lemma_free_from(entries, stem, 2);
    }
}

proof fn lemma_free_from_is_numbered(entries: Seq<EntryView>, stem: Seq<char>, n: int)
    requires
        0 <= n,
    ensures
        free_from(entries, stem, n).len() > 0,
        strings::is_digit(free_from(entries, stem, n).last()),
    decreases entries.len() + 3 - n,
{
    if n > entries.len() + 2 || !is_registered(entries, candidate(stem, n)) {
        let digits = strings::decimal(n as nat);
        strings::lemma_decimal(n as nat);
        assert(strings::is_digit(digits[digits.len() - 1]));
        assert(candidate(stem, n).last() == digits.last());
    } else {
        lemma_free_from_is_numbered(entries, stem, n + 1);
    }
}

/// A new id is never the one that is reserved for the default workspace.
pub proof fn the_default_id_is_never_given_away(
    entries: Seq<EntryView>,
    path: Seq<char>,
    slug: Seq<char>,
)
    ensures
        free_id(entries, stem_of(path, slug)) != DEFAULT_ID@,
{
    reveal_strlit("workspace");
    reveal_strlit("default");
    assert("workspace"@.len() != DEFAULT_ID@.len());
    assert(!strings::is_digit(DEFAULT_ID@.last()));
    lemma_free_from_is_numbered(entries, stem_of(path, slug), 2);
}

/// An id for a workspace, unique in the registry: its directory's name made fit for a file name,
/// in small letters, with a number after it where that is taken.
pub fn allocate_id(existing: &Vec<WorkspaceEntry>, path: &str, slug: &str) -> (r: String)
    requires
        existing.len() < u32::MAX,
    ensures
        r@ == free_id(entries_of(existing@), stem_of(path@, slug@)),
        !is_registered(entries_of(existing@), r@),
{
    let stem = allocate_stem(paths::file_name(path).is_some(), to_lowercase(slug));
    proof {
        ids_never_collide(entries_of(existing@), stem@);
    }
    if find_entry(existing, stem.as_str()).is_none() {
        return stem;
    }
    first_free(existing, stem.as_str())
}

/// What an id is made from, given the slug in small letters.
pub fn allocate_stem(has_name: bool, slug: String) -> (r: String)
    ensures
        r@ == stem_from(has_name, slug@),
{
    if has_name && !slug.as_str().is_empty() && !strings::same(slug.as_str(), DEFAULT_ID) {
        slug
    } else {
        "workspace".to_owned()
    }
}

/// The first numbered id made from a stem that is free.
pub fn first_free(existing: &Vec<WorkspaceEntry>, stem: &str) -> (r: String)
    requires
        existing.len() < u32::MAX,
    ensures
        r@ == free_from(entries_of(existing@), stem@, 2),
{
    let ghost views = entries_of(existing@);
    let mut n: u64 = 2;
    loop
        invariant
            views == entries_of(existing@),
            existing.len() < u32::MAX,
            2 <= n <= views.len() + 2,
            free_from(views, stem@, 2) == free_from(views, stem@, n as int),
            forall|i: int| 2 <= i < n ==> is_registered(views, #[trigger] candidate(stem@, i)),
        decreases views.len() + 3 - n,
    {
        let mut id = stem.to_owned();
        id.append("-");
        id.append(strings::decimal_string(n).as_str());
        proof {
            assert(id@ == candidate(stem@, n as int));
        }
        if find_entry(existing, id.as_str()).is_none() {
            return id;
        }
        proof {
            assert forall|i: int| 2 <= i < n + 1 implies is_registered(
                views,
                #[trigger] candidate(stem@, i),
            ) by {}
            lemma_a_candidate_is_free(views, stem@, n + 1);
        }
        n = n + 1;
    }
}

/// The file a workspace's session is kept in. It follows from the id, so an entry can never point
/// at another's.
pub open spec fn session_file(dir: Seq<char>, id: Seq<char>) -> Seq<char> {
    paths::joined(paths::joined(dir, "sessions"@), id + ".json"@)
}

/// The file a workspace's session is kept in.
pub fn session_path(dir: &str, id: &str) -> (r: String)
    ensures
        r@ == session_file(dir@, id@),
{
    let mut name = id.to_owned();
    name.append(".json");
    paths::join(paths::join(dir, "sessions").as_str(), name.as_str())
}

/// Why a registry that was read is not used.
pub open spec fn newer_text(version: u32) -> Seq<char> {
    "ignoring app.json written by a newer Zuno (format v"@ + strings::decimal(version as nat)
        + ", this build reads v"@ + strings::decimal(CURRENT_VERSION as nat) + ")"@
}

/// Take a registry that was read, unless a newer build wrote it.
pub fn accept(file: AppFile) -> (r: Result<AppFile, String>)
    ensures
        file.version <= CURRENT_VERSION ==> r == Ok::<AppFile, String>(file),
        r is Err <==> file.version > CURRENT_VERSION,
        r matches Err(why) ==> why@ == newer_text(file.version),
{
    if file.version <= CURRENT_VERSION {
        return Ok(file);
    }
    let mut why = "ignoring app.json written by a newer Zuno (format v".to_owned();
    why.append(strings::decimal_string(file.version as u64).as_str());
    why.append(", this build reads v");
    why.append(strings::decimal_string(CURRENT_VERSION as u64).as_str());
    why.append(")");
    Err(why)
}

/// Whether the session of a build before there were workspaces is taken over: only where there is
/// one, and never over one that this build wrote.
pub fn adopts_legacy_session(target_exists: bool, legacy_exists: bool) -> (r: bool)
    ensures
        r == (legacy_exists && !target_exists),
{
    !target_exists && legacy_exists
}

/// A base directory of the desktop: the one that is set, where it starts at the root, else the
/// usual place under the home directory.
pub open spec fn base_dir(
    set: Option<Seq<char>>,
    home: Option<Seq<char>>,
    usual: Seq<Seq<char>>,
) -> Option<Seq<char>> {
    match set {
        Some(dir) if paths::is_absolute(dir) => Some(dir),
        _ => match home {
            Some(home) => Some(under(home, usual)),
            None => None,
        },
    }
}

/// A directory and parts after it.
pub open spec fn under(base: Seq<char>, parts: Seq<Seq<char>>) -> Seq<char>
    decreases parts.len(),
{
    if parts.len() == 0 {
        base
    } else {
        paths::joined(under(base, parts.drop_last()), parts.last())
    }
}

/// Where the configuration is kept.
pub open spec fn config_place(set: Option<Seq<char>>, home: Option<Seq<char>>) -> Option<
    Seq<char>,
> {
    match base_dir(set, home, seq![".config"@]) {
        Some(base) => Some(under(base, seq!["zuno"@])),
        None => None,
    }
}

/// Where documents are kept, below a directory of their own.
pub open spec fn data_place(
    set: Option<Seq<char>>,
    home: Option<Seq<char>>,
    name: Seq<char>,
) -> Option<Seq<char>> {
    match base_dir(set, home, seq![".local"@, "share"@]) {
        Some(base) => Some(under(base, seq!["zuno"@, name])),
        None => None,
    }
}

/// The base directory that is set, where it starts at the root.
fn absolute_only(set: Option<String>) -> (r: Option<String>)
    ensures
        strings::opt_text(r) == (match strings::opt_text(set) {
            Some(dir) if paths::is_absolute(dir) => Some(dir),
            _ => None,
        }),
{
    match set {
        Some(dir) => if paths::absolute(dir.as_str()) {
            Some(dir)
        } else {
            None
        },
        None => None,
    }
}

/// Where the configuration is kept, given `XDG_CONFIG_HOME` and `HOME` as they are set.
pub fn config_dir(config_home: Option<String>, home: Option<String>) -> (r: Option<String>)
    ensures
        strings::opt_text(r) == config_place(
            strings::opt_text(config_home),
            strings::opt_text(home),
        ),
{
    proof {
        reveal_with_fuel(under, 2);
        assert(seq![".config"@].drop_last() =~= Seq::<Seq<char>>::empty());
        assert(seq!["zuno"@].drop_last() =~= Seq::<Seq<char>>::empty());
    }
    let base = match absolute_only(config_home) {
        Some(dir) => dir,
        None => match home {
            Some(home) => paths::join(home.as_str(), ".config"),
            None => {
                return None;
            },
        },
    };
    Some(paths::join(base.as_str(), "zuno"))
}

/// A directory for documents, given `XDG_DATA_HOME` and `HOME` as they are set.
pub fn data_dir(data_home: Option<String>, home: Option<String>, name: &str) -> (r: Option<
    String,
>)
    ensures
        strings::opt_text(r) == data_place(
            strings::opt_text(data_home),
            strings::opt_text(home),
            name@,
        ),
{
    proof {
        reveal_with_fuel(under, 3);
        let share = seq![".local"@, "share"@];
        assert(share.drop_last() =~= seq![".local"@]);
        assert(share.drop_last().drop_last() =~= Seq::<Seq<char>>::empty());
        let own = seq!["zuno"@, name@];
        assert(own.drop_last() =~= seq!["zuno"@]);
        assert(own.drop_last().drop_last() =~= Seq::<Seq<char>>::empty());
    }
    let base = match absolute_only(data_home) {
        Some(dir) => dir,
        None => match home {
            Some(home) => paths::join(
                paths::join(home.as_str(), ".local").as_str(),
                "share",
            ),
            None => {
                return None;
            },
        },
    };
    Some(paths::join(paths::join(base.as_str(), "zuno").as_str(), name))
}

/// Where a new workspace lands unless its maker says otherwise.
pub fn default_new_location(data_home: Option<String>, home: Option<String>) -> (r: Option<String>)
    ensures
        strings::opt_text(r) == data_place(
            strings::opt_text(data_home),
            strings::opt_text(home),
            "workspaces"@,
        ),
{
    data_dir(data_home, home, "workspaces")
}

/// What lies below a directory that starts at the root starts there too.
proof fn lemma_under_is_absolute(base: Seq<char>, parts: Seq<Seq<char>>)
    requires
        paths::is_absolute(base),
    ensures
        paths::is_absolute(under(base, parts)),
    decreases parts.len(),
{
    if parts.len() > 0 {
        lemma_under_is_absolute(base, parts.drop_last());
    }
}

/// The places that nobody chose start at the root, wherever the home directory does; and with one
/// there is always such a place. A base directory that is set and does not start at the root
/// changes nothing.
pub proof fn the_usual_places_start_at_the_root(
    set: Option<Seq<char>>,
    home: Option<Seq<char>>,
    name: Seq<char>,
)
    requires
        home matches Some(dir) ==> paths::is_absolute(dir),
    ensures
        config_place(set, home) matches Some(place) ==> paths::is_absolute(place),
        data_place(set, home, name) matches Some(place) ==> paths::is_absolute(place),
        home is Some ==> config_place(set, home) is Some && data_place(set, home, name) is Some,
        (set matches Some(dir) && !paths::is_absolute(dir)) ==> {
            &&& config_place(set, home) == config_place(None, home)
            &&& data_place(set, home, name) == data_place(None, home, name)
        },
{
    if let Some(dir) = home {
        lemma_under_is_absolute(dir, seq![".config"@]);
        lemma_under_is_absolute(dir, seq![".local"@, "share"@]);
    }
    if let Some(base) = base_dir(set, home, seq![".config"@]) {
        lemma_under_is_absolute(base, seq!["zuno"@]);
    }
    if let Some(base) = base_dir(set, home, seq![".local"@, "share"@]) {
        lemma_under_is_absolute(base, seq!["zuno"@, name]);
    }
}

/// A registry always opens on something while it holds anything, and what it opens on is one of
/// its entries.
pub proof fn a_registry_with_entries_opens_on_one(file: FileView)
    requires
        file.workspaces.len() > 0,
    ensures
        active_entry(file) matches Some(entry) && file.workspaces.contains(entry),
        (file.last is Some && !is_registered(file.workspaces, file.last->0)) ==> active_entry(file)
            == Some(file.workspaces[0]),
{
    if let Some(id) = file.last {
        lemma_place(file.workspaces, id);
    }
    assert(file.workspaces.contains(file.workspaces[active_place(file)]));
}

/// Forgetting a workspace leaves every other entry, and never leaves the registry pointing at the
/// one that went.
pub proof fn forgetting_leaves_the_others(file: FileView, id: Seq<char>)
    ensures
        !is_registered(without(file, id).workspaces, id),
        without(file, id).last != Some(id),
        forall|i: int|
            0 <= i < file.workspaces.len() && (#[trigger] file.workspaces[i]).id != id
                ==> without(file, id).workspaces.contains(file.workspaces[i]),
{
    lemma_others(file.workspaces, id);
}

proof fn lemma_others(entries: Seq<EntryView>, id: Seq<char>)
    ensures
        forall|i: int|
            0 <= i < others(entries, id).len() ==> (#[trigger] others(entries, id)[i]).id != id,
        forall|i: int|
            0 <= i < entries.len() && (#[trigger] entries[i]).id != id ==> others(
                entries,
                id,
            ).contains(entries[i]),
    decreases entries.len(),
{
    if entries.len() > 0 {
        let rest = entries.drop_last();
        let before = others(rest, id);
        let all = others(entries, id);
        lemma_others(rest, id);
        assert forall|i: int| 0 <= i < all.len() implies (#[trigger] all[i]).id != id by {
            if i < before.len() {
                assert(all[i] == before[i]);
            }
        }
        assert forall|i: int| 0 <= i < entries.len() && (#[trigger] entries[i]).id != id implies
            all.contains(entries[i]) by {
            if i < rest.len() {
                assert(rest[i] == entries[i]);
                assert(before.contains(rest[i]));
                let k = choose|k: int| 0 <= k < before.len() && before[k] == rest[i];
                assert(all[k] == entries[i]);
            } else {
                assert(all[all.len() - 1] == entries[i]);
            }
        }
    }
}

/// The session file of a workspace is named by its id, so two workspaces of one registry never
/// share one; and it lies among the sessions of its directory.
pub proof fn sessions_are_told_apart_by_id(dir: Seq<char>, a: Seq<char>, b: Seq<char>)
    requires
        !paths::is_absolute(a),
        !paths::is_absolute(b),
    ensures
        session_file(dir, a) == session_file(dir, b) ==> a == b,
        paths::joined(dir, "sessions"@).is_prefix_of(session_file(dir, a)),
{
    reveal_strlit(".json");
    let base = paths::joined(dir, "sessions"@);
    let suffix = ".json"@;
    if a.len() > 0 {
        assert((a + suffix)[0] == a[0]);
    } else {
        assert(a + suffix =~= suffix);
    }
    if b.len() > 0 {
        assert((b + suffix)[0] == b[0]);
    } else {
        assert(b + suffix =~= suffix);
    }
    let head = if base.len() == 0 || base.last() == '/' {
        base
    } else {
        base.push('/')
    };
    assert(session_file(dir, a) =~= head + (a + suffix));
    assert(session_file(dir, b) =~= head + (b + suffix));
    assert((head + (a + suffix)).take(base.len() as int) =~= base);
    if session_file(dir, a) == session_file(dir, b) {
        assert((head + (a + suffix)).len() == head.len() + a.len() + suffix.len());
        assert((head + (b + suffix)).len() == head.len() + b.len() + suffix.len());
        assert(session_file(dir, a).subrange(head.len() as int, (head.len() + a.len()) as int)
            =~= a);
        assert(session_file(dir, b).subrange(head.len() as int, (head.len() + b.len()) as int)
            =~= b);
    }
}

/// The last workspace that was open is the one to open while it is registered, and the first entry
/// with its id where there are several.
pub proof fn the_last_workspace_is_opened_again(file: FileView, id: Seq<char>, i: int)
    requires
        file.last == Some(id),
        0 <= i < file.workspaces.len(),
        file.workspaces[i].id == id,
        forall|k: int| 0 <= k < i ==> (#[trigger] file.workspaces[k]).id != id,
    ensures
        active_entry(file) == Some(file.workspaces[i]),
{
    lemma_place(file.workspaces, id);
    assert(is_registered(file.workspaces, id));
}

/// Without a last workspace the first is opened, and in an empty registry none is.
pub proof fn the_first_workspace_is_opened_else(file: FileView)
    ensures
        file.workspaces.len() > 0 && file.last is None ==> active_entry(file) == Some(
            file.workspaces[0],
        ),
        file.workspaces.len() == 0 ==> active_entry(file) is None,
{
}

/// A workspace that was made the one to open is opened.
pub proof fn what_is_made_active_is_opened(file: FileView, now: FileView, id: Seq<char>)
    requires
        is_registered(file.workspaces, id),
        now.workspaces == file.workspaces,
        now.last == Some(id),
    ensures
        active_entry(now) is Some,
        active_entry(now)->0.id == id,
        file.workspaces.contains(active_entry(now)->0),
{
    lemma_place(file.workspaces, id);
    assert(file.workspaces.contains(file.workspaces[active_place(now)]));
}

/// Forgetting a workspace takes the entries with its id out and keeps the rest in order; what is
/// opened next changes only where it was the one that went, and is then the first that is left.
pub proof fn only_what_is_forgotten_goes(file: FileView, id: Seq<char>)
    ensures
        without(file, id).workspaces == file.workspaces.filter(|entry: EntryView| entry.id != id),
        file.last != Some(id) ==> without(file, id).last == file.last,
        file.last == Some(id) && without(file, id).workspaces.len() > 0 ==> without(file, id).last
            == Some(without(file, id).workspaces[0].id),
        file.last == Some(id) && without(file, id).workspaces.len() == 0 ==> without(
            file,
            id,
        ).last is None,
        without(file, id).theme == file.theme,
        without(file, id).version == file.version,
        !is_registered(file.workspaces, id) && file.last != Some(id) ==> without(file, id) == file,
{
    lemma_others_are_filtered(file.workspaces, id);
    if !is_registered(file.workspaces, id) {
        lemma_nothing_to_leave_out(file.workspaces, id);
    }
}

proof fn lemma_others_are_filtered(entries: Seq<EntryView>, id: Seq<char>)
    ensures
        others(entries, id) == entries.filter(|entry: EntryView| entry.id != id),
    decreases entries.len(),
{
    reveal(Seq::filter);
    if entries.len() > 0 {
        lemma_others_are_filtered(entries.drop_last(), id);
    }
}

proof fn lemma_nothing_to_leave_out(entries: Seq<EntryView>, id: Seq<char>)
    requires
        !is_registered(entries, id),
    ensures
        others(entries, id) == entries,
    decreases entries.len(),
{
    if entries.len() > 0 {
        let front = entries.drop_last();
        assert forall|i: int| 0 <= i < front.len() implies (#[trigger] front[i]).id != id by {
            assert(front[i] == entries[i]);
        }
        lemma_nothing_to_leave_out(front, id);
        assert(entries[entries.len() - 1] == entries.last());
        assert(front.push(entries.last()) =~= entries);
    }
}

/// A fresh registry opens on the default workspace, where there is a place for it, in the dark
/// theme, and this build reads it.
pub proof fn a_fresh_registry_opens_on_the_default(path: Seq<char>)
    ensures
        active_entry(fresh_file(Some(path))) == Some(EntryView { id: DEFAULT_ID@, path }),
        fresh_file(Some(path)).workspaces.len() == 1,
        fresh_file(Some(path)).last == Some("default"@),
        fresh_file(Some(path)).theme is Dark,
        fresh_file(Some(path)).version == 1,
        active_entry(fresh_file(None)) is None,
        fresh_file(None).last == Some("default"@),
        fresh_file(None).theme is Dark,
        fresh_file(None).version == 1,
{
    let file = fresh_file(Some(path));
    assert(file.workspaces[0].id == DEFAULT_ID@);
    the_last_workspace_is_opened_again(file, DEFAULT_ID@, 0);
}

/// A directory is registered where an entry has its path, however it is spelled, and the first
/// such entry is its entry.
pub proof fn a_directory_is_registered_by_its_path(
    entries: Seq<EntryView>,
    path: Seq<char>,
    i: int,
)
    ensures
        (0 <= i < entries.len() && paths::same(entries[i].path, path) && forall|k: int|
            0 <= k < i ==> !paths::same((#[trigger] entries[k]).path, path)) ==> registered_path(
            entries,
            path,
        ) == Some(entries[i]),
        (forall|k: int|
            0 <= k < entries.len() ==> !paths::same((#[trigger] entries[k]).path, path))
            ==> registered_path(entries, path) is None,
    decreases entries.len(),
{
    if entries.len() > 0 && !paths::same(entries[0].path, path) {
        let rest = entries.drop_first();
        a_directory_is_registered_by_its_path(rest, path, i - 1);
        if 0 <= i < entries.len() && paths::same(entries[i].path, path) && forall|k: int|
            0 <= k < i ==> !paths::same((#[trigger] entries[k]).path, path) {
            assert(rest[i - 1] == entries[i]);
            assert forall|k: int| 0 <= k < i - 1 implies !paths::same(
                (#[trigger] rest[k]).path,
                path,
            ) by {
                assert(rest[k] == entries[k + 1]);
            }
        }
        if forall|k: int|
            0 <= k < entries.len() ==> !paths::same((#[trigger] entries[k]).path, path) {
            assert forall|k: int| 0 <= k < rest.len() implies !paths::same(
                (#[trigger] rest[k]).path,
                path,
            ) by {
                assert(rest[k] == entries[k + 1]);
            }
        }
    }
}

/// A workspace is shown by the name of its directory, a trailing slash aside; a path without a
/// name is shown whole.
pub proof fn a_workspace_is_shown_by_its_directory(base: Seq<char>, name: Seq<char>)
    requires
        !name.contains('/'),
        name.len() > 0,
        name != seq!['.'],
    ensures
        name != seq!['.', '.'] ==> label_of(base.push('/') + name) == name,
        name != seq!['.', '.'] ==> label_of((base.push('/') + name).push('/')) == name,
        name == seq!['.', '.'] ==> label_of(base.push('/') + name) == base.push('/') + name,
{
    paths::a_file_is_named_by_what_follows_the_last_slash(base, name);
}

/// A new id is the stem where nothing has it; else it is the stem with the least number from two
/// on that nothing has.
pub proof fn the_least_free_number_is_taken(entries: Seq<EntryView>, stem: Seq<char>)
    ensures
        !is_registered(entries, stem) ==> free_id(entries, stem) == stem,
        is_registered(entries, stem) ==> exists|n: int|
            2 <= n && free_id(entries, stem) == #[trigger] numbered_id(stem, n) && (forall|i: int|
                2 <= i < n ==> is_registered(entries, #[trigger] numbered_id(stem, i))),
{
    if is_registered(entries, stem) {
        lemma_free_from_is_least(entries, stem, 2);
    }
}

/// A stem, a hyphen and a number.
pub open spec fn numbered_id(stem: Seq<char>, n: int) -> Seq<char> {
    stem.push('-') + strings::decimal(n as nat)
}

proof fn lemma_free_from_is_least(entries: Seq<EntryView>, stem: Seq<char>, n: int)
    requires
        2 <= n,
        forall|i: int| 2 <= i < n ==> is_registered(entries, #[trigger] numbered_id(stem, i)),
    ensures
        exists|m: int|
            2 <= m && free_from(entries, stem, n) == #[trigger] numbered_id(stem, m) && (forall|
                i: int,
            |
                2 <= i < m ==> is_registered(entries, #[trigger] numbered_id(stem, i))),
    decreases entries.len() + 3 - n,
{
    reveal_strlit("-");
    assert(numbered_id(stem, n) =~= candidate(stem, n));
    if !(n > entries.len() + 2 || !is_registered(entries, candidate(stem, n))) {
        lemma_free_from_is_least(entries, stem, n + 1);
    }
}

/// An id is made from the slug, unless the directory has no name, the slug is empty or it is the
/// reserved one; what it is made from is never empty and never reserved.
pub proof fn an_id_is_made_from_the_slug(has_name: bool, slug: Seq<char>)
    ensures
        stem_from(has_name, slug).len() > 0,
        stem_from(has_name, slug) != "default"@,
        has_name && slug.len() > 0 && slug != "default"@ ==> stem_from(has_name, slug) == slug,
        !has_name || slug.len() == 0 || slug == "default"@ ==> stem_from(has_name, slug)
            == "workspace"@,
{
    reveal_strlit("workspace");
    reveal_strlit("default");
    assert("workspace"@.len() != "default"@.len());
}

/// A session is kept in the directory "sessions", in a file with the workspace's id for a name.
pub proof fn a_session_is_kept_under_its_id(dir: Seq<char>, id: Seq<char>)
    requires
        dir.len() > 0,
        !id.contains('/'),
    ensures
        paths::components_of(session_file(dir, id)) == paths::components_of(dir).push(
            "sessions"@,
        ).push(id + ".json"@),
        paths::is_absolute(session_file(dir, id)) == paths::is_absolute(dir),
{
    reveal_strlit("sessions");
    reveal_strlit(".json");
    let name = id + ".json"@;
    assert forall|i: int| 0 <= i < name.len() implies name[i] != '/' by {
        if i < id.len() {
            assert(id.contains(id[i]));
        }
    }
    assert(name.last() == 'n');
    assert("sessions"@.len() == 8);
    assert(!"sessions"@.contains('/'));
    assert("sessions"@ != seq!['.']);
    paths::a_joined_path_lies_in_its_directory(dir, "sessions"@);
    let base = paths::joined(dir, "sessions"@);
    assert(base.len() > 0);
    assert(name != seq!['.']) by {
        assert(name.len() >= 5);
    }
    paths::a_joined_path_lies_in_its_directory(base, name);
}

/// What is said of a registry that a newer build wrote names its version and the one that this
/// build reads.
pub proof fn a_newer_registry_is_told_by_its_version(version: u32)
    ensures
        newer_text(version) == "ignoring app.json written by a newer Zuno (format v"@
            + strings::decimal(version as nat) + ", this build reads v1)"@,
{
    reveal_strlit(", this build reads v");
    reveal_strlit(", this build reads v1)");
    reveal_strlit(")");
    strings::lemma_decimal(1);
    assert(strings::decimal(CURRENT_VERSION as nat) =~= seq!['1']);
    assert(newer_text(version) =~= "ignoring app.json written by a newer Zuno (format v"@
        + strings::decimal(version as nat) + ", this build reads v1)"@);
}

/// The configuration is kept in a directory of its own below the base directory that is set, where
/// that starts at the root, and else below ".config" in the home directory; with neither it has no
/// place.
pub proof fn the_configuration_has_its_own_directory(
    set: Option<Seq<char>>,
    home: Option<Seq<char>>,
)
    ensures
        set is Some && paths::is_absolute(set->0) ==> config_place(set, home) is Some
            && paths::components_of(config_place(set, home)->0) == paths::components_of(
            set->0,
        ).push("zuno"@),
        !(set is Some && paths::is_absolute(set->0)) && home is Some && home->0.len() > 0
            ==> config_place(set, home) is Some && paths::components_of(
            config_place(set, home)->0,
        ) == paths::components_of(home->0).push(".config"@).push("zuno"@),
        !(set is Some && paths::is_absolute(set->0)) && home is None ==> config_place(
            set,
            home,
        ) is None,
{
    lemma_plain_names();
    reveal_with_fuel(under, 2);
    assert(seq![".config"@].drop_last() =~= Seq::<Seq<char>>::empty());
    assert(seq!["zuno"@].drop_last() =~= Seq::<Seq<char>>::empty());
    if set is Some && paths::is_absolute(set->0) {
        paths::a_joined_path_lies_in_its_directory(set->0, "zuno"@);
    } else if home is Some && home->0.len() > 0 {
        paths::a_joined_path_lies_in_its_directory(home->0, ".config"@);
        let base = paths::joined(home->0, ".config"@);
        paths::a_joined_path_lies_in_its_directory(base, "zuno"@);
    }
}

/// Documents are kept in a directory of their own below the base directory that is set, where that
/// starts at the root, and else below ".local/share" in the home directory; with neither they have
/// no place.
pub proof fn documents_have_their_own_directory(
    set: Option<Seq<char>>,
    home: Option<Seq<char>>,
    name: Seq<char>,
)
    requires
        !name.contains('/'),
        name.len() > 0,
        name != seq!['.'],
    ensures
        set is Some && paths::is_absolute(set->0) ==> data_place(set, home, name) is Some
            && paths::components_of(data_place(set, home, name)->0) == paths::components_of(
            set->0,
        ).push("zuno"@).push(name),
        !(set is Some && paths::is_absolute(set->0)) && home is Some && home->0.len() > 0
            ==> data_place(set, home, name) is Some && paths::components_of(
            data_place(set, home, name)->0,
        ) == paths::components_of(home->0).push(".local"@).push("share"@).push("zuno"@).push(name),
        !(set is Some && paths::is_absolute(set->0)) && home is None ==> data_place(
            set,
            home,
            name,
        ) is None,
{
    lemma_plain_names();
    reveal_with_fuel(under, 3);
    let share = seq![".local"@, "share"@];
    assert(share.drop_last() =~= seq![".local"@]);
    assert(share.drop_last().drop_last() =~= Seq::<Seq<char>>::empty());
    let own = seq!["zuno"@, name];
    assert(own.drop_last() =~= seq!["zuno"@]);
    assert(own.drop_last().drop_last() =~= Seq::<Seq<char>>::empty());
    if set is Some && paths::is_absolute(set->0) {
        paths::a_joined_path_lies_in_its_directory(set->0, "zuno"@);
        paths::a_joined_path_lies_in_its_directory(paths::joined(set->0, "zuno"@), name);
    } else if home is Some && home->0.len() > 0 {
        paths::a_joined_path_lies_in_its_directory(home->0, ".local"@);
        let local = paths::joined(home->0, ".local"@);
        paths::a_joined_path_lies_in_its_directory(local, "share"@);
        let base = paths::joined(local, "share"@);
        paths::a_joined_path_lies_in_its_directory(base, "zuno"@);
        paths::a_joined_path_lies_in_its_directory(paths::joined(base, "zuno"@), name);
    }
}

proof fn lemma_plain_names()
    ensures
        !"zuno"@.contains('/'),
        "zuno"@.len() > 1,
        !".config"@.contains('/'),
        ".config"@.len() > 1,
        !".local"@.contains('/'),
        ".local"@.len() > 1,
        !"share"@.contains('/'),
        "share"@.len() > 1,
{
    reveal_strlit("zuno");
    reveal_strlit(".config");
    reveal_strlit(".local");
    reveal_strlit("share");
}

/// The id of a directory with a name is made from its slug in small letters, unless nothing is left
/// of it or it is the reserved one; one without a name is called a workspace.
pub proof fn a_named_directory_is_registered_by_its_slug(
    base: Seq<char>,
    name: Seq<char>,
    slug: Seq<char>,
)
    requires
        !name.contains('/'),
        name.len() > 0,
        name != seq!['.'],
    ensures
        name != seq!['.', '.'] && unicode_lowercase(slug).len() > 0 && unicode_lowercase(slug)
            != "default"@ ==> stem_of(base.push('/') + name, slug) == unicode_lowercase(slug),
        name == seq!['.', '.'] ==> stem_of(base.push('/') + name, slug) == "workspace"@,
        unicode_lowercase(slug) == "default"@ ==> stem_of(base.push('/') + name, slug)
            == "workspace"@,
{
    paths::a_file_is_named_by_what_follows_the_last_slash(base, name);
}

} // verus!
