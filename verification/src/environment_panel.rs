//! The environment editor: the set of environments, and the variables in each.
//!
//! An environment is kept in two files: one that is committed with the collection, and one beside
//! it that is not and holds what is secret. Reading and writing them is left to the caller.

use crate::input::text_input;
use crate::input::text_input::{InputView, TextInput};
use crate::lists;
use crate::strings;
use vstd::prelude::*;
use vstd::string::*;

verus! {

/// The environment that is always active. It can be edited, but not renamed and not removed.
pub const GLOBALS: &'static str = "globals";

/// A variable and its value.
pub struct Variable {
    pub name: String,
    pub value: String,
}

impl Clone for Variable {
    fn clone(&self) -> (r: Variable)
        ensures
            r == *self,
    {
        Variable { name: self.name.clone(), value: self.value.clone() }
    }
}

/// What a list of variables gives each name.
pub open spec fn table_of(vars: Seq<Variable>) -> Map<Seq<char>, Seq<char>>
    decreases vars.len(),
{
    if vars.len() == 0 {
        Map::empty()
    } else {
        table_of(vars.drop_last()).insert(vars.last().name@, vars.last().value@)
    }
}

/// No name is there twice.
pub open spec fn distinct(vars: Seq<Variable>) -> bool {
    forall|i: int, j: int|
        0 <= i < j < vars.len() ==> #[trigger] vars[i].name@ != #[trigger] vars[j].name@
}

proof fn lemma_table(vars: Seq<Variable>, i: int)
    requires
        distinct(vars),
        0 <= i < vars.len(),
    ensures
        table_of(vars).contains_key(vars[i].name@),
        table_of(vars)[vars[i].name@] == vars[i].value@,
    decreases vars.len(),
{
    if i < vars.len() - 1 {
        let front = vars.drop_last();
        assert(distinct(front)) by {
            assert forall|a: int, b: int| 0 <= a < b < front.len() implies #[trigger] front[a].name@
                != #[trigger] front[b].name@ by {
                assert(vars[a].name@ != vars[b].name@);
            }
        }
        lemma_table(front, i);
        assert(vars[i].name@ != vars[vars.len() - 1].name@);
    }
}

proof fn lemma_table_names(vars: Seq<Variable>, key: Seq<char>)
    requires
        table_of(vars).contains_key(key),
    ensures
        exists|i: int| 0 <= i < vars.len() && #[trigger] vars[i].name@ == key,
    decreases vars.len(),
{
    if vars.len() > 0 {
        if vars.last().name@ == key {
            assert(vars[vars.len() - 1].name@ == key);
        } else {
            let front = vars.drop_last();
            lemma_table_names(front, key);
            let i = choose|i: int| 0 <= i < front.len() && #[trigger] front[i].name@ == key;
            assert(vars[i].name@ == key);
        }
    }
}

proof fn lemma_table_update(vars: Seq<Variable>, i: int, var: Variable)
    requires
        distinct(vars),
        0 <= i < vars.len(),
        vars[i].name@ == var.name@,
    ensures
        table_of(vars.update(i, var)) == table_of(vars).insert(var.name@, var.value@),
    decreases vars.len(),
{
    let front = vars.drop_last();
    let updated = vars.update(i, var);
    if i == vars.len() - 1 {
        assert(updated.drop_last() =~= front);
    } else {
        assert(distinct(front)) by {
            assert forall|a: int, b: int| 0 <= a < b < front.len() implies #[trigger] front[a].name@
                != #[trigger] front[b].name@ by {
                assert(vars[a].name@ != vars[b].name@);
            }
        }
        assert(updated.drop_last() =~= front.update(i, var));
        lemma_table_update(front, i, var);
        assert(vars[i].name@ != vars[vars.len() - 1].name@);
    }
    assert(table_of(updated) =~= table_of(vars).insert(var.name@, var.value@));
}

/// Where a name stands in a list of variables.
fn find(vars: &Vec<Variable>, key: &str) -> (r: Option<usize>)
    requires
        distinct(vars@),
    ensures
        match r {
            Some(i) => i < vars.len() && vars[i as int].name@ == key@ && table_of(
                vars@,
            ).contains_key(key@) && table_of(vars@)[key@] == vars[i as int].value@,
            None => !table_of(vars@).contains_key(key@) && forall|i: int|
                0 <= i < vars.len() ==> #[trigger] vars[i].name@ != key@,
        },
{
    let mut i: usize = 0;
    while i < vars.len()
        invariant
            i <= vars.len(),
            distinct(vars@),
            forall|j: int| 0 <= j < i ==> #[trigger] vars[j].name@ != key@,
        decreases vars.len() - i,
    {
        if strings::same(vars[i].name.as_str(), key) {
            proof {
                lemma_table(vars@, i as int);
            }
            return Some(i);
        }
        i = i + 1;
    }
    proof {
        if table_of(vars@).contains_key(key@) {
            lemma_table_names(vars@, key@);
        }
    }
    None
}

/// Give a name a value, in place of the one it had.
fn put(vars: &mut Vec<Variable>, name: String, value: String)
    requires
        distinct(old(vars)@),
    ensures
        distinct(final(vars)@),
        table_of(final(vars)@) == table_of(old(vars)@).insert(name@, value@),
{
    match find(vars, name.as_str()) {
        Some(i) => {
            let var = Variable { name, value };
            proof {
                lemma_table_update(vars@, i as int, var);
            }
            vars.set(i, var);
        },
        None => {
            vars.push(Variable { name, value });
            proof {
                assert(vars@.drop_last() =~= old(vars)@);
            }
        },
    }
}

/// Whether everything that one list gives, the other gives too.
fn holds_all(a: &Vec<Variable>, b: &Vec<Variable>) -> (r: bool)
    requires
        distinct(a@),
        distinct(b@),
    ensures
        r == (forall|key: Seq<char>| #[trigger]
            table_of(a@).contains_key(key) ==> table_of(b@).contains_key(key) && table_of(b@)[key]
                == table_of(a@)[key]),
{
    let mut i: usize = 0;
    while i < a.len()
        invariant
            i <= a.len(),
            distinct(a@),
            distinct(b@),
            forall|j: int|
                0 <= j < i ==> table_of(b@).contains_key(#[trigger] a[j].name@) && table_of(
                    b@,
                )[a[j].name@] == a[j].value@,
        decreases a.len() - i,
    {
        proof {
            lemma_table(a@, i as int);
        }
        let same: bool = match find(b, a[i].name.as_str()) {
            Some(at) => b[at].value == a[i].value,
            None => false,
        };
        if !same {
            return false;
        }
        i = i + 1;
    }
    proof {
        assert forall|key: Seq<char>| #[trigger]
            table_of(a@).contains_key(key) implies table_of(b@).contains_key(key) && table_of(
            b@,
        )[key] == table_of(a@)[key] by {
            lemma_table_names(a@, key);
            let j = choose|j: int| 0 <= j < a.len() && #[trigger] a@[j].name@ == key;
            lemma_table(a@, j);
        }
    }
    true
}

/// Whether two lists give the same names the same values.
fn same_table(a: &Vec<Variable>, b: &Vec<Variable>) -> (r: bool)
    requires
        distinct(a@),
        distinct(b@),
    ensures
        r == (table_of(a@) == table_of(b@)),
{
    let forth = holds_all(a, b);
    let back = holds_all(b, a);
    proof {
        if forth && back {
            assert(table_of(a@) =~= table_of(b@));
        }
    }
    forth && back
}

/// An environment as its two files hold it.
pub struct EnvironmentFile {
    pub name: String,
    pub committed: Vec<Variable>,
    /// What is secret. A name here may have a stand-in in `committed`.
    pub local: Vec<Variable>,
}

/// What an `EnvironmentFile` is.
#[verifier::ext_equal]
pub struct FileView {
    pub name: Seq<char>,
    pub committed: Map<Seq<char>, Seq<char>>,
    pub local: Map<Seq<char>, Seq<char>>,
}

impl View for EnvironmentFile {
    type V = FileView;

    open spec fn view(&self) -> FileView {
        FileView {
            name: self.name@,
            committed: table_of(self.committed@),
            local: table_of(self.local@),
        }
    }
}

impl EnvironmentFile {
    pub open spec fn wf(&self) -> bool {
        distinct(self.committed@) && distinct(self.local@)
    }

    /// An environment with nothing in it, which is what one is that has no file.
    pub fn empty(name: &str) -> (r: EnvironmentFile)
        ensures
            r.wf(),
            r@ == (FileView { name: name@, committed: Map::empty(), local: Map::empty() }),
    {
        EnvironmentFile { name: name.to_owned(), committed: Vec::new(), local: Vec::new() }
    }
}

/// A variable as the two files together give it.
pub struct Resolved {
    pub name: String,
    pub value: String,
    /// Whether it comes from the file that is not committed.
    pub secret: bool,
}

/// A row of the table.
pub struct VarRow {
    pub name: TextInput,
    pub value: TextInput,
    pub secret: bool,
}

/// What a `VarRow` is.
pub struct RowView {
    pub name: InputView,
    pub value: InputView,
    pub secret: bool,
}

impl View for VarRow {
    type V = RowView;

    open spec fn view(&self) -> RowView {
        RowView { name: self.name@, value: self.value@, secret: self.secret }
    }
}

impl RowView {
    /// The name that the row stands for.
    pub open spec fn key(self) -> Seq<char> {
        strings::trimmed(self.name.surface.text)
    }

    pub open spec fn text(self) -> Seq<char> {
        self.value.surface.text
    }

    pub open spec fn wf(self) -> bool {
        self.name.wf() && self.value.wf()
    }
}

/// A row as it opens on a variable.
pub open spec fn fresh_row(name: Seq<char>, value: Seq<char>, secret: bool) -> RowView {
    RowView {
        name: text_input::fresh_input(name, "name"@, "EnvField"@),
        value: text_input::fresh_input(value, "value"@, "EnvField"@),
        secret,
    }
}

/// The rows of a table.
pub open spec fn rows_of(rows: Seq<VarRow>) -> Seq<RowView> {
    rows.map_values(|row: VarRow| row@)
}

/// The rows that a table opens with.
pub open spec fn opened(resolved: Seq<Resolved>) -> Seq<RowView> {
    resolved.map_values(|var: Resolved| fresh_row(var.name@, var.value@, var.secret))
}

fn new_row(name: &str, value: &str, secret: bool) -> (r: VarRow)
    ensures
        r@ == fresh_row(name@, value@, secret),
        r@.wf(),
{
    VarRow {
        name: TextInput::new(name, "name", "EnvField"),
        value: TextInput::new(value, "value", "EnvField"),
        secret,
    }
}

/// An environment with one more row written into it. `loaded` is what the files held.
///
/// A row without a name is left out. A secret keeps a committed stand-in that it already had; one
/// that is made a secret now does not, since what is committed under its name is the very thing
/// to be hidden.
pub open spec fn with_row(file: FileView, row: RowView, loaded: FileView) -> FileView {
    let key = row.key();
    if key.len() == 0 {
        file
    } else if !row.secret {
        FileView { committed: file.committed.insert(key, row.text()), ..file }
    } else {
        FileView {
            local: file.local.insert(key, row.text()),
            committed: if loaded.local.contains_key(key) && loaded.committed.contains_key(key) {
                file.committed.insert(key, loaded.committed[key])
            } else {
                file.committed
            },
            ..file
        }
    }
}

/// An environment as the first `n` rows of a table make it.
pub open spec fn rebuilt(name: Seq<char>, rows: Seq<RowView>, loaded: FileView, n: int) -> FileView
    decreases n,
{
    if n <= 0 {
        FileView { name, committed: Map::empty(), local: Map::empty() }
    } else {
        with_row(rebuilt(name, rows, loaded, n - 1), rows[n - 1], loaded)
    }
}

/// Whether a row is a secret that the files did not have as one.
pub open spec fn is_new_secret(row: RowView, loaded: FileView) -> bool {
    row.secret && row.key().len() > 0 && !loaded.local.contains_key(row.key())
}

/// What the editor reports.
pub enum EnvEvent {
    /// An environment has another name. The selected one may be it.
    Renamed { from: String, to: String },
    /// An environment is gone.
    Removed(String),
    /// A secret was written that was none before.
    SecretWritten,
}

/// A file to be written.
pub struct Write {
    pub file: EnvironmentFile,
    /// Whether it holds a secret that was none before.
    pub new_secret: bool,
}

/// What the open name box asks for.
pub enum Naming {
    Create { label: String },
    Rename { from: String, label: String },
}

/// The editor.
pub struct EnvironmentPanel {
    /// `globals` first, and then the others.
    pub names: Vec<String>,
    pub selected: usize,
    /// The selected environment as it was read.
    pub loaded: EnvironmentFile,
    pub rows: Vec<VarRow>,
    pub renaming: Option<TextInput>,
    pub creating: Option<TextInput>,
    pub message: Option<String>,
}

/// Every environment there is, given those that can be selected.
pub open spec fn listed(scanned: Seq<String>) -> Seq<Seq<char>> {
    seq![GLOBALS@] + strings::texts(scanned)
}

/// Where a wanted name is listed; the first entry where it is not, or none is wanted.
pub open spec fn place(names: Seq<Seq<char>>, wanted: Option<Seq<char>>) -> int {
    match wanted {
        Some(name) => if lists::first_at(names, name, 0) < names.len() {
            lists::first_at(names, name, 0)
        } else {
            0
        },
        None => 0,
    }
}

fn list(scanned: Vec<String>) -> (r: Vec<String>)
    ensures
        strings::texts(r@) == listed(scanned@),
        r.len() == scanned.len() + 1,
{
    let mut scanned = scanned;
    let mut names: Vec<String> = Vec::new();
    names.push(GLOBALS.to_owned());
    let ghost before = scanned@;
    let ghost head = names@;
    names.append(&mut scanned);
    proof {
        assert(names@ =~= head + before);
        assert(strings::texts(names@) =~= listed(before));
    }
    names
}

/// Where a wanted name is listed.
pub fn position(names: &Vec<String>, wanted: Option<&str>) -> (r: usize)
    ensures
        r == place(strings::texts(names@), strings::str_text(wanted)),
        names.len() > 0 ==> r < names.len(),
{
    let name: &str = match wanted {
        Some(name) => name,
        None => {
            return 0;
        },
    };
    let ghost texts = strings::texts(names@);
    let mut i: usize = 0;
    while i < names.len()
        invariant
            i <= names.len(),
            wanted == Some(name),
            texts == strings::texts(names@),
            lists::first_at(texts, name@, 0) == lists::first_at(texts, name@, i as int),
        decreases names.len() - i,
    {
        proof {
            assert(texts[i as int] == names[i as int]@);
        }
        if strings::same(names[i].as_str(), name) {
            return i;
        }
        i = i + 1;
    }
    0
}

impl EnvironmentPanel {
    /// An environment is selected, and every box is sound.
    pub open spec fn wf(&self) -> bool {
        &&& self.selected < self.names.len()
        &&& self.loaded.wf()
        &&& forall|i: int| 0 <= i < self.rows.len() ==> #[trigger] self.rows[i]@.wf()
        &&& self.renaming matches Some(input) ==> input@.wf()
        &&& self.creating matches Some(input) ==> input@.wf()
    }

    /// The selected environment's name.
    pub open spec fn current(&self) -> Seq<char> {
        self.names[self.selected as int]@
    }

    /// What the rows make of the selected environment.
    pub open spec fn edited(&self) -> FileView {
        rebuilt(self.current(), rows_of(self.rows@), self.loaded@, self.rows.len() as int)
    }

    pub open spec fn naming(&self) -> bool {
        self.renaming is Some || self.creating is Some
    }

    /// The editor over the environments that `scanned` lists, on the active one. Its rows come
    /// with `load`.
    pub fn new(scanned: Vec<String>, active: Option<&str>) -> (r: EnvironmentPanel)
        ensures
            r.wf(),
            strings::texts(r.names@) == listed(scanned@),
            r.selected == place(listed(scanned@), strings::str_text(active)),
            r.loaded@ == (FileView {
                name: Seq::empty(),
                committed: Map::empty(),
                local: Map::empty(),
            }),
            r.rows.len() == 0,
            r.renaming is None,
            r.creating is None,
            r.message is None,
    {
        let names = list(scanned);
        let selected: usize = position(&names, active);
        proof {
            reveal_strlit("");
            assert(""@ =~= Seq::<char>::empty());
        }
        EnvironmentPanel {
            names,
            selected,
            loaded: EnvironmentFile::empty(""),
            rows: Vec::new(),
            renaming: None,
            creating: None,
            message: None,
        }
    }

    /// The selected environment's name.
    pub fn name(&self) -> (r: &String)
        requires
            self.wf(),
        ensures
            r@ == self.current(),
    {
        &self.names[self.selected]
    }

    /// Show an environment that was read, with the variables that its files together give.
    pub fn load(&mut self, file: EnvironmentFile, resolved: &Vec<Resolved>)
        requires
            old(self).wf(),
            file.wf(),
        ensures
            final(self).wf(),
            *final(self) == (EnvironmentPanel {
                loaded: file,
                rows: final(self).rows,
                ..*old(self)
            }),
            rows_of(final(self).rows@) == opened(resolved@),
    {
        let mut rows: Vec<VarRow> = Vec::new();
        let mut i: usize = 0;
        while i < resolved.len()
            invariant
                i <= resolved.len(),
                rows.len() == i,
                forall|j: int|
                    0 <= j < i ==> #[trigger] rows[j]@ == fresh_row(
                        resolved[j].name@,
                        resolved[j].value@,
                        resolved[j].secret,
                    ) && rows[j]@.wf(),
            decreases resolved.len() - i,
        {
            rows.push(
                new_row(resolved[i].name.as_str(), resolved[i].value.as_str(), resolved[i].secret),
            );
            i = i + 1;
        }
        proof {
            assert(rows_of(rows@) =~= opened(resolved@));
        }
        self.loaded = file;
        self.rows = rows;
    }

    /// What is to be written, where anything is: looking at an environment makes no file.
    pub fn prepare_save(&self) -> (r: Option<Write>)
        requires
            self.wf(),
        ensures
            r is Some <==> self.edited() != self.loaded@,
            r matches Some(write) ==> {
                &&& write.file.wf()
                &&& write.file@ == self.edited()
                &&& write.new_secret == (exists|i: int|
                    0 <= i < self.rows.len() && is_new_secret(#[trigger] self.rows[i]@, self.loaded@))
            },
    {
        let mut file = EnvironmentFile::empty(self.name().as_str());
        let mut new_secret = false;
        let ghost rows = rows_of(self.rows@);
        let mut i: usize = 0;
        while i < self.rows.len()
            invariant
                self.wf(),
                i <= self.rows.len(),
                rows == rows_of(self.rows@),
                file.wf(),
                file@ == rebuilt(self.current(), rows, self.loaded@, i as int),
                new_secret == (exists|j: int|
                    0 <= j < i && is_new_secret(#[trigger] self.rows[j]@, self.loaded@)),
            decreases self.rows.len() - i,
        {
            let row = &self.rows[i];
            let ghost before = file@;
            let key = strings::trim(row.name.text());
            proof {
                assert(rows[i as int] == row@);
                assert(key@ == row@.key());
            }
            if !key.as_str().is_empty() {
                let value = row.value.text().to_owned();
                if row.secret {
                    let was_secret = find(&self.loaded.local, key.as_str()).is_some();
                    if !was_secret {
                        new_secret = true;
                    } else {
                        match find(&self.loaded.committed, key.as_str()) {
                            Some(at) => {
                                let standin = self.loaded.committed[at].value.clone();
                                put(&mut file.committed, key.clone(), standin);
                            },
                            None => {},
                        }
                    }
                    put(&mut file.local, key, value);
                } else {
                    put(&mut file.committed, key, value);
                }
            }
            proof {
                assert(file@ =~= with_row(before, row@, self.loaded@));
                assert(is_new_secret(self.rows[i as int]@, self.loaded@) ==> new_secret);
            }
            i = i + 1;
        }
        if file.name == self.loaded.name && same_table(&file.committed, &self.loaded.committed)
            && same_table(&file.local, &self.loaded.local) {
            proof {
                assert(file@ =~= self.loaded@);
            }
            None
        } else {
            Some(Write { file, new_secret })
        }
    }

    /// Take what writing a file came to. What failed is said, and stays to be written.
    pub fn saved(&mut self, write: Write, outcome: Result<(), String>) -> (r: Option<EnvEvent>)
        requires
            old(self).wf(),
            write.file.wf(),
        ensures
            final(self).wf(),
            match outcome {
                Ok(_) => *final(self) == (EnvironmentPanel {
                    loaded: write.file,
                    message: None,
                    ..*old(self)
                }) && r == (if write.new_secret {
                    Some(EnvEvent::SecretWritten)
                } else {
                    None
                }),
                Err(error) => *final(self) == (EnvironmentPanel {
                    message: Some(error),
                    ..*old(self)
                }) && r is None,
            },
    {
        match outcome {
            Ok(_) => {
                self.loaded = write.file;
                self.message = None;
                if write.new_secret {
                    Some(EnvEvent::SecretWritten)
                } else {
                    None
                }
            },
            Err(error) => {
                self.message = Some(error);
                None
            },
        }
    }

    /// Where a step through the environments leads. Nowhere while one is being named. What is
    /// shown is saved before the step is taken.
    pub fn select(&self, delta: isize) -> (r: Option<usize>)
        requires
            self.wf(),
        ensures
            r == (if self.naming() {
                None
            } else {
                Some(
                    lists::wrapped(
                        self.selected as int,
                        delta as int,
                        self.names.len() as int,
                    ) as usize,
                )
            }),
            r matches Some(ix) ==> ix < self.names.len(),
    {
        if self.renaming.is_some() || self.creating.is_some() {
            None
        } else {
            Some(lists::wrap(self.selected, delta, self.names.len()))
        }
    }

    /// Where a click on an environment leads. Nowhere on the one that is shown.
    pub fn select_at(&self, ix: usize) -> (r: Option<usize>)
        ensures
            r == (if ix >= self.names.len() || ix == self.selected {
                None
            } else {
                Some(ix)
            }),
    {
        if ix >= self.names.len() || ix == self.selected {
            None
        } else {
            Some(ix)
        }
    }

    /// Go to an environment. Its rows come with `load`.
    pub fn show(&mut self, ix: usize)
        requires
            old(self).wf(),
            ix < old(self).names.len(),
        ensures
            final(self).wf(),
            *final(self) == (EnvironmentPanel { selected: ix, ..*old(self) }),
    {
        self.selected = ix;
    }

    /// Add an empty row, which is not a secret.
    pub fn add_variable(&mut self)
        requires
            old(self).wf(),
        ensures
            final(self).wf(),
            *final(self) == (EnvironmentPanel { rows: final(self).rows, ..*old(self) }),
            rows_of(final(self).rows@) == rows_of(old(self).rows@).push(
                fresh_row(Seq::empty(), Seq::empty(), false),
            ),
    {
        proof {
            reveal_strlit("");
            assert(""@ =~= Seq::<char>::empty());
        }
        self.rows.push(new_row("", "", false));
        proof {
            assert(rows_of(self.rows@) =~= rows_of(old(self).rows@).push(
                fresh_row(Seq::empty(), Seq::empty(), false),
            ));
        }
    }

    /// Take a row out. What is left is to be saved.
    pub fn remove_variable(&mut self, ix: usize) -> (r: bool)
        requires
            old(self).wf(),
        ensures
            final(self).wf(),
            r == (ix < old(self).rows.len()),
            *final(self) == (EnvironmentPanel { rows: final(self).rows, ..*old(self) }),
            final(self).rows@ == (if r {
                old(self).rows@.remove(ix as int)
            } else {
                old(self).rows@
            }),
    {
        if ix >= self.rows.len() {
            return false;
        }
        self.rows.remove(ix);
        true
    }

    /// Make a row a secret, or no secret. The table is then to be saved.
    pub fn toggle_secret(&mut self, ix: usize) -> (r: bool)
        requires
            old(self).wf(),
        ensures
            final(self).wf(),
            r == (ix < old(self).rows.len()),
            *final(self) == (EnvironmentPanel { rows: final(self).rows, ..*old(self) }),
            rows_of(final(self).rows@) == (if r {
                rows_of(old(self).rows@).update(
                    ix as int,
                    (RowView {
                        secret: !old(self).rows[ix as int].secret,
                        ..old(self).rows[ix as int]@
                    }),
                )
            } else {
                rows_of(old(self).rows@)
            }),
    {
        if ix >= self.rows.len() {
            return false;
        }
        let secret = self.rows[ix].secret;
        self.rows[ix].secret = !secret;
        proof {
            assert(rows_of(self.rows@) =~= rows_of(old(self).rows@).update(
                ix as int,
                RowView {
                    secret: !old(self).rows[ix as int].secret,
                    ..old(self).rows[ix as int]@
                },
            ));
            assert forall|i: int| 0 <= i < self.rows.len() implies #[trigger] self.rows[i]@.wf() by {
                assert(old(self).rows[i]@.wf());
            }
        }
        true
    }

    /// Open the box in which a new environment is named.
    pub fn start_new(&mut self)
        requires
            old(self).wf(),
        ensures
            final(self).wf(),
            *final(self) == (EnvironmentPanel {
                creating: final(self).creating,
                renaming: None,
                ..*old(self)
            }),
            final(self).creating matches Some(input) && input@ == text_input::fresh_input(
                Seq::empty(),
                "staging"@,
                "EnvRename"@,
            ),
    {
        proof {
            reveal_strlit("");
            assert(""@ =~= Seq::<char>::empty());
        }
        self.creating = Some(TextInput::new("", "staging", "EnvRename"));
        self.renaming = None;
    }

    /// Open the box in which the selected environment is renamed. `globals` is always active, and
    /// that is said instead.
    pub fn start_rename(&mut self)
        requires
            old(self).wf(),
        ensures
            final(self).wf(),
            if old(self).current() == GLOBALS@ {
                *final(self) == (EnvironmentPanel { message: final(self).message, ..*old(self) })
                    && strings::opt_text(final(self).message) == Some(
                    "globals is always active — it has no other name"@,
                )
            } else {
                *final(self) == (EnvironmentPanel {
                    renaming: final(self).renaming,
                    creating: None,
                    ..*old(self)
                }) && opens_on(final(self).renaming, old(self).current())
            },
    {
        if strings::same(self.name().as_str(), GLOBALS) {
            self.message = Some("globals is always active — it has no other name".to_owned());
            return;
        }
        let input = TextInput::new(self.name().as_str(), "name", "EnvRename");
        self.renaming = Some(input);
        self.creating = None;
    }

    /// The environment to be moved to the trash. `globals` is always active, and that is said
    /// instead.
    pub fn trash_selected(&mut self) -> (r: Option<String>)
        requires
            old(self).wf(),
        ensures
            final(self).wf(),
            if old(self).current() == GLOBALS@ {
                *final(self) == (EnvironmentPanel { message: final(self).message, ..*old(self) })
                    && strings::opt_text(final(self).message) == Some(
                    "globals is always active — it cannot be removed"@,
                ) && r is None
            } else {
                *final(self) == *old(self) && strings::opt_text(r) == Some(old(self).current())
            },
    {
        if strings::same(self.name().as_str(), GLOBALS) {
            self.message = Some("globals is always active — it cannot be removed".to_owned());
            return None;
        }
        Some(self.name().clone())
    }

    /// Take what moving an environment to the trash came to. Where it went, the environments are
    /// to be listed again.
    pub fn trashed(&mut self, name: String, outcome: Result<(), String>) -> (r: Option<EnvEvent>)
        requires
            old(self).wf(),
        ensures
            final(self).wf(),
            match outcome {
                Ok(_) => *final(self) == *old(self) && r == Some(EnvEvent::Removed(name)),
                Err(error) => *final(self) == (EnvironmentPanel {
                    message: Some(error),
                    ..*old(self)
                }) && r is None,
            },
    {
        match outcome {
            Ok(_) => Some(EnvEvent::Removed(name)),
            Err(error) => {
                self.message = Some(error);
                None
            },
        }
    }

    /// What the open name box asks for; nothing where none is open. The box stays open until
    /// `named` is told how it went.
    pub fn confirm(&self) -> (r: Option<Naming>)
        requires
            self.wf(),
        ensures
            r is Some <==> self.naming(),
            match self.creating {
                Some(input) => r matches Some(Naming::Create { label }) && label@
                    == input@.surface.text,
                None => self.renaming matches Some(input) ==> (r matches Some(
                    Naming::Rename { from, label },
                ) && from@ == self.current() && label@ == input@.surface.text),
            },
    {
        match &self.creating {
            Some(input) => {
                return Some(Naming::Create { label: input.text().to_owned() });
            },
            None => {},
        }
        match &self.renaming {
            Some(input) => Some(
                Naming::Rename { from: self.name().clone(), label: input.text().to_owned() },
            ),
            None => None,
        }
    }

    /// Take what creating or renaming came to: the name that it has now, on which the
    /// environments are to be listed again, or what went wrong, which is said with the box still
    /// open.
    pub fn named(&mut self, naming: Naming, outcome: Result<String, String>) -> (r: (
        Option<EnvEvent>,
        Option<String>,
    ))
        requires
            old(self).wf(),
        ensures
            final(self).wf(),
            match outcome {
                Ok(to) => *final(self) == *old(self) && strings::opt_text(r.1) == Some(to@) && (
                match naming {
                    Naming::Create { label } => r.0 is None,
                    Naming::Rename { from, label } => r.0 matches Some(
                        EnvEvent::Renamed { from: was, to: is },
                    ) && was == from && is@ == to@,
                }),
                Err(error) => *final(self) == (EnvironmentPanel {
                    message: Some(error),
                    ..*old(self)
                }) && r.0 is None && r.1 is None,
            },
    {
        match outcome {
            Ok(to) => {
                let event = match naming {
                    Naming::Create { label: _ } => None,
                    Naming::Rename { from, label: _ } => Some(
                        EnvEvent::Renamed { from, to: to.clone() },
                    ),
                };
                (event, Some(to))
            },
            Err(error) => {
                self.message = Some(error);
                (None, None)
            },
        }
    }

    /// Close the open name box. Whether there was one, so that the key that closes it can go on
    /// to close the editor where there was none.
    pub fn cancel(&mut self) -> (r: bool)
        requires
            old(self).wf(),
        ensures
            final(self).wf(),
            r == old(self).naming(),
            *final(self) == (if old(self).renaming is Some {
                (EnvironmentPanel { renaming: None, ..*old(self) })
            } else {
                (EnvironmentPanel { creating: None, ..*old(self) })
            }),
    {
        if self.renaming.is_some() {
            self.renaming = None;
            true
        } else if self.creating.is_some() {
            self.creating = None;
            true
        } else {
            false
        }
    }

    /// List the environments again, on the one that is given or else on the same as before. Its
    /// rows come with `load`.
    pub fn rescan(&mut self, select: Option<String>, scanned: Vec<String>)
        requires
            old(self).wf(),
        ensures
            final(self).wf(),
            *final(self) == (EnvironmentPanel {
                names: final(self).names,
                selected: final(self).selected,
                renaming: None,
                creating: None,
                message: None,
                ..*old(self)
            }),
            strings::texts(final(self).names@) == listed(scanned@),
            final(self).selected == place(
                listed(scanned@),
                Some(match select {
                    Some(name) => name@,
                    None => old(self).current(),
                }),
            ),
    {
        let wanted = match select {
            Some(name) => name,
            None => self.name().clone(),
        };
        self.names = list(scanned);
        self.selected = position(&self.names, Some(wanted.as_str()));
        self.renaming = None;
        self.creating = None;
        self.message = None;
    }

    /// Whether the selected environment can be renamed and removed.
    pub fn is_editable(&self) -> (r: bool)
        requires
            self.wf(),
        ensures
            r == (self.current() != GLOBALS@),
    {
        !strings::same(self.name().as_str(), GLOBALS)
    }
}

/// Whether a box is open on a name.
pub open spec fn opens_on(input: Option<TextInput>, name: Seq<char>) -> bool {
    input matches Some(open) && open@ == text_input::fresh_input(name, "name"@, "EnvRename"@)
}

/// What is said of a row's lock.
pub fn secret_hint(secret: bool) -> (r: &'static str)
    ensures
        r@ == (if secret {
            "Secret — kept in the gitignored file"@
        } else {
            "Committed with the collection"@
        }),
{
    if secret {
        "Secret — kept in the gitignored file"
    } else {
        "Committed with the collection"
    }
}

/// No row that is not a secret has a name.
pub open spec fn only_secret(rows: Seq<RowView>, key: Seq<char>) -> bool {
    forall|i: int| 0 <= i < rows.len() && #[trigger] rows[i].key() == key ==> rows[i].secret
}

proof fn lemma_standin(name: Seq<char>, rows: Seq<RowView>, loaded: FileView, key: Seq<char>, n: int)
    requires
        only_secret(rows, key),
        0 <= n <= rows.len(),
    ensures
        rebuilt(name, rows, loaded, n).committed.contains_key(key) ==> loaded.local.contains_key(
            key,
        ) && loaded.committed.contains_key(key) && rebuilt(name, rows, loaded, n).committed[key]
            == loaded.committed[key],
    decreases n,
{
    if n > 0 {
        lemma_standin(name, rows, loaded, key, n - 1);
        assert(rows[n - 1].key() == key ==> rows[n - 1].secret);
    }
}

/// What is made a secret leaves the committed file: where every row of a name is a secret, and
/// the name was none before, nothing is committed under it.
pub proof fn a_new_secret_is_not_committed(panel: EnvironmentPanel, key: Seq<char>)
    requires
        only_secret(rows_of(panel.rows@), key),
        !panel.loaded@.local.contains_key(key),
    ensures
        !panel.edited().committed.contains_key(key),
{
    lemma_standin(
        panel.current(),
        rows_of(panel.rows@),
        panel.loaded@,
        key,
        panel.rows.len() as int,
    );
}

/// What a secret holds is not committed: where every row of a name is a secret, all that is
/// committed under it is the stand-in that was there.
pub proof fn a_secret_commits_only_its_stand_in(panel: EnvironmentPanel, key: Seq<char>)
    requires
        only_secret(rows_of(panel.rows@), key),
        panel.edited().committed.contains_key(key),
    ensures
        panel.loaded@.committed.contains_key(key),
        panel.edited().committed[key] == panel.loaded@.committed[key],
{
    lemma_standin(
        panel.current(),
        rows_of(panel.rows@),
        panel.loaded@,
        key,
        panel.rows.len() as int,
    );
}

proof fn lemma_standin_stays(
    name: Seq<char>,
    rows: Seq<RowView>,
    loaded: FileView,
    at: int,
    n: int,
)
    requires
        0 <= at < n <= rows.len(),
        rows[at].key().len() > 0,
        only_secret(rows, rows[at].key()),
        loaded.local.contains_key(rows[at].key()),
        loaded.committed.contains_key(rows[at].key()),
    ensures
        rebuilt(name, rows, loaded, n).committed.contains_key(rows[at].key()),
        rebuilt(name, rows, loaded, n).committed[rows[at].key()]
            == loaded.committed[rows[at].key()],
    decreases n,
{
    assert(rows[n - 1].key() == rows[at].key() ==> rows[n - 1].secret);
    if at < n - 1 {
        lemma_standin_stays(name, rows, loaded, at, n - 1);
    }
}

/// A secret that stays one keeps its committed stand-in, whatever is typed for it.
pub proof fn a_stand_in_survives(panel: EnvironmentPanel, at: int)
    requires
        0 <= at < panel.rows.len(),
        panel.rows[at]@.key().len() > 0,
        only_secret(rows_of(panel.rows@), panel.rows[at]@.key()),
        panel.loaded@.local.contains_key(panel.rows[at]@.key()),
        panel.loaded@.committed.contains_key(panel.rows[at]@.key()),
    ensures
        panel.edited().committed.contains_key(panel.rows[at]@.key()),
        panel.edited().committed[panel.rows[at]@.key()]
            == panel.loaded@.committed[panel.rows[at]@.key()],
{
    assert(rows_of(panel.rows@)[at] == panel.rows[at]@);
    lemma_standin_stays(
        panel.current(),
        rows_of(panel.rows@),
        panel.loaded@,
        at,
        panel.rows.len() as int,
    );
}

/// Whether a list is what an environment's two files together give: each name once, with the
/// secret value where there is one.
pub open spec fn resolves(resolved: Seq<Resolved>, file: FileView) -> bool {
    &&& forall|i: int, j: int|
        0 <= i < j < resolved.len() ==> #[trigger] resolved[i].name@ != #[trigger] resolved[j].name@
    &&& forall|i: int|
        0 <= i < resolved.len() ==> {
            let var = #[trigger] resolved[i];
            if var.secret {
                file.local.contains_key(var.name@) && file.local[var.name@] == var.value@
            } else {
                !file.local.contains_key(var.name@) && file.committed.contains_key(var.name@)
                    && file.committed[var.name@] == var.value@
            }
        }
    &&& forall|key: Seq<char>|
        #![trigger file.local.contains_key(key)]
        #![trigger file.committed.contains_key(key)]
        file.local.contains_key(key) || file.committed.contains_key(key) ==> exists|i: int|
            0 <= i < resolved.len() && #[trigger] resolved[i].name@ == key
}

/// Whether a variable can be shown as it is: its name has no space around it and is not empty,
/// and neither part has a line break, which a box of one line would make a space.
pub open spec fn fits_a_row(var: Resolved) -> bool {
    &&& text_input::single_line(var.name@) == var.name@
    &&& text_input::single_line(var.value@) == var.value@
    &&& strings::trimmed(var.name@) == var.name@
    &&& var.name@.len() > 0
}

proof fn lemma_rebuilt(
    name: Seq<char>,
    resolved: Seq<Resolved>,
    file: FileView,
    n: int,
    key: Seq<char>,
)
    requires
        resolves(resolved, file),
        forall|i: int| 0 <= i < resolved.len() ==> fits_a_row(#[trigger] resolved[i]),
        0 <= n <= resolved.len(),
    ensures
        ({
            let made = rebuilt(name, opened(resolved), file, n);
            let shown = exists|i: int| 0 <= i < n && #[trigger] resolved[i].name@ == key;
            &&& made.name == name
            &&& made.committed.contains_key(key) <==> shown && file.committed.contains_key(key)
            &&& made.local.contains_key(key) <==> shown && file.local.contains_key(key)
            &&& made.committed.contains_key(key) ==> made.committed[key] == file.committed[key]
            &&& made.local.contains_key(key) ==> made.local[key] == file.local[key]
        }),
    decreases n,
{
    if n > 0 {
        lemma_rebuilt(name, resolved, file, n - 1, key);
        let var = resolved[n - 1];
        let row = opened(resolved)[n - 1];
        assert(fits_a_row(var));
        assert(row.key() == var.name@);
        assert(row.text() == var.value@);
        if var.name@ == key {
            assert(resolved[n - 1].name@ == key);
        } else {
            assert forall|i: int| 0 <= i < n && #[trigger] resolved[i].name@ == key implies i < n
                - 1 by {}
        }
    }
}

/// An environment that is opened and left as it was has nothing to write.
pub proof fn looking_changes_nothing(panel: EnvironmentPanel, resolved: Seq<Resolved>)
    requires
        panel.loaded@.name == panel.current(),
        resolves(resolved, panel.loaded@),
        forall|i: int| 0 <= i < resolved.len() ==> fits_a_row(#[trigger] resolved[i]),
        rows_of(panel.rows@) == opened(resolved),
    ensures
        panel.edited() == panel.loaded@,
{
    let name = panel.current();
    let file = panel.loaded@;
    let n = resolved.len() as int;
    let made = rebuilt(name, opened(resolved), file, n);
    assert(panel.rows.len() == rows_of(panel.rows@).len());
    assert forall|key: Seq<char>|
        made.committed.contains_key(key) == #[trigger] file.committed.contains_key(key) && (
        file.committed.contains_key(key) ==> made.committed[key] == file.committed[key]) by {
        lemma_rebuilt(name, resolved, file, n, key);
    }
    assert forall|key: Seq<char>|
        made.local.contains_key(key) == #[trigger] file.local.contains_key(key) && (
        file.local.contains_key(key) ==> made.local[key] == file.local[key]) by {
        lemma_rebuilt(name, resolved, file, n, key);
    }
    lemma_rebuilt(name, resolved, file, n, name);
    assert(made.committed =~= file.committed);
    assert(made.local =~= file.local);
    assert(made =~= file);
}

proof fn lemma_local_written(
    name: Seq<char>,
    rows: Seq<RowView>,
    loaded: FileView,
    n: int,
    key: Seq<char>,
)
    requires
        0 <= n <= rows.len(),
    ensures
        ({
            let made = rebuilt(name, rows, loaded, n);
            &&& made.name == name
            &&& made.local.contains_key(key) ==> exists|i: int|
                0 <= i < n && #[trigger] names_secret(rows, i, key) && made.local[key]
                    == rows[i].value.surface.text
            &&& forall|i: int|
                0 <= i < n && #[trigger] names_secret(rows, i, key) && (forall|j: int|
                    i < j < n ==> !#[trigger] names_secret(rows, j, key))
                    ==> made.local.contains_key(key) && made.local[key]
                    == rows[i].value.surface.text
        }),
    decreases n,
{
    if n > 0 {
        lemma_local_written(name, rows, loaded, n - 1, key);
        let before = rebuilt(name, rows, loaded, n - 1);
        let made = rebuilt(name, rows, loaded, n);
        let last = n - 1;
        if names_secret(rows, last, key) {
            assert(rows[last].key() == key);
            assert(made.local[key] == rows[last].value.surface.text);
        } else {
            assert(made.local.contains_key(key) == before.local.contains_key(key));
            assert(made.local.contains_key(key) ==> made.local[key] == before.local[key]);
            assert forall|i: int|
                0 <= i < n && #[trigger] names_secret(rows, i, key) && (forall|j: int|
                    i < j < n ==> !#[trigger] names_secret(rows, j, key)) implies i < last && (
            forall|j: int| i < j < last ==> !#[trigger] names_secret(rows, j, key)) by {}
        }
    }
}

proof fn lemma_committed_written(
    name: Seq<char>,
    rows: Seq<RowView>,
    loaded: FileView,
    n: int,
    key: Seq<char>,
)
    requires
        0 <= n <= rows.len(),
    ensures
        ({
            let made = rebuilt(name, rows, loaded, n);
            &&& made.committed.contains_key(key) ==> exists|i: int|
                0 <= i < n && ((#[trigger] names_plain(rows, i, key) && made.committed[key]
                    == rows[i].value.surface.text) || (names_secret(rows, i, key)
                    && made.committed[key] == loaded.committed[key]))
            &&& forall|i: int|
                0 <= i < n && #[trigger] names_plain(rows, i, key) && (forall|j: int|
                    i < j < n ==> !#[trigger] names_plain(rows, j, key) && !names_secret(rows, j, key))
                    ==> made.committed.contains_key(key) && made.committed[key]
                    == rows[i].value.surface.text
        }),
    decreases n,
{
    if n > 0 {
        lemma_committed_written(name, rows, loaded, n - 1, key);
        let before = rebuilt(name, rows, loaded, n - 1);
        let made = rebuilt(name, rows, loaded, n);
        let last = n - 1;
        if names_plain(rows, last, key) {
            assert(rows[last].key() == key);
            assert(made.committed[key] == rows[last].value.surface.text);
        } else if names_secret(rows, last, key) {
            assert(rows[last].key() == key);
            if made.committed.contains_key(key) {
                if loaded.local.contains_key(key) && loaded.committed.contains_key(key) {
                    assert(!names_plain(rows, last, key));
                    assert(made.committed[key] == loaded.committed[key]);
                } else {
                    assert(made.committed == before.committed);
                }
            }
        } else {
            assert(made.committed.contains_key(key) == before.committed.contains_key(key));
            assert(made.committed.contains_key(key) ==> made.committed[key]
                == before.committed[key]);
        }
        assert forall|i: int|
            0 <= i < n && #[trigger] names_plain(rows, i, key) && (forall|j: int|
                i < j < n ==> !#[trigger] names_plain(rows, j, key) && !names_secret(rows, j, key)) implies made.committed.contains_key(
            key,
        ) && made.committed[key] == rows[i].value.surface.text by {
            if i < last {
                assert(!names_plain(rows, last, key) && !names_secret(rows, last, key));
                assert(forall|j: int|
                    i < j < last ==> !#[trigger] names_plain(rows, j, key) && !names_secret(
                        rows,
                        j,
                        key,
                    ));
            }
        }
    }
}

/// Row `i` gives `key` a value that is committed.
pub open spec fn names_plain(rows: Seq<RowView>, i: int, key: Seq<char>) -> bool {
    &&& key.len() > 0
    &&& strings::trimmed(rows[i].name.surface.text) == key
    &&& !rows[i].secret
}

/// Row `i` gives `key` a value that is kept out of sight.
pub open spec fn names_secret(rows: Seq<RowView>, i: int, key: Seq<char>) -> bool {
    &&& key.len() > 0
    &&& strings::trimmed(rows[i].name.surface.text) == key
    &&& rows[i].secret
}

/// A row that is not a secret is committed under its name, new or not, and the last row of a name
/// is the one that counts.
pub proof fn a_plain_row_is_committed(panel: EnvironmentPanel, at: int)
    requires
        0 <= at < panel.rows.len(),
        !panel.rows[at].secret,
        strings::trimmed(panel.rows[at].name@.surface.text).len() > 0,
        forall|j: int|
            at < j < panel.rows.len() ==> strings::trimmed(
                (#[trigger] panel.rows[j]).name@.surface.text,
            ) != strings::trimmed(panel.rows[at].name@.surface.text),
    ensures
        panel.edited().committed.contains_key(
            strings::trimmed(panel.rows[at].name@.surface.text),
        ),
        panel.edited().committed[strings::trimmed(panel.rows[at].name@.surface.text)]
            == panel.rows[at].value@.surface.text,
{
    let rows = rows_of(panel.rows@);
    let key = strings::trimmed(panel.rows[at].name@.surface.text);
    lemma_committed_written(panel.current(), rows, panel.loaded@, panel.rows.len() as int, key);
    assert(names_plain(rows, at, key));
    assert forall|j: int| at < j < panel.rows.len() implies !#[trigger] names_plain(rows, j, key)
        && !names_secret(rows, j, key) by {
        assert(rows[j] == panel.rows[j]@);
    }
}

/// A secret is kept under its name in the file that is not committed, and the last secret of a
/// name is the one that counts.
pub proof fn a_secret_row_is_kept_apart(panel: EnvironmentPanel, at: int)
    requires
        0 <= at < panel.rows.len(),
        panel.rows[at].secret,
        strings::trimmed(panel.rows[at].name@.surface.text).len() > 0,
        forall|j: int|
            at < j < panel.rows.len() && (#[trigger] panel.rows[j]).secret ==> strings::trimmed(
                panel.rows[j].name@.surface.text,
            ) != strings::trimmed(panel.rows[at].name@.surface.text),
    ensures
        panel.edited().local.contains_key(strings::trimmed(panel.rows[at].name@.surface.text)),
        panel.edited().local[strings::trimmed(panel.rows[at].name@.surface.text)]
            == panel.rows[at].value@.surface.text,
{
    let rows = rows_of(panel.rows@);
    let key = strings::trimmed(panel.rows[at].name@.surface.text);
    lemma_local_written(panel.current(), rows, panel.loaded@, panel.rows.len() as int, key);
    assert(names_secret(rows, at, key));
    assert forall|j: int| at < j < panel.rows.len() implies !#[trigger] names_secret(
        rows,
        j,
        key,
    ) by {
        assert(rows[j] == panel.rows[j]@);
    }
}

/// Nothing is written but what a row says: a name in either file has a row, which is a secret
/// where it is in the file of secrets, and what is committed is what a row that is not a secret
/// says, or the stand-in that a secret already had. A row that was taken out is gone from both,
/// and a row without a name never was in them.
pub proof fn only_what_a_row_says_is_written(panel: EnvironmentPanel, key: Seq<char>)
    ensures
        panel.edited().name == panel.names[panel.selected as int]@,
        panel.edited().local.contains_key(key) ==> exists|i: int|
            0 <= i < panel.rows.len() && key.len() > 0 && (#[trigger] panel.rows[i]).secret
                && strings::trimmed(panel.rows[i].name@.surface.text) == key
                && panel.edited().local[key] == panel.rows[i].value@.surface.text,
        panel.edited().committed.contains_key(key) ==> exists|i: int|
            0 <= i < panel.rows.len() && key.len() > 0 && strings::trimmed(
                (#[trigger] panel.rows[i]).name@.surface.text,
            ) == key && panel.edited().committed[key] == (if panel.rows[i].secret {
                panel.loaded@.committed[key]
            } else {
                panel.rows[i].value@.surface.text
            }),
{
    let rows = rows_of(panel.rows@);
    let n = panel.rows.len() as int;
    let made = panel.edited();
    lemma_local_written(panel.current(), rows, panel.loaded@, n, key);
    lemma_committed_written(panel.current(), rows, panel.loaded@, n, key);
    if made.local.contains_key(key) {
        let i = choose|i: int|
            0 <= i < n && #[trigger] names_secret(rows, i, key) && made.local[key]
                == rows[i].value.surface.text;
        assert(rows[i] == panel.rows[i]@);
    }
    if made.committed.contains_key(key) {
        let i = choose|i: int|
            0 <= i < n && ((#[trigger] names_plain(rows, i, key) && made.committed[key]
                == rows[i].value.surface.text) || (names_secret(rows, i, key)
                && made.committed[key] == panel.loaded@.committed[key]));
        assert(rows[i] == panel.rows[i]@);
    }
}

/// A secret counts as new exactly where the file of secrets gains a name.
pub proof fn a_new_secret_is_a_new_name_among_the_secrets(panel: EnvironmentPanel)
    ensures
        (exists|i: int|
            0 <= i < panel.rows.len() && is_new_secret(#[trigger] panel.rows[i]@, panel.loaded@))
            <==> (exists|key: Seq<char>| #[trigger]
            panel.edited().local.contains_key(key) && !panel.loaded@.local.contains_key(key)),
{
    let rows = rows_of(panel.rows@);
    let n = panel.rows.len() as int;
    if exists|i: int|
        0 <= i < panel.rows.len() && is_new_secret(#[trigger] panel.rows[i]@, panel.loaded@) {
        let i = choose|i: int|
            0 <= i < panel.rows.len() && is_new_secret(#[trigger] panel.rows[i]@, panel.loaded@);
        let key = panel.rows[i]@.key();
        assert(rows[i] == panel.rows[i]@);
        assert(names_secret(rows, i, key));
        lemma_last_secret(rows, i, n, key);
        let last = choose|k: int|
            i <= k < n && names_secret(rows, k, key) && (forall|j: int|
                k < j < n ==> !#[trigger] names_secret(rows, j, key));
        lemma_local_written(panel.current(), rows, panel.loaded@, n, key);
        assert(names_secret(rows, last, key));
        assert(panel.edited().local.contains_key(key));
    }
    if exists|key: Seq<char>| #[trigger]
        panel.edited().local.contains_key(key) && !panel.loaded@.local.contains_key(key) {
        let key = choose|key: Seq<char>| #[trigger]
            panel.edited().local.contains_key(key) && !panel.loaded@.local.contains_key(key);
        lemma_local_written(panel.current(), rows, panel.loaded@, n, key);
        let i = choose|i: int|
            0 <= i < n && #[trigger] names_secret(rows, i, key) && panel.edited().local[key]
                == rows[i].value.surface.text;
        assert(rows[i] == panel.rows[i]@);
        assert(is_new_secret(panel.rows[i]@, panel.loaded@));
    }
}

proof fn lemma_last_secret(rows: Seq<RowView>, i: int, n: int, key: Seq<char>)
    requires
        0 <= i < n <= rows.len(),
        names_secret(rows, i, key),
    ensures
        exists|k: int|
            i <= k < n && #[trigger] names_secret(rows, k, key) && (forall|j: int|
                k < j < n ==> !#[trigger] names_secret(rows, j, key)),
    decreases n - i,
{
    if exists|j: int| i < j < n && #[trigger] names_secret(rows, j, key) {
        let j = choose|j: int| i < j < n && #[trigger] names_secret(rows, j, key);
        lemma_last_secret(rows, j, n, key);
    }
}

/// An environment that is wanted by name is the one that is gone to, and where there is none of
/// that name, or none is wanted, it is the first listed.
pub proof fn a_wanted_environment_is_gone_to(names: Seq<Seq<char>>, name: Seq<char>)
    ensures
        names.contains(name) ==> 0 <= place(names, Some(name)) < names.len() && names[place(
            names,
            Some(name),
        )] == name,
        forall|i: int| 0 <= i < place(names, Some(name)) ==> #[trigger] names[i] != name,
        !names.contains(name) ==> place(names, Some(name)) == 0,
        place(names, None) == 0,
{
    lists::lemma_first_at(names, name, 0);
    lists::nothing_is_found_later_than_it_stands(names, name, 0);
    let at = lists::first_at(names, name, 0);
    if at < names.len() {
        assert(names.contains(names[at]));
    }
    if names.contains(name) {
        let k = names.index_of(name);
        assert(names[k] == name);
    }
}

/// The environment that is always active is listed first, and after it every other in the order
/// it was found.
pub proof fn every_environment_is_listed(scanned: Seq<String>, i: int)
    ensures
        listed(scanned).len() == scanned.len() + 1,
        listed(scanned)[0] == "globals"@,
        0 <= i < scanned.len() ==> listed(scanned)[i + 1] == scanned[i]@,
{
}

/// A table opens with a row for each variable, in order, that holds its name and its value and is
/// locked where it is a secret.
pub proof fn a_table_opens_on_each_variable(resolved: Seq<Resolved>, i: int)
    requires
        0 <= i < resolved.len(),
        text_input::is_single_line(resolved[i].name@),
        text_input::is_single_line(resolved[i].value@),
    ensures
        opened(resolved).len() == resolved.len(),
        opened(resolved)[i].name.surface.text == resolved[i].name@,
        opened(resolved)[i].value.surface.text == resolved[i].value@,
        opened(resolved)[i].secret == resolved[i].secret,
{
    text_input::lemma_single_line_stays(resolved[i].name@);
    text_input::lemma_single_line_stays(resolved[i].value@);
}

/// A list of variables gives each name its last value, and no name that is not in it.
pub proof fn a_table_gives_each_name_its_last_value(vars: Seq<Variable>, key: Seq<char>)
    ensures
        table_of(vars).contains_key(key) <==> exists|i: int|
            0 <= i < vars.len() && (#[trigger] vars[i]).name@ == key,
        forall|i: int|
            0 <= i < vars.len() && (#[trigger] vars[i]).name@ == key && (forall|j: int|
                i < j < vars.len() ==> (#[trigger] vars[j]).name@ != key) ==> table_of(vars)[key]
                == vars[i].value@,
    decreases vars.len(),
{
    if vars.len() > 0 {
        let front = vars.drop_last();
        let n = vars.len() - 1;
        a_table_gives_each_name_its_last_value(front, key);
        assert(vars[n] == vars.last());
        if exists|i: int| 0 <= i < front.len() && (#[trigger] front[i]).name@ == key {
            let i = choose|i: int| 0 <= i < front.len() && (#[trigger] front[i]).name@ == key;
            assert(vars[i].name@ == key);
        }
        if exists|i: int| 0 <= i < vars.len() && (#[trigger] vars[i]).name@ == key {
            let i = choose|i: int| 0 <= i < vars.len() && (#[trigger] vars[i]).name@ == key;
            if i < n {
                assert(front[i].name@ == key);
            }
        }
        assert forall|i: int|
            0 <= i < vars.len() && (#[trigger] vars[i]).name@ == key && (forall|j: int|
                i < j < vars.len() ==> (#[trigger] vars[j]).name@ != key) implies table_of(
            vars,
        )[key] == vars[i].value@ by {
            if i < n {
                assert(front[i] == vars[i]);
                assert(vars[n].name@ != key);
                assert forall|j: int| i < j < front.len() implies (#[trigger] front[j]).name@
                    != key by {
                    assert(front[j] == vars[j]);
                }
            }
        }
    }
}

} // verus!
