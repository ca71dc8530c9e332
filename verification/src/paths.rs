//! File paths as text, with `/` between their components.

use crate::strings;
use vstd::prelude::*;
use vstd::string::*;

verus! {

/// Whether a path starts at the root.
pub open spec fn is_absolute(path: Seq<char>) -> bool {
    path.len() > 0 && path[0] == '/'
}

/// Whether part `i` of a path split at its slashes is a component: it is not empty, and it is not
/// a `.` unless the path begins with it.
pub open spec fn is_component(parts: Seq<Seq<char>>, i: int) -> bool {
    &&& parts[i].len() > 0
    &&& parts[i] == seq!['.'] ==> i == 0
}

/// The components among the first `n` parts of a path split at its slashes.
pub open spec fn components_before(parts: Seq<Seq<char>>, n: int) -> Seq<Seq<char>>
    decreases n,
{
    if n <= 0 {
        Seq::empty()
    } else if is_component(parts, n - 1) {
        components_before(parts, n - 1).push(parts[n - 1])
    } else {
        components_before(parts, n - 1)
    }
}

/// The components of a path. Repeated and trailing slashes separate nothing.
pub open spec fn components_of(path: Seq<char>) -> Seq<Seq<char>> {
    let parts = strings::split_on(path, '/');
    components_before(parts, parts.len() as int)
}

/// Whether two paths have the same components and both or neither start at the root.
pub open spec fn same(a: Seq<char>, b: Seq<char>) -> bool {
    &&& is_absolute(a) == is_absolute(b)
    &&& components_of(a) == components_of(b)
}

/// The last component, unless there is none or it is `.` or `..`.
pub open spec fn file_name_of(path: Seq<char>) -> Option<Seq<char>> {
    let all = components_of(path);
    if all.len() == 0 || all.last() == seq!['.', '.'] || all.last() == seq!['.'] {
        None
    } else {
        Some(all.last())
    }
}

/// `base` with `part` after it. A part that starts at the root replaces the base.
pub open spec fn joined(base: Seq<char>, part: Seq<char>) -> Seq<char> {
    if is_absolute(part) {
        part
    } else if base.len() == 0 || base.last() == '/' {
        base + part
    } else {
        base.push('/') + part
    }
}

/// The components of `path`.
pub fn components(path: &str) -> (r: Vec<String>)
    ensures
        strings::texts(r@) == components_of(path@),
{
    let parts = strings::split(path, '/');
    let ghost views = strings::texts(parts@);
    let mut r: Vec<String> = Vec::new();
    let mut i: usize = 0;
    proof {
        reveal_strlit(".");
        assert("."@ =~= seq!['.']);
        assert(strings::texts(r@) =~= components_before(views, 0));
    }
    while i < parts.len()
        invariant
            i <= parts.len(),
            views == strings::texts(parts@),
            "."@ == seq!['.'],
            strings::texts(r@) == components_before(views, i as int),
        decreases parts.len() - i,
    {
        let ghost held = r@;
        proof {
            assert(views[i as int] == parts[i as int]@);
        }
        if !parts[i].as_str().is_empty() && (i == 0 || !strings::same(parts[i].as_str(), ".")) {
            r.push(parts[i].clone());
            proof {
                assert(strings::texts(r@) =~= strings::texts(held).push(views[i as int]));
            }
        }
        i = i + 1;
    }
    r
}

/// Whether `path` starts at the root.
pub fn absolute(path: &str) -> (r: bool)
    ensures
        r == is_absolute(path@),
{
    proof {
        reveal_strlit("/");
        assert("/"@ =~= seq!['/']);
        if path@.len() > 0 {
            assert(path@.subrange(0, 1) =~= seq![path@[0]]);
            assert(path@.subrange(0, 1)[0] == path@[0]);
            assert("/"@[0] == '/');
        }
    }
    strings::starts_with(path, "/")
}

/// Whether `a` and `b` are the same path, however they are spelled.
pub fn same_path(a: &str, b: &str) -> (r: bool)
    ensures
        r == same(a@, b@),
{
    absolute(a) == absolute(b) && strings::same_texts(&components(a), &components(b))
}

/// The last component of `path`, unless there is none or it is `.` or `..`.
pub fn file_name(path: &str) -> (r: Option<String>)
    ensures
        strings::opt_text(r) == file_name_of(path@),
{
    let mut all = components(path);
    let ghost views = components_of(path@);
    proof {
        reveal_strlit(".");
        reveal_strlit("..");
        assert(".."@ =~= seq!['.', '.']);
        assert("."@ =~= seq!['.']);
        assert(views.len() == all.len());
        if all.len() > 0 {
            assert(views.last() == all@.last()@);
        }
    }
    match all.pop() {
        Some(last) => {
            if strings::same(last.as_str(), "..") || strings::same(last.as_str(), ".") {
                None
            } else {
                Some(last)
            }
        },
        None => None,
    }
}

/// `base` with `part` after it. A part that starts at the root replaces the base.
pub fn join(base: &str, part: &str) -> (r: String)
    ensures
        r@ == joined(base@, part@),
{
    if absolute(part) {
        return part.to_owned();
    }
    let chars = crate::text::chars_of(base);
    let mut r = base.to_owned();
    if chars.len() > 0 && chars[chars.len() - 1] != '/' {
        r.push('/');
    }
    r.append(part);
    r
}

/// A path without a slash is one component, and the empty path has none. What follows a slash is
/// one more; nothing follows where that is empty or a `.`, so repeated and trailing slashes
/// separate nothing.
pub proof fn a_slash_begins_a_component(base: Seq<char>, name: Seq<char>)
    requires
        !name.contains('/'),
    ensures
        name.len() > 0 ==> components_of(name) == seq![name],
        components_of(Seq::empty()) == Seq::<Seq<char>>::empty(),
        name.len() > 0 && name != seq!['.'] ==> components_of(base.push('/') + name)
            == components_of(base).push(name),
        name.len() == 0 || name == seq!['.'] ==> components_of(base.push('/') + name)
            == components_of(base),
{
    strings::lemma_split_plain(name, '/');
    strings::lemma_split_plain(Seq::empty(), '/');
    reveal_with_fuel(components_before, 2);
    assert(components_of(Seq::<char>::empty()) =~= Seq::<Seq<char>>::empty());
    if name.len() > 0 {
        assert(components_of(name) =~= seq![name]);
    }
    strings::lemma_split_append(base, name, '/');
    strings::lemma_split_is_not_empty(base, '/');
    let parts = strings::split_on(base, '/');
    let all = strings::split_on(base.push('/') + name, '/');
    assert(all == parts.push(name));
    lemma_components_of_a_prefix(all, parts, parts.len() as int);
    assert(all[parts.len() as int] == name);
}

proof fn lemma_components_of_a_prefix(all: Seq<Seq<char>>, parts: Seq<Seq<char>>, n: int)
    requires
        0 <= n <= parts.len(),
        n <= all.len(),
        forall|i: int| 0 <= i < n ==> #[trigger] all[i] == parts[i],
    ensures
        components_before(all, n) == components_before(parts, n),
    decreases n,
{
    if n > 0 {
        lemma_components_of_a_prefix(all, parts, n - 1);
        assert(all[n - 1] == parts[n - 1]);
    }
}

/// Paths are the same where they differ in repeated or trailing slashes alone, and never where one
/// starts at the root and the other does not, or where they end in different names.
pub proof fn only_the_spelling_of_a_path_is_overlooked(
    base: Seq<char>,
    other: Seq<char>,
    a: Seq<char>,
    b: Seq<char>,
)
    requires
        !a.contains('/') && a.len() > 0 && a != seq!['.'],
        !b.contains('/') && b.len() > 0 && b != seq!['.'],
    ensures
        same(base, base),
        same(base, other) == same(other, base),
        base.len() > 0 ==> same(base.push('/'), base),
        same(base.push('/').push('/') + a, base.push('/') + a),
        same(base, other) ==> is_absolute(base) == is_absolute(other),
        same(base.push('/') + a, base.push('/') + b) ==> a == b,
{
    assert(!Seq::<char>::empty().contains('/'));
    a_slash_begins_a_component(base, Seq::empty());
    assert(base.push('/') + Seq::<char>::empty() =~= base.push('/'));
    a_slash_begins_a_component(base.push('/'), a);
    a_slash_begins_a_component(base, a);
    a_slash_begins_a_component(base, b);
    assert((base.push('/').push('/') + a)[0] == (base.push('/') + a)[0]) by {
        if base.len() > 0 {
            assert((base.push('/').push('/') + a)[0] == base[0]);
            assert((base.push('/') + a)[0] == base[0]);
        }
    }
    if base.len() > 0 {
        assert(base.push('/')[0] == base[0]);
    }
    if components_of(base).push(a) == components_of(base).push(b) {
        assert(components_of(base).push(a).last() == a);
        assert(components_of(base).push(b).last() == b);
    }
}

/// The name of a file is what follows the last slash, a trailing slash aside; a path that goes up
/// or ends nowhere has none.
pub proof fn a_file_is_named_by_what_follows_the_last_slash(base: Seq<char>, name: Seq<char>)
    requires
        !name.contains('/'),
        name.len() > 0,
        name != seq!['.'],
    ensures
        name != seq!['.', '.'] ==> file_name_of(base.push('/') + name) == Some(name),
        name != seq!['.', '.'] ==> file_name_of(name) == Some(name),
        name != seq!['.', '.'] ==> file_name_of((base.push('/') + name).push('/')) == Some(name),
        name == seq!['.', '.'] ==> file_name_of(base.push('/') + name) is None,
        file_name_of(Seq::empty()) is None,
{
    a_slash_begins_a_component(base, name);
    assert(components_of(base).push(name).last() == name);
    let whole = base.push('/') + name;
    assert(!Seq::<char>::empty().contains('/'));
    a_slash_begins_a_component(whole, Seq::empty());
    assert(whole.push('/') + Seq::<char>::empty() =~= whole.push('/'));
    assert(seq![name].last() == name);
}

/// A name put after a directory is a component of it, whether or not the directory ends in a
/// slash; one that starts at the root stands for itself.
pub proof fn a_joined_path_lies_in_its_directory(base: Seq<char>, name: Seq<char>)
    requires
        !name.contains('/'),
        name.len() > 0,
        name != seq!['.'],
        base.len() > 0,
    ensures
        components_of(joined(base, name)) == components_of(base).push(name),
        is_absolute(joined(base, name)) == is_absolute(base),
        joined(base, seq!['/'] + name) == seq!['/'] + name,
{
    assert(name[0] != '/') by {
        assert(name.contains(name[0]));
    }
    assert((seq!['/'] + name)[0] == '/');
    a_slash_begins_a_component(base, name);
    if base.last() == '/' {
        let front = base.drop_last();
        assert(front.push('/') =~= base);
        assert(!Seq::<char>::empty().contains('/'));
        a_slash_begins_a_component(front, Seq::empty());
        assert(front.push('/') + Seq::<char>::empty() =~= base);
        a_slash_begins_a_component(front, name);
    }
}

} // verus!
