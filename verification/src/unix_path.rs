//! Paths of Unix systems, as text: their components and what follows from
//! them.
use vstd::prelude::*;
use vstd::string::*;

use crate::text;

verus! {

/// A name between two slashes that counts as a component: slashes may be
/// doubled, and a single dot stands for nothing.
pub open spec fn counts(name: Seq<char>) -> bool {
    name.len() > 0 && name != seq!['.']
}

/// The components of a path: the root, if the path is absolute, or the dot
/// with which a relative path begins, then its names.
pub open spec fn components(path: Seq<char>) -> Seq<Seq<char>> {
    let parts = text::pieces(path, '/');
    let head = if path.len() > 0 && path[0] == '/' {
        seq![seq!['/']]
    } else if parts[0] == seq!['.'] {
        seq![seq!['.']]
    } else {
        Seq::empty()
    };
    head + parts.filter(|name: Seq<char>| counts(name))
}

/// `path` lies in `base` or is `base`, by whole components.
pub open spec fn lies_in(path: Seq<char>, base: Seq<char>) -> bool {
    components(base).is_prefix_of(components(path))
}

/// A component that names a file or a directory.
pub open spec fn is_name(component: Seq<char>) -> bool {
    &&& component != seq!['/']
    &&& component != seq!['.']
    &&& component != seq!['.', '.']
}

/// The name at the end of a path, if it ends with one.
pub open spec fn last_name(path: Seq<char>) -> Option<Seq<char>> {
    let all = components(path);
    if all.len() > 0 && is_name(all.last()) {
        Some(all.last())
    } else {
        None
    }
}

/// The path with the given components.
pub open spec fn path_of(all: Seq<Seq<char>>) -> Seq<char> {
    if all.len() > 0 && all[0] == seq!['/'] {
        seq!['/'] + text::joined(all.skip(1), seq!['/'])
    } else {
        text::joined(all, seq!['/'])
    }
}

/// The path of `name`, which is relative, below a directory.
pub open spec fn below(directory: Seq<char>, name: Seq<char>) -> Seq<char> {
    if directory.len() == 0 || directory.last() == '/' {
        directory + name
    } else {
        directory + seq!['/'] + name
    }
}

/// The path of `name`, which is relative, below `directory`.
pub fn join(directory: &str, name: &str) -> (r: String)
    ensures
        r@ == below(directory@, name@),
{
    proof {
        reveal_strlit("/");
        assert("/"@ =~= seq!['/']);
    }
    let n: usize = directory.unicode_len();
    if n == 0 || directory.get_char(n - 1) == '/' {
        text::concat(directory, name)
    } else {
        text::concat3(directory, "/", name)
    }
}

/// Whether `name` counts as a component.
fn name_counts(name: &String) -> (r: bool)
    ensures
        r == counts(name@),
{
    proof {
        reveal_strlit(".");
    }
    assert("."@ =~= seq!['.']);
    !name.as_str().is_empty() && !text::same_text(name.as_str(), ".")
}

/// The components of `path`.
pub fn split_path(path: &str) -> (r: Vec<String>)
    ensures
        r.deep_view() == components(path@),
{
    let parts: Vec<String> = text::split(path, '/');
    let ghost all = parts.deep_view();
    let ghost head: Seq<Seq<char>>;
    proof {
        text::lemma_pieces_not_empty(path@, '/');
        reveal_strlit("/");
        reveal_strlit(".");
        assert("/"@ =~= seq!['/']);
        assert("."@ =~= seq!['.']);
    }
    let mut out: Vec<String> = Vec::new();
    if path.unicode_len() > 0 && path.get_char(0) == '/' {
        out.push("/".to_owned());
        proof {
            head = seq![seq!['/']];
        }
    } else if text::same_text(parts[0].as_str(), ".") {
        out.push(".".to_owned());
        proof {
            head = seq![seq!['.']];
        }
    } else {
        proof {
            head = Seq::empty();
        }
    }
    assert(out.deep_view() =~= head);
    let ghost wanted = |name: Seq<char>| counts(name);
    let mut i: usize = 0;
    assert(all.take(0).filter(wanted) =~= Seq::empty()) by {
        reveal(Seq::filter);
    }
    assert(out.deep_view() =~= head + all.take(0).filter(wanted));
    while i < parts.len()
        invariant
            i <= parts@.len(),
            all == parts.deep_view(),
            wanted == (|name: Seq<char>| counts(name)),
            out.deep_view() == head + all.take(i as int).filter(wanted),
        decreases parts@.len() - i,
    {
        let ghost before = out.deep_view();
        let part: &String = &parts[i];
        assert(all[i as int] == part@);
        assert(all.take(i as int + 1).drop_last() =~= all.take(i as int));
        assert(all.take(i as int + 1).last() == part@);
        reveal(Seq::filter);
        if name_counts(part) {
            out.push(part.clone());
            assert(out.deep_view() =~= before.push(part@));
            assert(out.deep_view() =~= head + all.take(i as int + 1).filter(wanted));
        }
        i = i + 1;
    }
    assert(all.take(i as int) =~= all);
    out
}

/// Whether `path` lies in `base` or is `base`, by whole components.
pub fn starts_with(path: &str, base: &str) -> (r: bool)
    ensures
        r == lies_in(path@, base@),
{
    let inner: Vec<String> = split_path(path);
    let outer: Vec<String> = split_path(base);
    if outer.len() > inner.len() {
        return false;
    }
    let mut i: usize = 0;
    while i < outer.len()
        invariant
            i <= outer@.len() <= inner@.len(),
            inner.deep_view() == components(path@),
            outer.deep_view() == components(base@),
            forall|j: int| 0 <= j < i ==> inner.deep_view()[j] == #[trigger] outer.deep_view()[j],
        decreases outer@.len() - i,
    {
        assert(inner.deep_view()[i as int] == inner@[i as int]@);
        assert(outer.deep_view()[i as int] == outer@[i as int]@);
        if inner[i] != outer[i] {
            assert(inner.deep_view().subrange(0, outer@.len() as int)[i as int]
                == inner@[i as int]@);
            return false;
        }
        i = i + 1;
    }
    assert(inner.deep_view().subrange(0, outer@.len() as int) =~= outer.deep_view());
    true
}

/// The name at the end of `path`, if it ends with one.
pub fn file_name(path: &str) -> (r: Option<String>)
    ensures
        r.deep_view() == last_name(path@),
{
    proof {
        reveal_strlit("/");
        reveal_strlit(".");
        reveal_strlit("..");
        assert("/"@ =~= seq!['/']);
        assert("."@ =~= seq!['.']);
        assert(".."@ =~= seq!['.', '.']);
    }
    let all: Vec<String> = split_path(path);
    let n: usize = all.len();
    if n == 0 {
        return None;
    }
    let last: &String = &all[n - 1];
    assert(all.deep_view().last() == last@);
    if text::same_text(last.as_str(), "/") || text::same_text(last.as_str(), ".")
        || text::same_text(last.as_str(), "..") {
        None
    } else {
        Some(last.clone())
    }
}

/// The path with the given components.
pub fn build_path(all: &Vec<String>) -> (r: String)
    ensures
        r@ == path_of(all.deep_view()),
{
    proof {
        reveal_strlit("/");
        assert("/"@ =~= seq!['/']);
    }
    if all.len() > 0 && text::same_text(all[0].as_str(), "/") {
        let mut rest: Vec<String> = Vec::new();
        let mut i: usize = 1;
        while i < all.len()
            invariant
                1 <= i <= all@.len(),
                rest.deep_view() == all.deep_view().subrange(1, i as int),
            decreases all@.len() - i,
        {
            let ghost before = rest.deep_view();
            rest.push(all[i].clone());
            i = i + 1;
            assert(rest.deep_view() =~= before.push(all@[i - 1]@));
            assert(rest.deep_view() =~= all.deep_view().subrange(1, i as int));
        }
        assert(all.deep_view().subrange(1, i as int) =~= all.deep_view().skip(1));
        text::concat("/", text::join(&rest, "/").as_str())
    } else {
        assert(all@.len() > 0 ==> all.deep_view()[0] == all@[0]@);
        text::join(all, "/")
    }
}

/// Every path lies in itself.
pub proof fn law_path_lies_in_itself(path: Seq<char>)
    ensures
        lies_in(path, path),
{
    let all = components(path);
    assert(all.subrange(0, all.len() as int) =~= all);
}

/// What lies in a directory lies in each directory around it.
pub proof fn law_lies_in_is_transitive(inner: Seq<char>, middle: Seq<char>, outer: Seq<char>)
    requires
        lies_in(inner, middle),
        lies_in(middle, outer),
    ensures
        lies_in(inner, outer),
{
    let a = components(inner);
    let b = components(middle);
    let c = components(outer);
    assert(a.subrange(0, c.len() as int) =~= b.subrange(0, c.len() as int)) by {
        assert forall|i: int| 0 <= i < c.len() implies a[i] == b[i] by {
            assert(a.subrange(0, b.len() as int)[i] == b[i]);
        }
    }
}

/// A text without the separator lengthens the last piece.
proof fn lemma_pieces_lengthened(s: Seq<char>, name: Seq<char>, sep: char)
    requires
        !name.contains(sep),
    ensures
        text::pieces(s + name, sep) == text::pieces(s, sep).drop_last().push(
            text::pieces(s, sep).last() + name,
        ),
    decreases name.len(),
{
    let before = text::pieces(s, sep);
    text::lemma_pieces_not_empty(s, sep);
    if name.len() == 0 {
        assert(s + name =~= s);
        assert(before.last() + name =~= before.last());
        assert(before.drop_last().push(before.last()) =~= before);
    } else {
        let front = name.drop_last();
        assert forall|i: int| 0 <= i < front.len() implies front[i] != sep by {
            assert(name.contains(name[i]));
        }
        lemma_pieces_lengthened(s, front, sep);
        let all = s + name;
        assert(all.drop_last() =~= s + front);
        assert(all.last() == name.last());
        assert(name.contains(name.last()));
        let shorter = before.drop_last().push(before.last() + front);
        assert(shorter.drop_last() =~= before.drop_last());
        assert((before.last() + front).push(name.last()) =~= before.last() + name);
    }
}

/// A name in a directory is one more component: its path lies in the directory,
/// and ends with it.
pub proof fn law_joined_name_lies_below(directory: Seq<char>, name: Seq<char>)
    requires
        name.len() > 0,
        !name.contains('/'),
        is_name(name),
    ensures
        components(below(directory, name)) == components(directory).push(name),
        lies_in(below(directory, name), directory),
        last_name(below(directory, name)) == Some(name),
{
    let wanted = |name: Seq<char>| counts(name);
    let path = below(directory, name);
    let old = text::pieces(directory, '/');
    let new = text::pieces(path, '/');
    text::lemma_pieces_not_empty(directory, '/');
    assert(name.contains(name[0]));
    reveal(Seq::filter);
    if directory.len() == 0 {
        lemma_pieces_lengthened(directory, name, '/');
        assert(path =~= name);
        assert(Seq::<char>::empty() + name =~= name);
        assert(new =~= seq![name]);
        assert(new.drop_last() =~= Seq::empty());
        assert(new.filter(wanted) =~= seq![name]);
        assert(old =~= seq![Seq::<char>::empty()]);
        assert(old.drop_last() =~= Seq::empty());
        assert(old.filter(wanted) =~= Seq::empty());
    } else if directory.last() == '/' {
        let front = text::pieces(directory.drop_last(), '/');
        text::lemma_pieces_not_empty(directory.drop_last(), '/');
        lemma_pieces_lengthened(directory, name, '/');
        assert(old == front.push(Seq::<char>::empty()));
        assert(old.drop_last() =~= front);
        assert(Seq::<char>::empty() + name =~= name);
        assert(new =~= front.push(name));
        assert(new.drop_last() =~= front);
        assert(old.filter(wanted) =~= front.filter(wanted));
        assert(new.filter(wanted) =~= front.filter(wanted).push(name));
        assert(old[0] == front[0] && new[0] == front[0]);
    } else {
        let marked = directory + seq!['/'];
        assert(marked.drop_last() =~= directory);
        assert(marked.last() == '/');
        assert(text::pieces(marked, '/') == old.push(Seq::<char>::empty()));
        lemma_pieces_lengthened(marked, name, '/');
        assert(old.push(Seq::<char>::empty()).drop_last() =~= old);
        assert(Seq::<char>::empty() + name =~= name);
        assert(new =~= old.push(name));
        assert(new.drop_last() =~= old);
        assert(new.filter(wanted) =~= old.filter(wanted).push(name));
        assert(new[0] == old[0]);
    }
    assert(components(path) =~= components(directory).push(name));
    let all = components(directory);
    assert(all.push(name).subrange(0, all.len() as int) =~= all);
}

/// The empty path has no component, and the root is one alone.
pub proof fn law_root_is_one_component()
    ensures
        components(Seq::empty()) == Seq::<Seq<char>>::empty(),
        components(seq!['/']) == seq![seq!['/']],
        components(seq!['.']) == seq![seq!['.']],
        components(seq!['.', '.']) == seq![seq!['.', '.']],
{
    reveal(Seq::filter);
    reveal_with_fuel(Seq::filter, 4);
    let wanted = |name: Seq<char>| counts(name);
    let nothing = Seq::<char>::empty();
    assert(text::pieces(nothing, '/') =~= seq![nothing]);
    assert(seq![nothing].drop_last() =~= Seq::empty());
    assert(seq![nothing].filter(wanted) =~= Seq::empty());
    assert(components(nothing) =~= Seq::<Seq<char>>::empty());
    text::law_separator_splits(nothing, nothing, '/');
    assert(nothing.push('/') + nothing =~= seq!['/']);
    assert(text::pieces(seq!['/'], '/') =~= seq![nothing, nothing]);
    assert(seq![nothing, nothing].drop_last() =~= seq![nothing]);
    assert(seq![nothing, nothing].filter(wanted) =~= Seq::empty());
    assert(components(seq!['/']) =~= seq![seq!['/']]);
    let dot = seq!['.'];
    text::law_text_without_separator_is_one_piece(dot, '/');
    assert(seq![dot].drop_last() =~= Seq::empty());
    assert(seq![dot].filter(wanted) =~= Seq::empty());
    assert(components(dot) =~= seq![dot]);
    let dots = seq!['.', '.'];
    text::law_text_without_separator_is_one_piece(dots, '/');
    assert(seq![dots].drop_last() =~= Seq::empty());
    assert(seq![dots].filter(wanted) =~= seq![dots]);
    assert(components(dots) =~= seq![dots]);
}

/// A slash at the end, more than one, or a dot behind one, changes nothing; a name
/// or two dots behind one is a further component.
pub proof fn law_slash_adds_a_component(path: Seq<char>, name: Seq<char>)
    requires
        path.len() > 0,
        !name.contains('/'),
    ensures
        components(path.push('/') + name) == if name.len() == 0 || name == seq!['.'] {
            components(path)
        } else {
            components(path).push(name)
        },
{
    reveal(Seq::filter);
    let wanted = |name: Seq<char>| counts(name);
    let all = path.push('/') + name;
    let old = text::pieces(path, '/');
    text::lemma_pieces_not_empty(path, '/');
    text::law_separator_splits(path, name, '/');
    text::law_text_without_separator_is_one_piece(name, '/');
    let new = text::pieces(all, '/');
    assert(new =~= old.push(name));
    assert(new.drop_last() =~= old);
    assert(new[0] == old[0]);
    assert(all[0] == path[0]);
    if counts(name) {
        assert(new.filter(wanted) =~= old.filter(wanted).push(name));
        assert(components(all) =~= components(path).push(name));
    } else {
        assert(new.filter(wanted) =~= old.filter(wanted));
        assert(components(all) =~= components(path));
    }
}

/// A path lies in another just where its components begin with those of the other:
/// what differs in one of them does not lie in it.
pub proof fn law_lies_in_goes_by_components(path: Seq<char>, base: Seq<char>)
    ensures
        lies_in(path, base) <==> components(base).len() <= components(path).len() && forall|i: int|
            0 <= i < components(base).len() ==> components(path)[i] == #[trigger] components(
                base,
            )[i],
{
    let a = components(path);
    let b = components(base);
    if b.len() <= a.len() && (forall|i: int| 0 <= i < b.len() ==> a[i] == #[trigger] b[i]) {
        assert(a.subrange(0, b.len() as int) =~= b);
    }
    if lies_in(path, base) {
        assert forall|i: int| 0 <= i < b.len() implies a[i] == #[trigger] b[i] by {
            assert(a.subrange(0, b.len() as int)[i] == b[i]);
        }
    }
}

/// The name at the end of a path is its last component, unless that is the root, a
/// dot or two.
pub proof fn law_last_name_is_no_special_component(path: Seq<char>)
    ensures
        last_name(path) matches Some(name) ==> components(path).len() > 0 && components(path).last()
            == name && name != seq!['/'] && name != seq!['.'] && name != seq!['.', '.'],
        last_name(path) is None ==> components(path).len() == 0 || components(path).last()
            == seq!['/'] || components(path).last() == seq!['.'] || components(path).last()
            == seq!['.', '.'],
{
}

/// A path below a directory is the directory, one slash and the name; after a slash
/// or nothing, no further slash.
pub proof fn law_one_slash_joins(directory: Seq<char>, name: Seq<char>)
    ensures
        below(Seq::empty(), name) == name,
        below(directory.push('/'), name) == directory.push('/') + name,
        directory.len() > 0 && directory.last() != '/' ==> below(directory, name)
            == directory.push('/') + name,
{
    assert(Seq::<char>::empty() + name =~= name);
    assert(directory + seq!['/'] =~= directory.push('/'));
}

/// The path of some components is the components with slashes between them, behind
/// the root if that is the first.
pub proof fn law_path_of_components(names: Seq<Seq<char>>)
    ensures
        path_of(seq![seq!['/']] + names) == seq!['/'] + text::joined(names, seq!['/']),
        names.len() == 0 || names[0] != seq!['/'] ==> path_of(names) == text::joined(
            names,
            seq!['/'],
        ),
{
    assert((seq![seq!['/']] + names).skip(1) =~= names);
}

} // verus!
