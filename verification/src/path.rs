//! Slash-separated paths, as text.
//!
//! A path is a sequence of components. Repeated separators, a trailing separator and `.`
//! components count for nothing, except for a `.` that starts the path. The final component is
//! the file name unless it is `.` or `..`.

use vstd::prelude::*;

use crate::text::{chars_of, concat2, concat3, same_text, text_of};

verus! {

/// Where `name` ends up when it is resolved against `dir`: an absolute name replaces the
/// directory, any other is appended with exactly one separator in between.
pub open spec fn joined(dir: Seq<char>, name: Seq<char>) -> Seq<char> {
    if name.len() > 0 && name.first() == '/' {
        name
    } else if dir.len() > 0 && dir.last() != '/' {
        dir + seq!['/'] + name
    } else {
        dir + name
    }
}

/// `path` up to the end of its final component: without trailing separators and without the `.`
/// components that follow a separator.
pub open spec fn body(path: Seq<char>) -> Seq<char>
    decreases path.len(),
{
    if path.len() > 0 && path.last() == '/' {
        body(path.drop_last())
    } else if path.len() > 1 && path.last() == '.' && path[path.len() - 2] == '/' {
        body(path.drop_last())
    } else {
        path
    }
}

/// The part of `path` that follows its last separator.
pub open spec fn final_component(path: Seq<char>) -> Seq<char>
    decreases path.len(),
{
    if path.len() == 0 || path.last() == '/' {
        Seq::empty()
    } else {
        final_component(path.drop_last()).push(path.last())
    }
}

/// The file name `path` ends in, if it ends in one.
pub open spec fn file_name_of(path: Seq<char>) -> Option<Seq<char>> {
    let name = final_component(body(path));
    if name == Seq::<char>::empty() || name == seq!['.'] || name == seq!['.', '.'] {
        None
    } else {
        Some(name)
    }
}

/// The part of `name` in front of its last dot, or all of it when it has no dot past the first
/// character.
pub open spec fn stem_of(name: Seq<char>) -> Seq<char> {
    if exists|i: int| is_last_dot(name, i) {
        name.take(choose|i: int| is_last_dot(name, i))
    } else {
        name
    }
}

/// Whether the last dot of `name` stands at `i`, past the first character.
pub open spec fn is_last_dot(name: Seq<char>, i: int) -> bool {
    &&& 0 < i < name.len()
    &&& name[i] == '.'
    &&& forall|j: int| i < j < name.len() ==> name[j] != '.'
}

/// Whether `path` starts at the root.
pub open spec fn is_absolute(path: Seq<char>) -> bool {
    path.len() > 0 && path.first() == '/'
}

/// The components of `path`, in order: what stands between its separators, without what is empty
/// and without `.`, except for a `.` that starts the path.
pub open spec fn components(path: Seq<char>) -> Seq<Seq<char>>
    decreases path.len(),
{
    let last = final_component(path);
    let above = path.len() - last.len() - 1;
    if path.len() == 0 {
        Seq::empty()
    } else if !(0 <= above < path.len()) {
        seq![path]
    } else if last == Seq::<char>::empty() || last == seq!['.'] {
        components(path.take(above))
    } else {
        components(path.take(above)).push(last)
    }
}

/// Whether `a` and `b` are the same path: both or neither start at the root, and their components
/// are the same.
pub open spec fn is_same(a: Seq<char>, b: Seq<char>) -> bool {
    is_absolute(a) == is_absolute(b) && components(a) == components(b)
}

/// The path of the directory that holds the final component of `path`.
pub open spec fn parent_of(path: Seq<char>) -> Seq<char> {
    let whole = body(path);
    let above = body(whole.take(whole.len() - final_component(whole).len()));
    if above.len() == 0 && path.len() > 0 && path.first() == '/' {
        seq!['/']
    } else {
        above
    }
}

/// `path` with `name` in place of its file name, or below it when it has none.
pub open spec fn renamed(path: Seq<char>, name: Seq<char>) -> Seq<char> {
    if file_name_of(path) is Some {
        joined(parent_of(path), name)
    } else {
        joined(path, name)
    }
}

/// Resolves `name` against `dir`.
pub fn join(dir: &str, name: &str) -> (path: String)
    ensures
        path@ == joined(dir@, name@),
        name@.len() > 0 && name@[0] == '/' ==> path@ == name@,
        !(name@.len() > 0 && name@[0] == '/') ==> path@ == if dir@.len() == 0 || dir@[dir@.len()
            - 1] == '/' {
            dir@ + name@
        } else {
            dir@ + "/"@ + name@
        },
{
    proof {
        reveal_strlit("/");
        assert("/"@ =~= seq!['/']);
    }
    let above = chars_of(dir);
    let below = chars_of(name);
    if below.len() > 0 && below[0] == '/' {
        name.to_owned()
    } else if above.len() > 0 && above[above.len() - 1] != '/' {
        proof {
            reveal_strlit("/");
            assert("/"@ =~= seq!['/']);
        }
        concat3(dir, "/", name)
    } else {
        concat2(dir, name)
    }
}

/// How many characters of `path[..len]` make up its body.
fn body_len(path: &[char], len: usize) -> (end: usize)
    requires
        len <= path@.len(),
    ensures
        end <= len,
        path@.take(end as int) == body(path@.take(len as int)),
{
    let mut end: usize = len;
    while end > 0 && (path[end - 1] == '/' || (end > 1 && path[end - 1] == '.' && path[end - 2]
        == '/'))
        invariant
            end <= len <= path@.len(),
            body(path@.take(end as int)) == body(path@.take(len as int)),
        decreases end,
    {
        assert(path@.take(end as int).drop_last() =~= path@.take(end - 1));
        end = end - 1;
    }
    end
}

/// Where the final component of `path[..len]` starts.
fn final_start(path: &[char], len: usize) -> (start: usize)
    requires
        len <= path@.len(),
    ensures
        start <= len,
        path@.subrange(start as int, len as int) == final_component(path@.take(len as int)),
{
    let mut start: usize = len;
    while start > 0 && path[start - 1] != '/'
        invariant
            start <= len <= path@.len(),
            final_component(path@.take(len as int)) == final_component(path@.take(start as int))
                + path@.subrange(start as int, len as int),
        decreases start,
    {
        assert(path@.take(start as int).drop_last() =~= path@.take(start - 1));
        assert(final_component(path@.take(start - 1)).push(path@[start - 1]) + path@.subrange(
            start as int,
            len as int,
        ) =~= final_component(path@.take(start - 1)) + path@.subrange(start - 1, len as int));
        start = start - 1;
    }
    assert(final_component(path@.take(start as int)) =~= Seq::empty());
    assert(path@.subrange(start as int, len as int) =~= Seq::empty() + path@.subrange(
        start as int,
        len as int,
    ));
    start
}

/// The file name `path` ends in, if it ends in one.
pub fn file_name(path: &str) -> (name: Option<String>)
    ensures
        name is Some == file_name_of(path@) is Some,
        name matches Some(text) ==> text@ == file_name_of(path@)->0,
{
    let chars = chars_of(path);
    let end = body_len(chars.as_slice(), chars.len());
    assert(chars@.take(chars@.len() as int) =~= chars@);
    let start = final_start(chars.as_slice(), end);
    let ghost found = chars@.subrange(start as int, end as int);
    if end == start {
        assert(found =~= Seq::empty());
        None
    } else if end - start == 1 && chars[start] == '.' {
        assert(found =~= seq!['.']);
        None
    } else if end - start == 2 && chars[start] == '.' && chars[start + 1] == '.' {
        assert(found =~= seq!['.', '.']);
        None
    } else {
        assert(found.len() > 0);
        assert(found.len() == 1 ==> found[0] != '.');
        assert(found.len() == 2 ==> found[0] != '.' || found[1] != '.');
        Some(text_of(chars.as_slice(), start, end))
    }
}

/// The file name `path` ends in without its extension, if it ends in one.
pub fn file_stem(path: &str) -> (stem: Option<String>)
    ensures
        stem is Some == file_name_of(path@) is Some,
        stem matches Some(text) ==> text@ == stem_of(file_name_of(path@)->0),
        stem matches Some(text) ==> text@.len() > 0 && text@.is_prefix_of(file_name_of(path@)->0),
{
    proof {
        law_file_names_are_plain(path@);
        if let Some(name) = file_name_of(path@) {
            law_stem_ends_at_the_last_dot(name);
        }
    }
    let name = match file_name(path) {
        Some(name) => name,
        None => {
            return None;
        },
    };
    let chars = chars_of(name.as_str());
    let mut i: usize = chars.len();
    while i > 1
        invariant
            i <= chars@.len(),
            chars@ == name@,
            file_name_of(path@) == Some(name@),
            forall|j: int| i <= j < chars@.len() ==> chars@[j] != '.',
        decreases i,
    {
        i = i - 1;
        if chars[i] == '.' {
            proof {
                assert(is_last_dot(name@, i as int));
                let k = choose|k: int| is_last_dot(name@, k);
                assert(is_last_dot(name@, k));
                assert(k == i as int);
                assert(name@.take(k) =~= chars@.subrange(0, i as int));
            }
            return Some(text_of(chars.as_slice(), 0, i));
        }
    }
    assert(forall|k: int| !is_last_dot(name@, k));
    Some(name)
}

/// `path` with `name` in place of its file name, or below it when it has none.
pub fn with_file_name(path: &str, name: &str) -> (renamed_path: String)
    ensures
        renamed_path@ == renamed(path@, name@),
        file_name_of(path@) is None ==> renamed_path@ == joined(path@, name@),
{
    if file_name(path).is_none() {
        return join(path, name);
    }
    let chars = chars_of(path);
    let end = body_len(chars.as_slice(), chars.len());
    assert(chars@.take(chars@.len() as int) =~= chars@);
    let start = final_start(chars.as_slice(), end);
    let above = text_of(chars.as_slice(), 0, start);
    let above_chars = chars_of(above.as_str());
    let len = body_len(above_chars.as_slice(), above_chars.len());
    assert(above_chars@.take(above_chars@.len() as int) =~= above_chars@);
    proof {
        let whole = body(path@);
        assert(whole =~= chars@.take(end as int));
        assert(whole.take(whole.len() - final_component(whole).len()) =~= above@);
        assert(above@.take(len as int) =~= above_chars@.subrange(0, len as int));
    }
    if len == 0 && chars.len() > 0 && chars[0] == '/' {
        proof {
            reveal_strlit("/");
            assert("/"@ =~= seq!['/']);
        }
        join("/", name)
    } else {
        let parent = text_of(above_chars.as_slice(), 0, len);
        join(parent.as_str(), name)
    }
}

/// Whether `a` and `b` are the same path.
pub fn same(a: &str, b: &str) -> (yes: bool)
    ensures
        yes == is_same(a@, b@),
        yes <==> components(a@) == components(b@) && (a@.len() > 0 && a@[0] == '/') == (b@.len() > 0
            && b@[0] == '/'),
{
    let one = chars_of(a);
    let other = chars_of(b);
    let one_absolute = one.len() > 0 && one[0] == '/';
    let other_absolute = other.len() > 0 && other[0] == '/';
    if one_absolute != other_absolute {
        return false;
    }
    let mut i: usize = one.len();
    let mut j: usize = other.len();
    assert(one@.take(i as int) =~= a@);
    assert(other@.take(j as int) =~= b@);
    loop
        invariant
            i <= one@.len(),
            j <= other@.len(),
            is_same(a@, b@) == (components(one@.take(i as int)) == components(
                other@.take(j as int),
            )),
        decreases i,
    {
        let i_end = body_len(one.as_slice(), i);
        let j_end = body_len(other.as_slice(), j);
        proof {
            lemma_last_component(one@.take(i as int));
            lemma_last_component(other@.take(j as int));
            assert((i_end == 0) == (components(one@.take(i as int)).len() == 0));
            assert((j_end == 0) == (components(other@.take(j as int)).len() == 0));
        }
        if i_end == 0 || j_end == 0 {
            return i_end == 0 && j_end == 0;
        }
        let i_start = final_start(one.as_slice(), i_end);
        let j_start = final_start(other.as_slice(), j_end);
        let last = text_of(one.as_slice(), i_start, i_end);
        let other_last = text_of(other.as_slice(), j_start, j_end);
        let next_i: usize = if i_start == 0 {
            0
        } else {
            i_start - 1
        };
        let next_j: usize = if j_start == 0 {
            0
        } else {
            j_start - 1
        };
        proof {
            assert(one@.take(i_end as int).take(next_i as int) =~= one@.take(next_i as int));
            assert(other@.take(j_end as int).take(next_j as int) =~= other@.take(next_j as int));
            lemma_pushes_agree(
                components(one@.take(next_i as int)),
                last@,
                components(other@.take(next_j as int)),
                other_last@,
            );
        }
        if !same_text(last.as_str(), other_last.as_str()) {
            return false;
        }
        i = next_i;
        j = next_j;
    }
}

/// Whether `name` can be a file name: one component, and neither `.` nor `..`.
pub open spec fn is_plain_name(name: Seq<char>) -> bool {
    &&& name.len() > 0
    &&& forall|i: int| 0 <= i < name.len() ==> #[trigger] name[i] != '/'
    &&& name != seq!['.']
    &&& name != seq!['.', '.']
}

/// Joining appends a component: the file name of the result is the name that was joined.
pub proof fn law_joined_name_is_the_file_name(dir: Seq<char>, name: Seq<char>)
    requires
        is_plain_name(name),
    ensures
        file_name_of(joined(dir, name)) == Some(name),
{
    let whole = joined(dir, name);
    let above = whole.take(whole.len() - name.len());
    lemma_joined_splits(dir, name);
    lemma_body_of_plain(above, name);
    lemma_final_of_plain(above, name);
    assert(above + name =~= whole);
}

/// Components are what stands between separators: behind a separator, text without any is one more
/// component, and nothing or a `.` is none. Text without separators is a single component.
pub proof fn law_components_stand_between_separators(path: Seq<char>, part: Seq<char>)
    requires
        forall|i: int| 0 <= i < part.len() ==> #[trigger] part[i] != '/',
    ensures
        components(path + "/"@ + part) == if part.len() == 0 || part == "."@ {
            components(path)
        } else {
            components(path).push(part)
        },
        components(part) == if part.len() == 0 {
            Seq::<Seq<char>>::empty()
        } else {
            seq![part]
        },
{
    reveal_strlit("/");
    reveal_strlit(".");
    assert("/"@ =~= seq!['/']);
    assert("."@ =~= seq!['.']);
    let above = path + "/"@;
    let whole = above + part;
    lemma_final_of_plain(above, part);
    assert(whole.take(whole.len() - part.len() - 1) =~= path);
    if part.len() == 0 {
        assert(part =~= Seq::empty());
    }
    lemma_final_of_plain(Seq::empty(), part);
    assert(Seq::empty() + part =~= part);
}

/// Joining a file name to a directory adds it as one more component, and keeps whether the path
/// starts at the root.
pub proof fn law_joining_adds_a_component(dir: Seq<char>, name: Seq<char>)
    requires
        is_plain_name(name),
    ensures
        components(joined(dir, name)) == components(dir).push(name),
        is_absolute(joined(dir, name)) == is_absolute(dir),
{
    reveal_strlit("/");
    reveal_strlit(".");
    assert("/"@ =~= seq!['/']);
    assert("."@ =~= seq!['.']);
    lemma_joined_splits(dir, name);
    if dir.len() == 0 {
        assert(joined(dir, name) =~= name);
        law_components_stand_between_separators(dir, name);
        assert(components(dir).push(name) =~= seq![name]);
    } else if dir.last() == '/' {
        let above = dir.drop_last();
        assert(joined(dir, name) =~= above + "/"@ + name);
        assert(dir =~= above + "/"@ + Seq::empty());
        law_components_stand_between_separators(above, name);
        law_components_stand_between_separators(above, Seq::empty());
    } else {
        assert(joined(dir, name) =~= dir + "/"@ + name);
        law_components_stand_between_separators(dir, name);
    }
}

/// The directory of a file is its path without the last component.
pub proof fn law_the_directory_is_all_but_the_last_component(path: Seq<char>)
    requires
        file_name_of(path) is Some,
    ensures
        components(parent_of(path)) == components(path).drop_last(),
        is_absolute(parent_of(path)) == is_absolute(path),
{
    reveal_strlit("/");
    assert("/"@ =~= seq!['/']);
    let whole = body(path);
    let last = final_component(whole);
    lemma_last_component(path);
    lemma_final_is_an_end(whole);
    lemma_body_is_a_start(path);
    let inner = whole.take(whole.len() - last.len());
    lemma_body_is_a_start(inner);
    lemma_body_keeps_components(inner);
    if last.len() == whole.len() {
        assert(inner =~= Seq::empty());
        assert(whole.take(0) =~= Seq::empty());
        assert(whole[0] == last[0]);
        lemma_final_has_no_separator(whole);
    } else {
        let above = whole.take(whole.len() - last.len() - 1);
        assert(inner =~= above + "/"@ + Seq::empty());
        law_components_stand_between_separators(above, Seq::empty());
    }
    assert(components(path).drop_last() =~= components(inner));
    let parent = body(inner);
    if parent.len() == 0 {
        law_components_stand_between_separators(Seq::empty(), Seq::empty());
        assert(Seq::empty() + "/"@ + Seq::empty() =~= seq!['/']);
    } else {
        assert(parent[0] == path[0]);
    }
}

/// Renaming replaces the last component by the new name and keeps the others, and a path without a
/// file name gets it as one more component.
pub proof fn law_renaming_replaces_the_last_component(path: Seq<char>, name: Seq<char>)
    requires
        is_plain_name(name),
    ensures
        file_name_of(path) is Some ==> components(renamed(path, name)) == components(
            path,
        ).drop_last().push(name),
        file_name_of(path) is None ==> components(renamed(path, name)) == components(path).push(
            name,
        ),
        is_absolute(renamed(path, name)) == is_absolute(path),
{
    if file_name_of(path) is Some {
        law_the_directory_is_all_but_the_last_component(path);
        law_joining_adds_a_component(parent_of(path), name);
    } else {
        law_joining_adds_a_component(path, name);
    }
}

/// The stem of a file name is what stands in front of its last dot. A dot at the very start does not
/// count, and a name without any other is its own stem.
pub proof fn law_stem_ends_at_the_last_dot(name: Seq<char>)
    requires
        name.len() > 0,
    ensures
        0 < stem_of(name).len() <= name.len(),
        stem_of(name) == name.take(stem_of(name).len() as int),
        stem_of(name).len() < name.len() ==> name[stem_of(name).len() as int] == '.',
        forall|j: int| stem_of(name).len() < j < name.len() ==> name[j] != '.',
        stem_of(name).len() == name.len() ==> forall|j: int| 0 < j < name.len() ==> name[j] != '.',
{
    if exists|i: int| is_last_dot(name, i) {
        let i = choose|i: int| is_last_dot(name, i);
        assert(is_last_dot(name, i));
        assert(stem_of(name).len() == i);
    } else {
        assert(name.take(name.len() as int) =~= name);
        assert forall|j: int| 0 < j < name.len() implies name[j] != '.' by {
            if name[j] == '.' {
                lemma_some_dot_is_the_last(name, j);
            }
        }
    }
}

/// A name with a dot past its first character has a last one.
proof fn lemma_some_dot_is_the_last(name: Seq<char>, j: int)
    requires
        0 < j < name.len(),
        name[j] == '.',
    ensures
        exists|i: int| is_last_dot(name, i),
    decreases name.len() - j,
{
    if forall|k: int| j < k < name.len() ==> name[k] != '.' {
        assert(is_last_dot(name, j));
    } else {
        let k = choose|k: int| j < k < name.len() && name[k] == '.';
        lemma_some_dot_is_the_last(name, k);
    }
}

/// The file name is the last component, unless that is `.` or `..`. So one and the same path, however
/// it is written, has one file name.
pub proof fn law_file_name_is_the_last_component(path: Seq<char>)
    ensures
        file_name_of(path) == if components(path).len() == 0 || components(path).last() == seq!['.']
            || components(path).last() == seq!['.', '.'] {
            None
        } else {
            Some(components(path).last())
        },
{
    lemma_last_component(path);
    if body(path).len() == 0 {
        assert(final_component(body(path)) == Seq::<char>::empty());
    }
}

/// A file name is a single component.
pub proof fn law_file_names_are_plain(path: Seq<char>)
    ensures
        file_name_of(path) matches Some(name) ==> is_plain_name(name),
{
    lemma_final_has_no_separator(body(path));
}

/// Renaming replaces the file name and nothing else: the result has the new name and lies in the
/// same directory.
pub proof fn law_renaming_stays_in_the_directory(path: Seq<char>, name: Seq<char>)
    requires
        is_plain_name(name),
    ensures
        file_name_of(renamed(path, name)) == Some(name),
        file_name_of(path) is Some ==> parent_of(renamed(path, name)) == parent_of(path),
{
    if file_name_of(path) is Some {
        let parent = parent_of(path);
        law_joined_name_is_the_file_name(parent, name);
        let whole = joined(parent, name);
        let above = whole.take(whole.len() - name.len());
        lemma_joined_splits(parent, name);
        lemma_body_of_plain(above, name);
        lemma_final_of_plain(above, name);
        assert(above + name =~= whole);
        let inner = body(path).take(body(path).len() - final_component(body(path)).len());
        lemma_body_is_kept(inner);
        if parent.len() > 0 && parent.last() != '/' {
            assert(above =~= parent + seq!['/']);
            assert(above.drop_last() =~= parent);
            assert(whole.first() == parent.first());
        } else if parent.len() > 0 {
            assert(parent == seq!['/']) by {
                lemma_body_has_no_trailing_separator(inner);
            }
            assert(above =~= seq!['/']);
            assert(above.drop_last() =~= Seq::empty());
            assert(body(above) == body(Seq::<char>::empty()));
            assert(body(Seq::<char>::empty()) == Seq::<char>::empty());
            assert(whole.first() == '/');
        } else {
            assert(above =~= Seq::empty());
            assert(whole =~= name);
        }
    } else {
        law_joined_name_is_the_file_name(path, name);
    }
}

/// What stands in front of a joined name is empty or ends in a separator.
proof fn lemma_joined_splits(dir: Seq<char>, name: Seq<char>)
    requires
        is_plain_name(name),
    ensures
        ({
            let whole = joined(dir, name);
            let above = whole.take(whole.len() - name.len());
            &&& whole.len() >= name.len()
            &&& whole == above + name
            &&& above.len() == 0 || above.last() == '/'
            &&& above == if dir.len() > 0 && dir.last() != '/' {
                dir + seq!['/']
            } else {
                dir
            }
        }),
{
    let whole = joined(dir, name);
    assert(name.first() != '/');
    if dir.len() > 0 && dir.last() != '/' {
        assert(whole.take(whole.len() - name.len()) =~= dir + seq!['/']);
    } else {
        assert(whole.take(whole.len() - name.len()) =~= dir);
    }
    assert(whole =~= whole.take(whole.len() - name.len()) + name);
}

/// A path that ends in a file name ends where its body does.
proof fn lemma_body_of_plain(above: Seq<char>, name: Seq<char>)
    requires
        is_plain_name(name),
        above.len() == 0 || above.last() == '/',
    ensures
        body(above + name) == above + name,
{
    let whole = above + name;
    assert(whole.last() == name[name.len() - 1]);
    if name.len() == 1 {
        assert(name =~= seq![name[0]]);
    } else {
        assert(whole[whole.len() - 2] == name[name.len() - 2]);
    }
}

/// The final component of a path that ends in a file name is that name.
proof fn lemma_final_of_plain(above: Seq<char>, name: Seq<char>)
    requires
        forall|i: int| 0 <= i < name.len() ==> #[trigger] name[i] != '/',
        above.len() == 0 || above.last() == '/',
    ensures
        final_component(above + name) == name,
    decreases name.len(),
{
    if name.len() == 0 {
        assert(above + name =~= above);
        assert(name =~= Seq::empty());
    } else {
        let shorter = name.drop_last();
        assert((above + name).drop_last() =~= above + shorter);
        assert((above + name).last() == name[name.len() - 1]);
        lemma_final_of_plain(above, shorter);
        assert(shorter.push(name.last()) =~= name);
    }
}

/// A final component has no separator in it.
proof fn lemma_final_has_no_separator(path: Seq<char>)
    ensures
        forall|i: int|
            0 <= i < final_component(path).len() ==> #[trigger] final_component(path)[i] != '/',
    decreases path.len(),
{
    if path.len() > 0 && path.last() != '/' {
        let shorter = final_component(path.drop_last());
        lemma_final_has_no_separator(path.drop_last());
        assert forall|i: int| 0 <= i < final_component(path).len() implies #[trigger]
            final_component(path)[i] != '/' by {
            if i < shorter.len() {
                assert(final_component(path)[i] == shorter[i]);
            }
        }
    }
}

/// The body of a body is the body itself.
proof fn lemma_body_is_kept(path: Seq<char>)
    ensures
        body(body(path)) == body(path),
    decreases path.len(),
{
    if path.len() > 0 && (path.last() == '/' || (path.len() > 1 && path.last() == '.'
        && path[path.len() - 2] == '/')) {
        lemma_body_is_kept(path.drop_last());
    }
}

/// A body does not end in a separator.
proof fn lemma_body_has_no_trailing_separator(path: Seq<char>)
    ensures
        body(path).len() > 0 ==> body(path).last() != '/',
    decreases path.len(),
{
    if path.len() > 0 && (path.last() == '/' || (path.len() > 1 && path.last() == '.'
        && path[path.len() - 2] == '/')) {
        lemma_body_has_no_trailing_separator(path.drop_last());
    }
}

/// The components of a path are those above the last one of its body, and that one.
proof fn lemma_last_component(path: Seq<char>)
    ensures
        body(path).len() == 0 ==> components(path) == Seq::<Seq<char>>::empty(),
        body(path).len() > 0 ==> ({
            let whole = body(path);
            let last = final_component(whole);
            let above = if last.len() == whole.len() {
                0
            } else {
                whole.len() - last.len() - 1
            };
            &&& 0 < last.len() <= whole.len()
            &&& components(path) == components(whole.take(above)).push(last)
        }),
    decreases path.len(),
{
    if path.len() > 0 && path.last() == '/' {
        assert(path.take(path.len() - 1) =~= path.drop_last());
        lemma_last_component(path.drop_last());
    } else if path.len() > 1 && path.last() == '.' && path[path.len() - 2] == '/' {
        let shorter = path.drop_last();
        assert(final_component(shorter) == Seq::<char>::empty());
        assert(final_component(path) =~= seq!['.']);
        assert(path.take(path.len() - 2) =~= shorter.take(shorter.len() - 1));
        lemma_last_component(shorter);
    } else if path.len() > 0 {
        lemma_final_is_an_end(path);
        let last = final_component(path);
        assert(last.len() > 0);
        assert(last[last.len() - 1] == path.last());
        assert(body(path) == path);
        if last.len() == path.len() {
            assert(last =~= path);
            assert(path.take(0) =~= Seq::empty());
            assert(components(path) =~= components(path.take(0)).push(last));
        } else {
            assert(last != seq!['.']) by {
                if last == seq!['.'] {
                    assert(path[path.len() - 2] == '/');
                    assert(path.last() == '.');
                }
            }
        }
    }
}

/// A final component is what stands at the end of the path, behind a separator if it is not all of
/// it.
proof fn lemma_final_is_an_end(path: Seq<char>)
    ensures
        final_component(path).len() <= path.len(),
        final_component(path) == path.skip(path.len() - final_component(path).len()),
        final_component(path).len() < path.len() ==> path[path.len() - final_component(path).len()
            - 1] == '/',
    decreases path.len(),
{
    if path.len() > 0 && path.last() != '/' {
        let shorter = path.drop_last();
        lemma_final_is_an_end(shorter);
        assert(final_component(path) =~= path.skip(path.len() - final_component(path).len()));
    } else {
        assert(path.skip(path.len() as int) =~= Seq::empty());
    }
}

/// Two sequences that end in one element each are the same if and only if their parts are.
proof fn lemma_pushes_agree<A>(a: Seq<A>, x: A, b: Seq<A>, y: A)
    ensures
        a.push(x) == b.push(y) <==> a == b && x == y,
{
    if a.push(x) == b.push(y) {
        assert(a.push(x).drop_last() =~= a);
        assert(b.push(y).drop_last() =~= b);
        assert(a.push(x).last() == x);
        assert(b.push(y).last() == y);
    }
}

/// A body is the start of its path, and is empty only where nothing but separators and dots follow
/// the root.
proof fn lemma_body_is_a_start(path: Seq<char>)
    ensures
        body(path).len() <= path.len(),
        body(path) == path.take(body(path).len() as int),
        body(path).len() == 0 && path.len() > 0 ==> path[0] == '/',
    decreases path.len(),
{
    if path.len() > 0 && (path.last() == '/' || (path.len() > 1 && path.last() == '.'
        && path[path.len() - 2] == '/')) {
        let shorter = path.drop_last();
        lemma_body_is_a_start(shorter);
        assert(body(path) =~= path.take(body(path).len() as int));
    } else {
        assert(path.take(path.len() as int) =~= path);
    }
}

/// A path and its body have the same components.
proof fn lemma_body_keeps_components(path: Seq<char>)
    ensures
        components(body(path)) == components(path),
{
    lemma_body_is_kept(path);
    lemma_last_component(path);
    lemma_last_component(body(path));
}

} // verus!
