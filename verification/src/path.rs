//! Flat file names.
//!
//! A generated file comes with a path such as `manifests/a/App/1.0/App.yaml`.
//! Only the final component of that path names the file on disk; the
//! directories in front of it are discarded. Paths are read with `/` as the
//! separator. Empty components and `.` components name nothing and are passed
//! over, so `dir/` and `dir/.` both name `dir`; a path that ends in `..`, or
//! that holds no component at all, has no file name.

use vstd::prelude::*;
use vstd::string::StrSliceExecFns;

verus! {

/// The character that separates the components of a path.
pub const SEPARATOR: char = '/';

/// Index of the last separator in `path`, or `-1` where it holds none.
pub open spec fn last_separator(path: Seq<char>) -> int
    decreases path.len(),
{
    if path.len() == 0 {
        -1
    } else if path.last() == SEPARATOR {
        path.len() - 1
    } else {
        last_separator(path.drop_last())
    }
}

/// Whether a component names a file or directory: it is neither empty nor `.`.
pub open spec fn names_entry(component: Seq<char>) -> bool {
    component.len() > 0 && component != seq!['.']
}

/// The file name of `path`: its last component that names an entry, unless
/// that component is `..`.
pub open spec fn file_name_of(path: Seq<char>) -> Option<Seq<char>>
    decreases path.len(),
{
    let cut = last_separator(path);
    let component = path.skip(cut + 1);
    if names_entry(component) {
        if component == seq!['.', '.'] {
            None
        } else {
            Some(component)
        }
    } else if 0 <= cut < path.len() {
        file_name_of(path.take(cut))
    } else {
        None
    }
}

/// Whether `name` can stand directly in a directory: it is not empty, holds no
/// separator, and is neither `.` nor `..`.
pub open spec fn is_flat_name(name: Seq<char>) -> bool {
    &&& names_entry(name)
    &&& name != seq!['.', '.']
    &&& forall|i: int| 0 <= i < name.len() ==> name[i] != SEPARATOR
}

/// `last_separator` is the one index that holds a separator and has none
/// behind it.
pub proof fn lemma_last_separator_is(path: Seq<char>, cut: int)
    requires
        -1 <= cut < path.len(),
        cut >= 0 ==> path[cut] == SEPARATOR,
        forall|i: int| cut < i < path.len() ==> path[i] != SEPARATOR,
    ensures
        last_separator(path) == cut,
    decreases path.len(),
{
    if path.len() > 0 && path.last() != SEPARATOR {
        lemma_last_separator_is(path.drop_last(), cut);
    }
}

/// Where `last_separator` points.
pub proof fn lemma_last_separator_bounds(path: Seq<char>)
    ensures
        -1 <= last_separator(path) < path.len(),
        last_separator(path) >= 0 ==> path[last_separator(path)] == SEPARATOR,
        forall|i: int| last_separator(path) < i < path.len() ==> path[i] != SEPARATOR,
    decreases path.len(),
{
    if path.len() > 0 && path.last() != SEPARATOR {
        let front = path.drop_last();
        lemma_last_separator_bounds(front);
        assert forall|i: int| last_separator(path) < i < path.len() implies path[i]
            != SEPARATOR by {
            if i < front.len() {
                assert(path[i] == front[i]);
            }
        }
    }
}

/// A file name is flat, and it is a piece of the path it was taken from.
pub proof fn lemma_file_name_is_flat(path: Seq<char>)
    ensures
        file_name_of(path) matches Some(name) ==> is_flat_name(name) && exists|start: int|
            0 <= start && start + name.len() <= path.len() && name == #[trigger] path.subrange(
                start,
                start + name.len(),
            ),
    decreases path.len(),
{
    let cut = last_separator(path);
    let component = path.skip(cut + 1);
    lemma_last_separator_bounds(path);
    if names_entry(component) {
        if component != seq!['.', '.'] {
            assert(component =~= path.subrange(cut + 1, cut + 1 + component.len()));
        }
    } else if 0 <= cut < path.len() {
        let front = path.take(cut);
        lemma_file_name_is_flat(front);
        if let Some(name) = file_name_of(front) {
            let start = choose|start: int|
                0 <= start && start + name.len() <= front.len() && name == #[trigger] front.subrange(
                    start,
                    start + name.len(),
                );
            assert(name =~= path.subrange(start, start + name.len()));
        }
    }
}

/// Directories in front of a flat name are discarded: the file name of
/// `directory/name` is `name`, and so is that of `name` alone.
pub proof fn lemma_directories_are_discarded(directory: Seq<char>, name: Seq<char>)
    requires
        is_flat_name(name),
    ensures
        file_name_of(name) == Some(name),
        file_name_of(directory + seq![SEPARATOR] + name) == Some(name),
{
    lemma_last_separator_is(name, -1);
    assert(name.skip(0) =~= name);
    let path = directory + seq![SEPARATOR] + name;
    lemma_last_separator_is(path, directory.len() as int);
    assert(path.skip(directory.len() as int + 1) =~= name);
}

/// Separators and `.` components behind the last naming component change
/// nothing: `path/` and `path/.` have the file name of `path`.
pub proof fn lemma_trailing_components_are_ignored(path: Seq<char>)
    ensures
        file_name_of(path + seq![SEPARATOR]) == file_name_of(path),
        file_name_of(path + seq![SEPARATOR, '.']) == file_name_of(path),
{
    let slashed = path + seq![SEPARATOR];
    lemma_last_separator_is(slashed, path.len() as int);
    assert(slashed.take(path.len() as int) =~= path);
    let dotted = path + seq![SEPARATOR, '.'];
    lemma_last_separator_is(dotted, path.len() as int);
    assert(dotted.skip(path.len() as int + 1) =~= seq!['.']);
    assert(dotted.take(path.len() as int) =~= path);
}

/// A path of separators alone has no file name; the empty path and `/` are
/// such paths.
pub proof fn lemma_separators_alone_name_nothing(path: Seq<char>)
    requires
        forall|i: int| 0 <= i < path.len() ==> path[i] == SEPARATOR,
    ensures
        file_name_of(path) is None,
    decreases path.len(),
{
    if path.len() > 0 {
        let cut = path.len() - 1;
        lemma_last_separator_is(path, cut);
        lemma_separators_alone_name_nothing(path.take(cut));
    }
}

/// A path whose last naming component is `..` has no file name.
pub proof fn lemma_parent_reference_names_nothing(directory: Seq<char>)
    ensures
        file_name_of(seq!['.', '.']) is None,
        file_name_of(directory + seq![SEPARATOR, '.', '.']) is None,
{
    let parent = seq!['.', '.'];
    lemma_last_separator_is(parent, -1);
    assert(parent.skip(0) =~= parent);
    let path = directory + seq![SEPARATOR, '.', '.'];
    lemma_last_separator_is(path, directory.len() as int);
    assert(path.skip(directory.len() as int + 1) =~= parent);
}

/// The characters of `text`, in order.
fn characters(text: &str) -> (chars: Vec<char>)
    ensures
        chars@ == text@,
{
    let mut chars: Vec<char> = Vec::new();
    for c in it: text.chars()
        invariant
            it.seq() == text@,
            chars@ == it.seq().take(it.index()),
    {
        chars.push(c);
    }
    chars
}

/// The view of an optional text.
pub open spec fn optional_text(text: Option<String>) -> Option<Seq<char>> {
    match text {
        Some(text) => Some(text@),
        None => None,
    }
}

/// Takes the file name of `path`: its final component, without the
/// directories that lead to it. `None` where the path has no such component,
/// as the empty path, `/` and every path that ends in `..`.
pub fn file_name(path: &str) -> (name: Option<String>)
    ensures
        optional_text(name) == file_name_of(path@),
        name matches Some(text) ==> is_flat_name(text@),
{
    let chars = characters(path);
    let mut end: usize = chars.len();
    proof {
        assert(path@.take(end as int) =~= path@);
        lemma_file_name_is_flat(path@);
    }
    loop
        invariant
            chars@ == path@,
            end <= chars.len(),
            file_name_of(path@) == file_name_of(path@.take(end as int)),
            file_name_of(path@) matches Some(text) ==> is_flat_name(text),
        decreases end,
    {
        let ghost front = path@.take(end as int);
        let mut start: usize = end;
        while start > 0 && chars[start - 1] != SEPARATOR
            invariant
                chars@ == path@,
                start <= end <= chars.len(),
                forall|i: int| start <= i < end ==> chars@[i] != SEPARATOR,
            decreases start,
        {
            start = start - 1;
        }
        proof {
            lemma_last_separator_is(front, start as int - 1);
            assert(front.skip(start as int) =~= path@.subrange(start as int, end as int));
        }
        let length: usize = end - start;
        let names_nothing = length == 0 || (length == 1 && chars[start] == '.');
        proof {
            let component = path@.subrange(start as int, end as int);
            if length == 1 && chars[start as int] == '.' {
                assert(component =~= seq!['.']);
            }
            if component == seq!['.'] {
                assert(component[0] == '.');
            }
        }
        if names_nothing {
            if start == 0 {
                return None;
            }
            proof {
                assert(front.take(start as int - 1) =~= path@.take(start as int - 1));
            }
            end = start - 1;
        } else if length == 2 && chars[start] == '.' && chars[start + 1] == '.' {
            proof {
                assert(path@.subrange(start as int, end as int) =~= seq!['.', '.']);
            }
            return None;
        } else {
            return Some(path.substring_char(start, end).to_owned());
        }
    }
}

} // verus!
