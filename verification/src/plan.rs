//! From a change set to the files to write.
//!
//! A change set is an ordered batch of generated files, each a path and its
//! text. [`plan_writes`] flattens it: every entry whose path has a file name
//! becomes one [`FileWrite`] under that name, in the order of the batch, and
//! every other entry is left out without a complaint.
//!
//! [`directory_after`] says what a directory holds once a list of writes has
//! been carried out on it, as a map from file name to content. Each write
//! replaces what stood under its name, so a name that occurs twice ends up
//! with the content of its last write.

use crate::path::{file_name, file_name_of, is_flat_name, lemma_file_name_is_flat};
use vstd::prelude::*;

verus! {

/// One file to create in the output directory, with the text it is to hold.
#[derive(Debug, PartialEq, Eq)]
pub struct FileWrite {
    pub file_name: String,
    pub content: String,
}

/// Mathematical value of a [`FileWrite`].
pub struct FileWriteView {
    pub file_name: Seq<char>,
    pub content: Seq<char>,
}

impl View for FileWrite {
    type V = FileWriteView;

    open spec fn view(&self) -> FileWriteView {
        FileWriteView { file_name: self.file_name@, content: self.content@ }
    }
}

impl DeepView for FileWrite {
    type V = FileWriteView;

    open spec fn deep_view(&self) -> FileWriteView {
        self@
    }
}

/// The contents of a directory: what each file name in it holds.
pub type Directory = Map<Seq<char>, Seq<char>>;

/// The writes that a change set asks for. An entry with a file name is
/// written under that name; an entry without one is skipped.
pub open spec fn planned_writes(changes: Seq<(Seq<char>, Seq<char>)>) -> Seq<FileWriteView>
    decreases changes.len(),
{
    if changes.len() == 0 {
        Seq::empty()
    } else {
        let earlier = planned_writes(changes.drop_last());
        match file_name_of(changes.last().0) {
            Some(name) => earlier.push(FileWriteView { file_name: name, content: changes.last().1 }),
            None => earlier,
        }
    }
}

/// Index of the last write in `writes` that goes to `name`, or `-1` where none
/// does.
pub open spec fn last_write_to(writes: Seq<FileWriteView>, name: Seq<char>) -> int
    decreases writes.len(),
{
    if writes.len() == 0 {
        -1
    } else if writes.last().file_name == name {
        writes.len() - 1
    } else {
        last_write_to(writes.drop_last(), name)
    }
}

/// The directory once `writes` have been carried out on it, one after the
/// other. A write creates its file or replaces the whole of its content.
pub open spec fn directory_after(directory: Directory, writes: Seq<FileWriteView>) -> Directory
    decreases writes.len(),
{
    if writes.len() == 0 {
        directory
    } else {
        directory_after(directory, writes.drop_last()).insert(
            writes.last().file_name,
            writes.last().content,
        )
    }
}

/// Every planned write goes to a flat name, so all files land directly in the
/// output directory, and no plan is longer than its change set.
pub proof fn lemma_planned_writes_are_flat(changes: Seq<(Seq<char>, Seq<char>)>)
    ensures
        planned_writes(changes).len() <= changes.len(),
        forall|i: int|
            0 <= i < planned_writes(changes).len() ==> is_flat_name(
                #[trigger] planned_writes(changes)[i].file_name,
            ),
    decreases changes.len(),
{
    if changes.len() > 0 {
        lemma_planned_writes_are_flat(changes.drop_last());
        lemma_file_name_is_flat(changes.last().0);
    }
}

/// Where `last_write_to` points.
pub proof fn lemma_last_write_to(writes: Seq<FileWriteView>, name: Seq<char>)
    ensures
        -1 <= last_write_to(writes, name) < writes.len(),
        last_write_to(writes, name) >= 0 ==> writes[last_write_to(writes, name)].file_name
            == name,
        forall|i: int|
            last_write_to(writes, name) < i < writes.len() ==> (#[trigger] writes[i]).file_name
                != name,
    decreases writes.len(),
{
    if writes.len() > 0 && writes.last().file_name != name {
        let earlier = writes.drop_last();
        lemma_last_write_to(earlier, name);
        assert forall|i: int| last_write_to(writes, name) < i < writes.len() implies (
        #[trigger] writes[i]).file_name != name by {
            if i < earlier.len() {
                assert(writes[i] == earlier[i]);
            }
        }
    }
}

/// What the directory holds after the writes: under a name that was written,
/// the content of the last write to it; under every other name, what it held
/// before. No file is removed and none appears that was not written.
pub proof fn lemma_directory_after(
    directory: Directory,
    writes: Seq<FileWriteView>,
    name: Seq<char>,
)
    ensures
        directory_after(directory, writes).contains_key(name) <==> (directory.contains_key(name)
            || last_write_to(writes, name) >= 0),
        last_write_to(writes, name) >= 0 ==> directory_after(directory, writes)[name]
            == writes[last_write_to(writes, name)].content,
        last_write_to(writes, name) < 0 ==> directory_after(directory, writes)[name]
            == directory[name],
    decreases writes.len(),
{
    if writes.len() > 0 {
        lemma_directory_after(directory, writes.drop_last(), name);
        lemma_last_write_to(writes.drop_last(), name);
    }
}

/// Carrying out the same writes a second time changes nothing: the directory
/// after both runs is the directory after the first.
pub proof fn lemma_writing_twice_is_writing_once(directory: Directory, writes: Seq<FileWriteView>)
    ensures
        directory_after(directory_after(directory, writes), writes) == directory_after(
            directory,
            writes,
        ),
{
    let once = directory_after(directory, writes);
    let twice = directory_after(once, writes);
    assert forall|name: Seq<char>|
        #![trigger twice.dom().contains(name)]
        #![trigger once.dom().contains(name)]
        twice.dom().contains(name) == once.dom().contains(name) && (once.dom().contains(name)
            ==> twice[name] == once[name]) by {
        lemma_directory_after(directory, writes, name);
        lemma_directory_after(once, writes, name);
    }
}

/// Whether no two of the writes go to the same file name.
pub open spec fn names_are_distinct(writes: Seq<FileWriteView>) -> bool {
    forall|i: int, j: int|
        0 <= i < j < writes.len() ==> (#[trigger] writes[i]).file_name != (
        #[trigger] writes[j]).file_name
}

/// Where no two writes go to the same file name, the order in which they are
/// carried out does not matter: the same writes in any other order leave the
/// same directory.
pub proof fn lemma_order_is_irrelevant_without_collisions(
    directory: Directory,
    writes: Seq<FileWriteView>,
    reordered: Seq<FileWriteView>,
)
    requires
        names_are_distinct(writes),
        reordered.to_multiset() == writes.to_multiset(),
    ensures
        directory_after(directory, reordered) == directory_after(directory, writes),
{
    let first = directory_after(directory, writes);
    let second = directory_after(directory, reordered);
    writes.to_multiset_ensures();
    reordered.to_multiset_ensures();
    assert forall|name: Seq<char>|
        #![trigger first.dom().contains(name)]
        #![trigger second.dom().contains(name)]
        second.dom().contains(name) == first.dom().contains(name) && (first.dom().contains(name)
            ==> second[name] == first[name]) by {
        lemma_directory_after(directory, writes, name);
        lemma_directory_after(directory, reordered, name);
        lemma_last_write_to(writes, name);
        lemma_last_write_to(reordered, name);
        let here = last_write_to(writes, name);
        let there = last_write_to(reordered, name);
        if here >= 0 {
            assert(reordered.to_multiset().count(writes[here]) > 0);
        }
        if there >= 0 {
            assert(writes.to_multiset().count(reordered[there]) > 0);
        }
    }
}

/// Writing a second time changes nothing even where the two runs carry out
/// the writes in different orders, as long as no two writes go to the same
/// file name: the directory after both runs is the directory after one run in
/// the order of the plan.
pub proof fn lemma_rewriting_in_any_order_changes_nothing(
    directory: Directory,
    writes: Seq<FileWriteView>,
    first_run: Seq<FileWriteView>,
    second_run: Seq<FileWriteView>,
)
    requires
        names_are_distinct(writes),
        first_run.to_multiset() == writes.to_multiset(),
        second_run.to_multiset() == writes.to_multiset(),
    ensures
        directory_after(directory, first_run) == directory_after(directory, writes),
        directory_after(directory_after(directory, first_run), second_run) == directory_after(
            directory,
            writes,
        ),
{
    lemma_order_is_irrelevant_without_collisions(directory, writes, first_run);
    lemma_order_is_irrelevant_without_collisions(
        directory_after(directory, writes),
        writes,
        second_run,
    );
    lemma_writing_twice_is_writing_once(directory, writes);
}

/// Flattens a change set into the writes it asks for.
///
/// The writes keep the order of the change set. An entry whose path has no
/// file name, such as the empty path or `/`, gives no write and no error.
pub fn plan_writes(changes: &[(String, String)]) -> (writes: Vec<FileWrite>)
    ensures
        writes.deep_view() == planned_writes(changes.deep_view()),
        writes.len() <= changes.len(),
        forall|i: int| 0 <= i < writes.len() ==> is_flat_name(#[trigger] writes[i].file_name@),
{
    let mut writes: Vec<FileWrite> = Vec::new();
    let mut taken: usize = 0;
    while taken < changes.len()
        invariant
            taken <= changes.len(),
            writes.deep_view() == planned_writes(changes.deep_view().take(taken as int)),
        decreases changes.len() - taken,
    {
        let ghost before = changes.deep_view().take(taken as int);
        let ghost upto = changes.deep_view().take(taken as int + 1);
        proof {
            assert(upto.drop_last() =~= before);
        }
        let entry = &changes[taken];
        match file_name(entry.0.as_str()) {
            Some(name) => {
                let write = FileWrite { file_name: name, content: entry.1.clone() };
                writes.push(write);
            },
            None => {},
        }
        taken = taken + 1;
    }
    proof {
        assert(changes.deep_view().take(taken as int) =~= changes.deep_view());
        lemma_planned_writes_are_flat(changes.deep_view());
        assert forall|i: int| 0 <= i < writes.len() implies is_flat_name(
            #[trigger] writes[i].file_name@,
        ) by {
            assert(writes.deep_view()[i].file_name == writes[i].file_name@);
        }
    }
    writes
}

} // verus!
