//! `rename`: another name for a box.

use vstd::prelude::*;

use crate::state;
use crate::state::{BoxRecord, RecordView, StateFile};
use crate::text::{cat3, cat4};

verus! {

/// The arguments of `rename`.
#[derive(Debug)]
pub struct RenameArgs {
    pub box_name: String,
    pub new_name: String,
}

/// Whether a name is taken.
pub open spec fn taken(records: Seq<RecordView>, name: Seq<char>) -> bool {
    exists|i: int| 0 <= i < records.len() && (#[trigger] records[i]).name == name
}

/// Gives a box another name, unless the name is taken. `found` is where the box
/// stands in the records, or why it is not found.
pub fn rename_box(state: &mut StateFile, found: Result<usize, String>, new_name: &str) -> (r: Result<String, String>)
    requires
        found matches Ok(at) ==> at < old(state)@.len(),
    ensures
        if taken(old(state)@, new_name@) {
            r matches Err(e) && e@ == "Name \""@ + new_name@ + "\" is already in use"@ && final(state)@ == old(state)@
        } else {
            match found {
                Err(e) => r matches Err(x) && x@ == e@ && final(state)@ == old(state)@,
                Ok(at) => r matches Ok(line) && line@ == "Renamed "@ + old(state)@[at as int].name + " → "@ + new_name@
                    && final(state)@ == old(state)@.update(
                    at as int,
                    RecordView { name: new_name@, ..old(state)@[at as int] },
                ),
            }
        },
{
    if state.find_by_name(new_name).is_some() {
        return Err(cat3("Name \"", new_name, "\" is already in use"));
    }
    let at: usize = found?;
    let mut record: BoxRecord = state.get(at).clone();
    let old_name = record.name;
    record.name = new_name.to_string();
    state.set(at, record);
    Ok(cat4("Renamed ", &old_name, " → ", new_name))
}

/// Whether no two boxes have the same name.
pub open spec fn names_differ(records: Seq<RecordView>) -> bool {
    forall|i: int, j: int|
        0 <= i < j < records.len() ==> (#[trigger] records[i]).name != (#[trigger] records[j]).name
}

/// Renaming keeps the names of boxes different, and the old name is free then.
pub proof fn lemma_rename_keeps_names_apart(records: Seq<RecordView>, at: int, new_name: Seq<char>)
    requires
        0 <= at < records.len(),
        names_differ(records),
        !taken(records, new_name),
    ensures
        ({
            let after = records.update(at, RecordView { name: new_name, ..records[at] });
            &&& names_differ(after)
            &&& taken(after, new_name)
            &&& !taken(after, records[at].name)
        }),
{
    let after = records.update(at, RecordView { name: new_name, ..records[at] });
    assert forall|i: int, j: int| 0 <= i < j < after.len() implies (#[trigger] after[i]).name != (
    #[trigger] after[j]).name by {
        assert(records[i].name != new_name && records[j].name != new_name);
        assert(records[i].name != records[j].name);
    }
    assert(after[at].name == new_name);
    if taken(after, records[at].name) {
        let i = choose|i: int| 0 <= i < after.len() && (#[trigger] after[i]).name == records[at].name;
        if i < at {
            assert(records[i].name != records[at].name);
        } else if i > at {
            assert(records[at].name != records[i].name);
        } else {
            assert(records[at].name != new_name);
        }
    }
}

/// A box is renamed only to a name that no box has, and only that box and only its
/// name change. A refusal changes nothing.
pub proof fn lemma_rename_changes_one_name(
    state: &mut StateFile,
    found: Result<usize, String>,
    new_name: &str,
    r: Result<String, String>,
)
    requires
        found matches Ok(at) ==> at < old(state)@.len(),
        call_ensures(rename_box, (state, found, new_name), r),
    ensures
        r is Err ==> final(state)@ == old(state)@,
        (exists|i: int| 0 <= i < old(state)@.len() && (#[trigger] old(state)@[i]).name == new_name@)
            ==> r is Err,
        found is Err ==> r is Err,
        found is Ok && r is Ok ==> {
            let at = found->Ok_0;
            &&& final(state)@.len() == old(state)@.len()
            &&& final(state)@[at as int].name == new_name@
            &&& final(state)@[at as int].id == old(state)@[at as int].id
            &&& final(state)@[at as int].status == old(state)@[at as int].status
            &&& forall|i: int|
                0 <= i < old(state)@.len() && i != at ==> #[trigger] final(state)@[i] == old(state)@[i]
        },
        found is Ok && (forall|i: int|
            0 <= i < old(state)@.len() ==> (#[trigger] old(state)@[i]).name != new_name@) ==> r is Ok,
{
}

} // verus!
