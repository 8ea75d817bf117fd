//! Laws of the store, stated over the mathematical model and proved once
//! for every input.

use vstd::prelude::*;
use crate::manager::{all_set, title_index_of, toggled};
use crate::todo::{title_ok, TodoView};

verus! {

/// Adding a valid title and then looking that title up finds a record with
/// that exact title: the index points at the newly appended record.
pub proof fn lemma_add_then_find_by_title(s: Seq<TodoView>, title: Seq<char>)
    requires
        title_ok(title),
    ensures
        ({
            let added = s.push((TodoView { id: s.len() as int, title, status: false }));
            let ix = title_index_of(added);
            ix.contains_key(title) && ix[title] == s.len() && added[ix[title]].title == title
        }),
{
    let added = s.push(TodoView { id: s.len() as int, title, status: false });
    assert(added.drop_last() =~= s);
}

/// Adding a record and then removing it by its newly assigned id restores
/// the sequence exactly, and with it the pre-add length.
pub proof fn lemma_add_then_remove_by_id(s: Seq<TodoView>, title: Seq<char>)
    requires
        title_ok(title),
    ensures
        ({
            let added = s.push((TodoView { id: s.len() as int, title, status: false }));
            0 <= s.len() < added.len() && added.remove(s.len() as int) == s
        }),
{
    let added = s.push(TodoView { id: s.len() as int, title, status: false });
    assert(added.remove(s.len() as int) =~= s);
}

/// A toggle flips the status exactly once, and toggling twice restores the
/// record.
pub proof fn lemma_toggle_flips(t: TodoView)
    ensures
        toggled(t).status == !t.status,
        toggled(t).id == t.id,
        toggled(t).title == t.title,
        toggled(toggled(t)) == t,
{
}

/// Setting every status leaves each record's id and title alone and gives
/// each record exactly the given status, whatever it held before.
pub proof fn lemma_set_all_statuses(s: Seq<TodoView>, status: bool)
    ensures
        all_set(s, status).len() == s.len(),
        forall|i: int| 0 <= i < s.len() ==> (#[trigger] all_set(s, status)[i]) == (TodoView {
            id: s[i].id,
            title: s[i].title,
            status,
        }),
{
}

/// After everything is removed the denoted index is empty, so a lookup of
/// any title whatsoever reports nothing.
pub proof fn lemma_remove_all_then_find(title: Seq<char>)
    ensures
        !title_index_of(Seq::<TodoView>::empty()).contains_key(title),
{
}

} // verus!
