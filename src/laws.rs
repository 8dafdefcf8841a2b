//! Laws of the table and of the requests on it.

use vstd::prelude::*;
use crate::database::{has_id, inserted_by_age, rows_wf, updated, without_id};
use crate::handlers::{new_task, open_rows, toggled, toggled_row};
use crate::models::TodoView;
use crate::text::{text_lt, lemma_text_lt_total};

verus! {

/// A task that creation stored is listed afterwards, not completed, under the
/// id it was given, and the list holds one task more.
pub proof fn lemma_created_task_is_listed(
    before: Seq<TodoView>,
    after: Seq<TodoView>,
    title: Seq<char>,
    id: Seq<char>,
    created_at: Seq<char>,
)
    requires
        inserted_by_age(before, after, new_task(title, id, created_at)),
    ensures
        after.contains(new_task(title, id, created_at)),
        !new_task(title, id, created_at).completed,
        new_task(title, id, created_at).id == id,
        has_id(after, id),
        after.len() == before.len() + 1,
{
    let t = new_task(title, id, created_at);
    let k = choose|k: int| crate::database::is_insert_point(before, k, t.created_at) && after == before.insert(k, t);
    assert(after[k] == t);
}

/// Toggling a task twice gives back the table as it was.
pub proof fn lemma_toggle_twice(rows: Seq<TodoView>, id: Seq<char>)
    ensures
        toggled(toggled(rows, id), id) == rows,
{
    assert forall|i: int| 0 <= i < rows.len() implies #[trigger] toggled(toggled(rows, id), id)[i] == rows[i] by {
        assert(toggled(rows, id)[i] == toggled_row(rows[i], id));
    }
    assert(toggled(toggled(rows, id), id) =~= rows);
}

/// After deleting an id no row carries it; deleting an id that no row carries
/// changes nothing.
pub proof fn lemma_delete_removes_id(rows: Seq<TodoView>, id: Seq<char>)
    requires
        rows_wf(rows),
    ensures
        !has_id(without_id(rows, id), id),
        !has_id(rows, id) ==> without_id(rows, id) == rows,
        without_id(rows, id).len() == rows.len() - if has_id(rows, id) { 1int } else { 0int },
{
    if has_id(rows, id) {
        let c = choose|i: int| 0 <= i < rows.len() && rows[i].id == id;
        let rest = rows.remove(c);
        if has_id(rest, id) {
            let j = choose|j: int| 0 <= j < rest.len() && rest[j].id == id;
            let bj = if j < c { j } else { j + 1 };
            assert(rest[j] == rows[bj]);
        }
    }
}

/// Clearing completed tasks keeps exactly the tasks that are not completed, in
/// their order.
pub proof fn lemma_clear_keeps_open_rows(rows: Seq<TodoView>)
    ensures
        forall|i: int| 0 <= i < open_rows(rows).len() ==> !(#[trigger] open_rows(rows)[i]).completed,
        forall|i: int| 0 <= i < open_rows(rows).len() ==> rows.contains(#[trigger] open_rows(rows)[i]),
        forall|i: int| 0 <= i < rows.len() && !(#[trigger] rows[i]).completed ==> open_rows(rows).contains(rows[i]),
    decreases rows.len(),
{
    if rows.len() > 0 {
        let init = rows.drop_last();
        lemma_clear_keeps_open_rows(init);
        let rest = open_rows(init);
        assert forall|i: int| 0 <= i < open_rows(rows).len() implies rows.contains(#[trigger] open_rows(rows)[i]) by {
            if i < rest.len() {
                let j = choose|j: int| 0 <= j < init.len() && init[j] == rest[i];
                assert(rows[j] == init[j]);
            } else {
                assert(rows[rows.len() - 1] == rows.last());
            }
        }
        assert forall|i: int| 0 <= i < rows.len() && !(#[trigger] rows[i]).completed implies open_rows(rows).contains(rows[i]) by {
            if i < rows.len() - 1 {
                assert(init[i] == rows[i]);
                let j = choose|j: int| 0 <= j < rest.len() && rest[j] == init[i];
                assert(open_rows(rows)[j] == rest[j]);
            } else {
                assert(open_rows(rows)[rest.len() as int] == rows[i]);
            }
        }
    }
}

/// The table lists tasks newest first: of two tasks with different creation
/// times, the earlier listed is the newer.
pub proof fn lemma_listing_descends(rows: Seq<TodoView>)
    requires
        rows_wf(rows),
    ensures
        forall|i: int, j: int|
            0 <= i < j < rows.len() && rows[i].created_at != rows[j].created_at ==> text_lt(
                #[trigger] rows[j].created_at,
                #[trigger] rows[i].created_at,
            ),
{
    assert forall|i: int, j: int|
        0 <= i < j < rows.len() && rows[i].created_at != rows[j].created_at implies text_lt(
            #[trigger] rows[j].created_at,
            #[trigger] rows[i].created_at,
        ) by {
        lemma_text_lt_total(rows[i].created_at, rows[j].created_at);
    }
}

/// Updating an id that no row carries creates no row and changes nothing;
/// an update never changes the number of rows.
pub proof fn lemma_update_missing_id(rows: Seq<TodoView>, id: Seq<char>, title: Seq<char>, completed: bool)
    ensures
        updated(rows, id, title, completed).len() == rows.len(),
        !has_id(rows, id) ==> updated(rows, id, title, completed) == rows,
{
    if !has_id(rows, id) {
        assert(updated(rows, id, title, completed) =~= rows);
    }
}

} // verus!
