//! The task table: rows kept newest first, each id at most once.

use vstd::prelude::*;
use crate::models::{Todo, TodoView, views};
use crate::text::{same_text, text_before, text_lt, lemma_text_lt_asymmetric, lemma_text_lt_transitive};

verus! {

/// Why the store refused a change.
#[derive(Debug, Clone, Copy, PartialEq, Eq, Structural)]
pub enum StoreError {
    /// A task with the same id is stored already.
    Conflict,
}

/// Some row carries `id`.
pub open spec fn has_id(rows: Seq<TodoView>, id: Seq<char>) -> bool {
    exists|i: int| 0 <= i < rows.len() && rows[i].id == id
}

/// No two rows carry the same id.
pub open spec fn ids_unique(rows: Seq<TodoView>) -> bool {
    forall|i: int, j: int|
        0 <= i < rows.len() && 0 <= j < rows.len() && i != j ==> #[trigger] rows[i].id
            != #[trigger] rows[j].id
}

/// No row is older than a row after it: the creation times descend.
pub open spec fn newest_first(rows: Seq<TodoView>) -> bool {
    forall|i: int, j: int|
        0 <= i < j < rows.len() ==> !text_lt(#[trigger] rows[i].created_at, #[trigger] rows[j].created_at)
}

/// The invariant of the table.
pub open spec fn rows_wf(rows: Seq<TodoView>) -> bool {
    ids_unique(rows) && newest_first(rows)
}

/// `k` is where a row created at `at` goes: after every row that is not older,
/// before the first row that is.
pub open spec fn is_insert_point(rows: Seq<TodoView>, k: int, at: Seq<char>) -> bool {
    &&& 0 <= k <= rows.len()
    &&& forall|i: int| 0 <= i < k ==> !text_lt(#[trigger] rows[i].created_at, at)
    &&& k < rows.len() ==> text_lt(rows[k].created_at, at)
}

/// `after` is `before` with `t` put at its place by creation time.
pub open spec fn inserted_by_age(before: Seq<TodoView>, after: Seq<TodoView>, t: TodoView) -> bool {
    exists|k: int| is_insert_point(before, k, t.created_at) && after == before.insert(k, t)
}

/// `r` with a new title and completion flag if it carries `id`.
pub open spec fn updated_row(r: TodoView, id: Seq<char>, title: Seq<char>, completed: bool) -> TodoView {
    if r.id == id {
        TodoView { id: r.id, title: title, completed: completed, created_at: r.created_at }
    } else {
        r
    }
}

/// The rows after overwriting the title and flag of the row that carries `id`.
pub open spec fn updated(rows: Seq<TodoView>, id: Seq<char>, title: Seq<char>, completed: bool) -> Seq<TodoView> {
    rows.map_values(|r: TodoView| updated_row(r, id, title, completed))
}

/// The rows without the one that carries `id`, if there is one.
pub open spec fn without_id(rows: Seq<TodoView>, id: Seq<char>) -> Seq<TodoView> {
    if has_id(rows, id) {
        rows.remove(choose|i: int| 0 <= i < rows.len() && rows[i].id == id)
    } else {
        rows
    }
}

/// The table of tasks.
pub struct TodoStore {
    rows: Vec<Todo>,
}

impl View for TodoStore {
    type V = Seq<TodoView>;

    closed spec fn view(&self) -> Seq<TodoView> {
        views(self.rows@)
    }
}

impl TodoStore {
    /// The table's invariant: ids unique, rows newest first.
    pub open spec fn wf(&self) -> bool {
        rows_wf(self@)
    }
}

/// An empty table.
pub fn setup_database() -> (r: TodoStore)
    ensures
        r.wf(),
        r@ == Seq::<TodoView>::empty(),
{
    let r = TodoStore { rows: Vec::new() };
    assert(r@ =~= Seq::<TodoView>::empty());
    r
}

/// The index of the row that carries `id`.
fn position_of(store: &TodoStore, id: &str) -> (r: Option<usize>)
    ensures
        r is None <==> !has_id(store@, id@),
        r matches Some(i) ==> i < store@.len() && store@[i as int].id == id@,
{
    let mut i: usize = 0;
    while i < store.rows.len()
        invariant
            i <= store.rows.len(),
            store@.len() == store.rows@.len(),
            forall|j: int| 0 <= j < i ==> store@[j].id != id@,
        decreases store.rows.len() - i,
    {
        if same_text(store.rows[i].id.as_str(), id) {
            assert(store@[i as int] == store.rows@[i as int]@);
            return Some(i);
        }
        assert(store@[i as int] == store.rows@[i as int]@);
        i = i + 1;
    }
    None
}

/// All tasks, newest first.
pub fn get_all_todos(store: &TodoStore) -> (r: Vec<Todo>)
    ensures
        views(r@) == store@,
{
    let mut out: Vec<Todo> = Vec::new();
    let mut i: usize = 0;
    while i < store.rows.len()
        invariant
            i <= store.rows.len(),
            store@.len() == store.rows@.len(),
            out@.len() == i,
            forall|j: int| 0 <= j < i ==> (#[trigger] out@[j])@ == store@[j],
        decreases store.rows.len() - i,
    {
        out.push(store.rows[i].same_task());
        i = i + 1;
    }
    assert(views(out@) =~= store@);
    out
}

/// The task that carries `id`, or `None` where no task does.
pub fn get_todo_by_id(store: &TodoStore, id: &str) -> (r: Option<Todo>)
    ensures
        r is None <==> !has_id(store@, id@),
        r matches Some(t) ==> t@.id == id@ && store@.contains(t@),
{
    match position_of(store, id) {
        Some(i) => {
            let t = store.rows[i].same_task();
            assert(store@[i as int] == t@);
            Some(t)
        },
        None => None,
    }
}

/// Stores a new task at its place by creation time; refuses an id that is
/// stored already, and then leaves the table as it was.
pub fn create_todo(store: &mut TodoStore, todo: &Todo) -> (r: Result<(), StoreError>)
    requires
        old(store).wf(),
    ensures
        final(store).wf(),
        r is Err <==> has_id(old(store)@, todo.id@),
        r is Err ==> final(store)@ == old(store)@,
        r is Ok ==> inserted_by_age(old(store)@, final(store)@, todo@),
{
    if position_of(store, todo.id.as_str()).is_some() {
        return Err(StoreError::Conflict);
    }
    let mut k: usize = 0;
    while k < store.rows.len() && !text_before(store.rows[k].created_at.as_str(), todo.created_at.as_str())
        invariant
            k <= store.rows.len(),
            store@.len() == store.rows@.len(),
            forall|i: int| 0 <= i < k ==> !text_lt(#[trigger] store@[i].created_at, todo.created_at@),
        decreases store.rows.len() - k,
    {
        assert(store@[k as int] == store.rows@[k as int]@);
        k = k + 1;
    }
    let ghost before = store@;
    let ghost t = todo@;
    proof {
        if k < before.len() {
            assert(before[k as int] == store.rows@[k as int]@);
        }
        assert(is_insert_point(before, k as int, t.created_at));
    }
    store.rows.insert(k, todo.same_task());
    proof {
        let after = before.insert(k as int, t);
        assert(store@ =~= after);
        assert forall|i: int, j: int|
            0 <= i < after.len() && 0 <= j < after.len() && i != j implies #[trigger] after[i].id
                != #[trigger] after[j].id by {
            if i == k {
                assert(after[j] == if j < k { before[j] } else { before[j - 1] });
            } else if j == k {
                assert(after[i] == if i < k { before[i] } else { before[i - 1] });
            } else {
                let bi = if i < k { i } else { i - 1 };
                let bj = if j < k { j } else { j - 1 };
                assert(after[i] == before[bi] && after[j] == before[bj]);
            }
        }
        assert forall|i: int, j: int|
            0 <= i < j < after.len() implies !text_lt(#[trigger] after[i].created_at, #[trigger] after[j].created_at) by {
            if i == k {
                let bj = j - 1;
                assert(after[j] == before[bj]);
                if bj > k {
                    assert(!text_lt(before[k as int].created_at, before[bj].created_at));
                }
                if text_lt(t.created_at, before[bj].created_at) {
                    lemma_text_lt_transitive(before[k as int].created_at, t.created_at, before[bj].created_at);
                    lemma_text_lt_asymmetric(before[k as int].created_at, before[bj].created_at);
                }
            } else if j == k {
                assert(after[i] == before[i]);
            } else {
                let bi = if i < k { i } else { i - 1 };
                let bj = if j < k { j } else { j - 1 };
                assert(after[i] == before[bi] && after[j] == before[bj]);
            }
        }
    }
    Ok(())
}

/// Overwrites the title and completion flag of the task that carries `id`;
/// where no task does, the table stays as it was.
pub fn update_todo(store: &mut TodoStore, id: &str, title: &str, completed: bool)
    requires
        old(store).wf(),
    ensures
        final(store).wf(),
        final(store)@ == updated(old(store)@, id@, title@, completed),
{
    let ghost before = store@;
    match position_of(store, id) {
        Some(i) => {
            let row = Todo {
                id: store.rows[i].id.clone(),
                title: String::from_str(title),
                completed: completed,
                created_at: store.rows[i].created_at.clone(),
            };
            store.rows[i] = row;
            proof {
                assert forall|j: int| 0 <= j < before.len() implies #[trigger] store@[j]
                    == updated_row(before[j], id@, title@, completed) by {
                    if j != i {
                        assert(before[j].id != before[i as int].id);
                    }
                }
                assert(store@ =~= updated(before, id@, title@, completed));
            }
        },
        None => {
            assert(store@ =~= updated(before, id@, title@, completed));
        },
    }
    proof {
        assert forall|i: int, j: int|
            0 <= i < j < store@.len() implies !text_lt(#[trigger] store@[i].created_at, #[trigger] store@[j].created_at) by {
            assert(store@[i].created_at == before[i].created_at);
            assert(store@[j].created_at == before[j].created_at);
        }
        assert forall|i: int, j: int|
            0 <= i < store@.len() && 0 <= j < store@.len() && i != j implies #[trigger] store@[i].id
                != #[trigger] store@[j].id by {
            assert(store@[i].id == before[i].id);
            assert(store@[j].id == before[j].id);
        }
    }
}

/// Removes the task that carries `id`; where no task does, the table stays as
/// it was.
pub fn delete_todo(store: &mut TodoStore, id: &str)
    requires
        old(store).wf(),
    ensures
        final(store).wf(),
        final(store)@ == without_id(old(store)@, id@),
{
    let ghost before = store@;
    match position_of(store, id) {
        Some(i) => {
            store.rows.remove(i);
            proof {
                let c = choose|c: int| 0 <= c < before.len() && before[c].id == id@;
                assert(c == i);
                assert(store@ =~= before.remove(i as int));
                assert forall|a: int, b: int|
                    0 <= a < b < store@.len() implies !text_lt(#[trigger] store@[a].created_at, #[trigger] store@[b].created_at) by {
                    let ba = if a < i { a } else { a + 1 };
                    let bb = if b < i { b } else { b + 1 };
                    assert(store@[a] == before[ba] && store@[b] == before[bb]);
                }
                assert forall|a: int, b: int|
                    0 <= a < store@.len() && 0 <= b < store@.len() && a != b implies #[trigger] store@[a].id
                        != #[trigger] store@[b].id by {
                    let ba = if a < i { a } else { a + 1 };
                    let bb = if b < i { b } else { b + 1 };
                    assert(store@[a] == before[ba] && store@[b] == before[bb]);
                }
            }
        },
        None => {},
    }
}

} // verus!
