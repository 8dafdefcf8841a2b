//! What each request does to the table: list it, create, toggle, edit,
//! delete, and clear the completed tasks.

use vstd::prelude::*;
use crate::database;
use crate::database::{TodoStore, has_id, inserted_by_age, updated, without_id, rows_wf};
use crate::models::{CreateTodo, Todo, TodoView, UpdateTodo, views};
use crate::text::{trim, trimmed};

verus! {

/// What the list page shows: every task, newest first, and two counts.
pub struct IndexPage {
    pub todos: Vec<Todo>,
    pub completed_count: usize,
    pub total_count: usize,
}

/// Why a request is answered with an error page.
#[derive(Debug, Clone, Copy, PartialEq, Eq, Structural)]
pub enum HandlerError {
    /// No task carries the requested id.
    NotFound,
}

/// How many of `rows` are completed.
pub open spec fn completed_count(rows: Seq<TodoView>) -> nat
    decreases rows.len(),
{
    if rows.len() == 0 {
        0
    } else {
        completed_count(rows.drop_last()) + if rows.last().completed {
            1nat
        } else {
            0nat
        }
    }
}

/// The rows that are not completed, in their order.
pub open spec fn open_rows(rows: Seq<TodoView>) -> Seq<TodoView>
    decreases rows.len(),
{
    if rows.len() == 0 {
        rows
    } else {
        let rest = open_rows(rows.drop_last());
        if rows.last().completed {
            rest
        } else {
            rest.push(rows.last())
        }
    }
}

/// `r` with its completion flag flipped if it carries `id`.
pub open spec fn toggled_row(r: TodoView, id: Seq<char>) -> TodoView {
    if r.id == id {
        TodoView { id: r.id, title: r.title, completed: !r.completed, created_at: r.created_at }
    } else {
        r
    }
}

/// The rows after flipping the completion flag of the row that carries `id`.
pub open spec fn toggled(rows: Seq<TodoView>, id: Seq<char>) -> Seq<TodoView> {
    rows.map_values(|r: TodoView| toggled_row(r, id))
}

/// `after` is `before` with the task that a form titled `title` makes under
/// the id `id`, 36 characters long and not in `before`, and the UTC stamp
/// `created_at`.
pub open spec fn stored_new_task(
    before: Seq<TodoView>,
    after: Seq<TodoView>,
    title: Seq<char>,
    id: Seq<char>,
    created_at: Seq<char>,
) -> bool {
    &&& id.len() == 36
    &&& is_utc_stamp(created_at)
    &&& !has_id(before, id)
    &&& inserted_by_age(before, after, new_task(title, id, created_at))
}

/// The task that a creation form makes, given its id and creation time.
pub open spec fn new_task(title: Seq<char>, id: Seq<char>, created_at: Seq<char>) -> TodoView {
    TodoView { id: id, title: trimmed(title), completed: false, created_at: created_at }
}

/// Text in the shape of a UTC time stamp in RFC 3339: at least the date, the
/// time to the second and the offset, and the offset written `+00:00`.
pub open spec fn is_utc_stamp(s: Seq<char>) -> bool {
    &&& s.len() >= 25
    &&& s.subrange(s.len() - 6, s.len() as int) == seq!['+', '0', '0', ':', '0', '0']
}

/// Relies on getrandom's `fill`: sixteen bytes from the system's random
/// source, or `None` where that source fails.
#[verifier::external_body]
fn random_bytes() -> (r: Option<[u8; 16]>) {
    let mut bytes = [0u8; 16];
    getrandom::fill(&mut bytes).ok().map(|()| bytes)
}

/// Relies on uuid's `Builder::from_random_bytes`, written out by the uuid's
/// `Display`: a version 4 id in the hyphenated form, 36 characters long.
#[verifier::external_body]
fn random_id(bytes: [u8; 16]) -> (r: String)
    ensures
        r@.len() == 36,
{
    uuid::Builder::from_random_bytes(bytes).into_uuid().to_string()
}

/// Relies on std's `SystemTime::duration_since` on `SystemTime::now()`: the
/// whole seconds since the Unix epoch and the nanoseconds past them, or `None`
/// where the clock reads before the epoch.
#[verifier::external_body]
fn since_epoch() -> (r: Option<(u64, u32)>)
    ensures
        r matches Some(t) ==> t.1 < 1_000_000_000,
{
    std::time::SystemTime::now()
        .duration_since(std::time::UNIX_EPOCH)
        .ok()
        .map(|d| (d.as_secs(), d.subsec_nanos()))
}

/// Relies on chrono's `DateTime::from_timestamp` and `DateTime::to_rfc3339`:
/// the UTC time that many seconds and nanoseconds after the Unix epoch, as RFC
/// 3339 text with the offset written `+00:00`, or `None` where chrono cannot
/// hold that time.
#[verifier::external_body]
fn utc_stamp(secs: i64, nanos: u32) -> (r: Option<String>)
    ensures
        r matches Some(s) ==> is_utc_stamp(s@),
{
    chrono::DateTime::from_timestamp(secs, nanos).map(|d| d.to_rfc3339())
}

/// The time now as a UTC stamp, or `None` where the clock cannot be read.
fn now_stamp() -> (r: Option<String>)
    ensures
        r matches Some(s) ==> is_utc_stamp(s@),
{
    match since_epoch() {
        Some((secs, nanos)) => {
            if secs <= i64::MAX as u64 {
                utc_stamp(secs as i64, nanos)
            } else {
                None
            }
        },
        None => None,
    }
}

/// Counts the completed tasks.
pub fn count_completed(todos: &Vec<Todo>) -> (r: usize)
    ensures
        r == completed_count(views(todos@)),
{
    let mut n: usize = 0;
    let mut i: usize = 0;
    while i < todos.len()
        invariant
            i <= todos.len(),
            n <= i,
            n == completed_count(views(todos@).take(i as int)),
        decreases todos.len() - i,
    {
        let ghost all = views(todos@);
        assert(all.take(i + 1).drop_last() =~= all.take(i as int));
        assert(all.take(i + 1).last() == todos@[i as int]@);
        if todos[i].completed {
            n = n + 1;
        }
        i = i + 1;
    }
    assert(views(todos@).take(i as int) =~= views(todos@));
    n
}

/// The list page.
pub fn index(store: &TodoStore) -> (r: IndexPage)
    ensures
        views(r.todos@) == store@,
        r.completed_count == completed_count(store@),
        r.total_count == store@.len(),
{
    let todos = database::get_all_todos(store);
    let completed_count = count_completed(&todos);
    let total_count = todos.len();
    IndexPage { todos, completed_count, total_count }
}

/// The task that a creation form makes with the given id and creation time:
/// its title trimmed, not completed; `None` where the title trims to nothing.
pub fn new_todo(form: &CreateTodo, id: String, created_at: String) -> (r: Option<Todo>)
    ensures
        r is None <==> trimmed(form.title@).len() == 0,
        r matches Some(t) ==> t@ == new_task(form.title@, id@, created_at@),
{
    let title = trim(form.title.as_str());
    if title.as_str().unicode_len() == 0 {
        return None;
    }
    Some(Todo { id, title, completed: false, created_at })
}

/// Stores the task that a creation form makes with the given id and creation
/// time. Returns whether a task was stored: not where the title is blank, nor
/// where the id is taken.
pub fn add_todo(store: &mut TodoStore, form: &CreateTodo, id: String, created_at: String) -> (r: bool)
    requires
        old(store).wf(),
    ensures
        final(store).wf(),
        r == (trimmed(form.title@).len() != 0 && !has_id(old(store)@, id@)),
        !r ==> final(store)@ == old(store)@,
        r ==> inserted_by_age(old(store)@, final(store)@, new_task(form.title@, id@, created_at@)),
{
    match new_todo(form, id, created_at) {
        Some(todo) => database::create_todo(store, &todo).is_ok(),
        None => false,
    }
}

/// What became of a creation form.
#[derive(Debug, Clone, Copy, PartialEq, Eq, Structural)]
pub enum CreateOutcome {
    /// The task was stored.
    Stored,
    /// The title was blank: nothing was stored.
    BlankTitle,
    /// The drawn id was taken already: nothing was stored.
    IdTaken,
    /// No random id or no time could be had: nothing was stored.
    Unavailable,
}

/// Handles a creation form: a task with a fresh random id, stamped with the
/// time now, its title trimmed and not completed. A blank title stores
/// nothing, nor does an id that happens to be taken, nor a failure to draw
/// the id or read the clock; the outcome says which.
pub fn create_todo(store: &mut TodoStore, form: CreateTodo) -> (r: CreateOutcome)
    requires
        old(store).wf(),
    ensures
        final(store).wf(),
        (r == CreateOutcome::BlankTitle) <==> trimmed(form.title@).len() == 0,
        r != CreateOutcome::Stored ==> final(store)@ == old(store)@,
        r == CreateOutcome::IdTaken ==> exists|id: Seq<char>| id.len() == 36 && has_id(old(store)@, id),
        r == CreateOutcome::Stored ==> exists|id: Seq<char>, created_at: Seq<char>|
            stored_new_task(old(store)@, final(store)@, form.title@, id, created_at),
{
    let title = trim(form.title.as_str());
    if title.as_str().unicode_len() == 0 {
        return CreateOutcome::BlankTitle;
    }
    let bytes = match random_bytes() {
        Some(b) => b,
        None => return CreateOutcome::Unavailable,
    };
    let created_at = match now_stamp() {
        Some(s) => s,
        None => return CreateOutcome::Unavailable,
    };
    let id = random_id(bytes);
    let ghost i = id@;
    let ghost c = created_at@;
    if add_todo(store, &form, id, created_at) {
        assert(stored_new_task(old(store)@, store@, form.title@, i, c));
        CreateOutcome::Stored
    } else {
        CreateOutcome::IdTaken
    }
}

/// Flips the completion flag of the task that carries `id`; where no task
/// does, nothing changes.
pub fn toggle_todo(store: &mut TodoStore, id: &str)
    requires
        old(store).wf(),
    ensures
        final(store).wf(),
        final(store)@ == toggled(old(store)@, id@),
{
    let ghost before = store@;
    match database::get_todo_by_id(store, id) {
        Some(todo) => {
            database::update_todo(store, id, todo.title.as_str(), !todo.completed);
            proof {
                let c = choose|c: int| 0 <= c < before.len() && before[c] == todo@;
                assert forall|j: int| 0 <= j < before.len() implies #[trigger] store@[j]
                    == toggled_row(before[j], id@) by {
                    if before[j].id == id@ {
                        assert(j == c);
                    }
                }
                assert(store@ =~= toggled(before, id@));
            }
        },
        None => {
            assert(store@ =~= toggled(before, id@));
        },
    }
}

/// Removes the task that carries `id`; where no task does, nothing changes.
pub fn delete_todo(store: &mut TodoStore, id: &str)
    requires
        old(store).wf(),
    ensures
        final(store).wf(),
        final(store)@ == without_id(old(store)@, id@),
{
    database::delete_todo(store, id);
}

/// The task to show in the edit form, or `NotFound`.
pub fn edit_todo_form(store: &TodoStore, id: &str) -> (r: Result<Todo, HandlerError>)
    ensures
        r is Err <==> !has_id(store@, id@),
        r matches Ok(t) ==> t@.id == id@ && store@.contains(t@),
{
    match database::get_todo_by_id(store, id) {
        Some(todo) => Ok(todo),
        None => Err(HandlerError::NotFound),
    }
}

/// Handles an edit form: overwrites the title and completion flag of the task
/// that carries `id`; where no task does, nothing changes.
pub fn update_todo(store: &mut TodoStore, id: &str, form: &UpdateTodo)
    requires
        old(store).wf(),
    ensures
        final(store).wf(),
        final(store)@ == updated(old(store)@, id@, form.title@, form.completed),
{
    database::update_todo(store, id, form.title.as_str(), form.completed);
}

/// Deletes every completed task, one by one; the others stay in their order.
pub fn clear_completed(store: &mut TodoStore)
    requires
        old(store).wf(),
    ensures
        final(store).wf(),
        final(store)@ == open_rows(old(store)@),
{
    let todos = database::get_all_todos(store);
    let ghost snap = store@;
    let mut i: usize = 0;
    assert(store@ =~= open_rows(snap.take(0)) + snap.skip(0));
    while i < todos.len()
        invariant
            i <= todos.len(),
            views(todos@) == snap,
            rows_wf(snap),
            store.wf(),
            store@ == open_rows(snap.take(i as int)) + snap.skip(i as int),
        decreases todos.len() - i,
    {
        let ghost cur = store@;
        let ghost kept = open_rows(snap.take(i as int));
        assert(snap.take(i + 1).drop_last() =~= snap.take(i as int));
        assert(snap.take(i + 1).last() == snap[i as int]);
        assert(todos@[i as int]@ == snap[i as int]);
        if todos[i].completed {
            assert(cur[kept.len() as int] == snap[i as int]);
            database::delete_todo(store, todos[i].id.as_str());
            proof {
                let c = choose|c: int| 0 <= c < cur.len() && cur[c].id == snap[i as int].id;
                assert(c == kept.len());
                assert(store@ =~= kept + snap.skip(i + 1));
            }
        } else {
            assert(store@ =~= kept.push(snap[i as int]) + snap.skip(i + 1));
        }
        i = i + 1;
    }
    assert(snap.take(i as int) =~= snap);
    assert(store@ =~= open_rows(snap));
}

} // verus!
