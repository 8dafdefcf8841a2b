//! The task entity and the form payloads that create or change one.

use vstd::prelude::*;

verus! {

/// A task as the store holds it.
#[derive(Debug, Clone)]
pub struct Todo {
    pub id: String,
    pub title: String,
    pub completed: bool,
    pub created_at: String,
}

/// The mathematical value of a task.
pub struct TodoView {
    pub id: Seq<char>,
    pub title: Seq<char>,
    pub completed: bool,
    pub created_at: Seq<char>,
}

impl View for Todo {
    type V = TodoView;

    open spec fn view(&self) -> TodoView {
        TodoView {
            id: self.id@,
            title: self.title@,
            completed: self.completed,
            created_at: self.created_at@,
        }
    }
}

impl Todo {
    /// The same task, field by field, as a value of its own.
    pub fn same_task(&self) -> (r: Todo)
        ensures
            r@ == self@,
    {
        Todo {
            id: self.id.clone(),
            title: self.title.clone(),
            completed: self.completed,
            created_at: self.created_at.clone(),
        }
    }
}

/// The form that creates a task.
#[derive(Debug, Clone)]
pub struct CreateTodo {
    pub title: String,
}

/// The form that overwrites a task's title and completion flag.
#[derive(Debug, Clone)]
pub struct UpdateTodo {
    pub title: String,
    pub completed: bool,
}

/// The values of a sequence of tasks.
pub open spec fn views(s: Seq<Todo>) -> Seq<TodoView> {
    s.map_values(|t: Todo| t@)
}

} // verus!
