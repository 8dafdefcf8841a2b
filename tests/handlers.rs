use todolist::database::{create_todo as insert_row, get_all_todos, get_todo_by_id, setup_database, TodoStore};
use todolist::handlers::{
    add_todo, clear_completed, CreateOutcome, count_completed, create_todo, delete_todo, edit_todo_form, index,
    new_todo, toggle_todo, update_todo, HandlerError,
};
use todolist::models::{CreateTodo, Todo, UpdateTodo};

fn task(id: &str, title: &str, completed: bool, created_at: &str) -> Todo {
    Todo {
        id: id.to_string(),
        title: title.to_string(),
        completed,
        created_at: created_at.to_string(),
    }
}

fn form(title: &str) -> CreateTodo {
    CreateTodo { title: title.to_string() }
}

fn titles(store: &TodoStore) -> Vec<String> {
    get_all_todos(store).into_iter().map(|t| t.title).collect()
}

#[test]
fn creating_buy_milk_lists_an_open_task() {
    let mut store = setup_database();
    assert_eq!(create_todo(&mut store, form("Buy milk")), CreateOutcome::Stored);
    let all = get_all_todos(&store);
    assert_eq!(all.len(), 1);
    assert_eq!(all[0].title, "Buy milk");
    assert!(!all[0].completed);
    assert!(!all[0].id.is_empty());
    assert_eq!(all[0].id.chars().count(), 36);
    assert!(all[0].created_at.chars().count() >= 25);
    assert!(all[0].created_at.ends_with("+00:00"));
}

#[test]
fn creating_twice_draws_two_ids() {
    let mut store = setup_database();
    assert_eq!(create_todo(&mut store, form("One")), CreateOutcome::Stored);
    assert_eq!(create_todo(&mut store, form("Two")), CreateOutcome::Stored);
    let all = get_all_todos(&store);
    assert_eq!(all.len(), 2);
    assert_ne!(all[0].id, all[1].id);
}

#[test]
fn creating_trims_the_title() {
    let mut store = setup_database();
    create_todo(&mut store, form("  Buy milk  "));
    assert_eq!(titles(&store), vec!["Buy milk"]);
    create_todo(&mut store, form("\tWalk dog \n"));
    assert_eq!(get_all_todos(&store).len(), 2);
}

#[test]
fn creating_a_blank_title_changes_nothing() {
    let mut store = setup_database();
    create_todo(&mut store, form("Keep"));
    assert_eq!(create_todo(&mut store, form("   ")), CreateOutcome::BlankTitle);
    create_todo(&mut store, form(""));
    create_todo(&mut store, form("\t\n\u{a0}\u{3000}"));
    assert_eq!(titles(&store), vec!["Keep"]);
}

#[test]
fn new_todo_builds_the_task() {
    let t = new_todo(&form("  Walk dog  "), "id-1".to_string(), "2024-01-01".to_string()).unwrap();
    assert_eq!(t.id, "id-1");
    assert_eq!(t.title, "Walk dog");
    assert!(!t.completed);
    assert_eq!(t.created_at, "2024-01-01");
    assert!(new_todo(&form(" \r\n "), "id-2".to_string(), "2024-01-01".to_string()).is_none());
}

#[test]
fn add_todo_reports_what_it_stored() {
    let mut store = setup_database();
    assert!(add_todo(&mut store, &form("One"), "x".to_string(), "2024-01-01".to_string()));
    assert!(!add_todo(&mut store, &form("Two"), "x".to_string(), "2024-01-02".to_string()));
    assert!(!add_todo(&mut store, &form("  "), "y".to_string(), "2024-01-03".to_string()));
    assert_eq!(titles(&store), vec!["One"]);
}

#[test]
fn toggling_twice_restores_the_flag() {
    let mut store = setup_database();
    insert_row(&mut store, &task("a", "A", false, "2024-01-01")).unwrap();
    toggle_todo(&mut store, "a");
    assert!(get_todo_by_id(&store, "a").unwrap().completed);
    toggle_todo(&mut store, "a");
    let t = get_todo_by_id(&store, "a").unwrap();
    assert!(!t.completed);
    assert_eq!(t.title, "A");
}

#[test]
fn toggling_a_missing_id_changes_nothing() {
    let mut store = setup_database();
    insert_row(&mut store, &task("a", "A", true, "2024-01-01")).unwrap();
    toggle_todo(&mut store, "b");
    assert!(get_todo_by_id(&store, "a").unwrap().completed);
    assert_eq!(get_all_todos(&store).len(), 1);
}

#[test]
fn deleting_removes_the_task_and_missing_ids_are_ignored() {
    let mut store = setup_database();
    insert_row(&mut store, &task("a", "A", false, "2024-01-01")).unwrap();
    insert_row(&mut store, &task("b", "B", false, "2024-01-02")).unwrap();
    delete_todo(&mut store, "a");
    assert_eq!(titles(&store), vec!["B"]);
    delete_todo(&mut store, "a");
    delete_todo(&mut store, "zzz");
    assert_eq!(titles(&store), vec!["B"]);
}

#[test]
fn clearing_completed_leaves_only_open_tasks() {
    let mut store = setup_database();
    insert_row(&mut store, &task("a", "A", true, "2024-01-03")).unwrap();
    insert_row(&mut store, &task("b", "B", false, "2024-01-02")).unwrap();
    insert_row(&mut store, &task("c", "C", true, "2024-01-01")).unwrap();
    clear_completed(&mut store);
    assert_eq!(titles(&store), vec!["B"]);
}

#[test]
fn clearing_keeps_the_order_of_open_tasks() {
    let mut store = setup_database();
    insert_row(&mut store, &task("a", "A", false, "2024-01-04")).unwrap();
    insert_row(&mut store, &task("b", "B", true, "2024-01-03")).unwrap();
    insert_row(&mut store, &task("c", "C", false, "2024-01-02")).unwrap();
    insert_row(&mut store, &task("d", "D", true, "2024-01-01")).unwrap();
    clear_completed(&mut store);
    assert_eq!(titles(&store), vec!["A", "C"]);
    clear_completed(&mut store);
    assert_eq!(titles(&store), vec!["A", "C"]);
}

#[test]
fn edit_form_finds_or_reports_not_found() {
    let mut store = setup_database();
    insert_row(&mut store, &task("a", "A", false, "2024-01-01")).unwrap();
    assert_eq!(edit_todo_form(&store, "a").unwrap().title, "A");
    assert_eq!(edit_todo_form(&store, "b").unwrap_err(), HandlerError::NotFound);
}

#[test]
fn edit_overwrites_without_trimming() {
    let mut store = setup_database();
    insert_row(&mut store, &task("a", "A", false, "2024-01-01")).unwrap();
    update_todo(&mut store, "a", &UpdateTodo { title: " New ".to_string(), completed: true });
    let t = get_todo_by_id(&store, "a").unwrap();
    assert_eq!(t.title, " New ");
    assert!(t.completed);
}

#[test]
fn editing_a_missing_id_creates_nothing() {
    let mut store = setup_database();
    update_todo(&mut store, "ghost", &UpdateTodo { title: "X".to_string(), completed: true });
    assert!(get_all_todos(&store).is_empty());
}

#[test]
fn index_counts_tasks() {
    let mut store = setup_database();
    insert_row(&mut store, &task("a", "A", true, "2024-01-01")).unwrap();
    insert_row(&mut store, &task("b", "B", false, "2024-01-02")).unwrap();
    insert_row(&mut store, &task("c", "C", true, "2024-01-03")).unwrap();
    let page = index(&store);
    assert_eq!(page.total_count, 3);
    assert_eq!(page.completed_count, 2);
    assert_eq!(page.todos.len(), 3);
    assert_eq!(page.todos[0].id, "c");
    assert_eq!(count_completed(&Vec::new()), 0);
}
