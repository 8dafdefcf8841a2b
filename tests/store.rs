use todolist::database::{
    create_todo, delete_todo, get_all_todos, get_todo_by_id, setup_database, update_todo, StoreError,
    TodoStore,
};
use todolist::models::Todo;
use todolist::text::{same_text, text_before};

fn task(id: &str, title: &str, completed: bool, created_at: &str) -> Todo {
    Todo {
        id: id.to_string(),
        title: title.to_string(),
        completed,
        created_at: created_at.to_string(),
    }
}

fn ids(store: &TodoStore) -> Vec<String> {
    get_all_todos(store).into_iter().map(|t| t.id).collect()
}

#[test]
fn empty_store_lists_nothing() {
    let store = setup_database();
    assert!(get_all_todos(&store).is_empty());
    assert!(get_todo_by_id(&store, "a").is_none());
}

#[test]
fn listing_is_newest_first() {
    let mut store = setup_database();
    assert_eq!(create_todo(&mut store, &task("a", "A", false, "2024-01-01T00:00:00+00:00")), Ok(()));
    assert_eq!(create_todo(&mut store, &task("c", "C", false, "2024-03-01T00:00:00+00:00")), Ok(()));
    assert_eq!(create_todo(&mut store, &task("b", "B", false, "2024-02-01T00:00:00+00:00")), Ok(()));
    assert_eq!(ids(&store), vec!["c", "b", "a"]);
}

#[test]
fn equal_times_keep_older_rows_first() {
    let mut store = setup_database();
    create_todo(&mut store, &task("a", "A", false, "2024-01-01")).unwrap();
    create_todo(&mut store, &task("b", "B", false, "2024-01-01")).unwrap();
    assert_eq!(ids(&store), vec!["a", "b"]);
}

#[test]
fn taken_id_is_a_conflict() {
    let mut store = setup_database();
    create_todo(&mut store, &task("a", "A", false, "2024-01-01")).unwrap();
    let r = create_todo(&mut store, &task("a", "Other", true, "2024-05-01"));
    assert_eq!(r, Err(StoreError::Conflict));
    let all = get_all_todos(&store);
    assert_eq!(all.len(), 1);
    assert_eq!(all[0].title, "A");
}

#[test]
fn get_by_id_finds_the_row() {
    let mut store = setup_database();
    create_todo(&mut store, &task("a", "A", false, "2024-01-01")).unwrap();
    create_todo(&mut store, &task("b", "B", true, "2024-01-02")).unwrap();
    let t = get_todo_by_id(&store, "b").unwrap();
    assert_eq!(t.title, "B");
    assert!(t.completed);
    assert_eq!(t.created_at, "2024-01-02");
    assert!(get_todo_by_id(&store, "z").is_none());
}

#[test]
fn update_overwrites_title_and_flag() {
    let mut store = setup_database();
    create_todo(&mut store, &task("a", "A", false, "2024-01-01")).unwrap();
    update_todo(&mut store, "a", "New", true);
    let t = get_todo_by_id(&store, "a").unwrap();
    assert_eq!(t.title, "New");
    assert!(t.completed);
    assert_eq!(t.created_at, "2024-01-01");
}

#[test]
fn update_of_missing_id_creates_nothing() {
    let mut store = setup_database();
    create_todo(&mut store, &task("a", "A", false, "2024-01-01")).unwrap();
    update_todo(&mut store, "missing", "X", true);
    let all = get_all_todos(&store);
    assert_eq!(all.len(), 1);
    assert_eq!(all[0].title, "A");
    assert!(!all[0].completed);
    assert!(get_todo_by_id(&store, "missing").is_none());
}

#[test]
fn delete_removes_only_that_row() {
    let mut store = setup_database();
    create_todo(&mut store, &task("a", "A", false, "2024-01-01")).unwrap();
    create_todo(&mut store, &task("b", "B", false, "2024-01-02")).unwrap();
    delete_todo(&mut store, "a");
    assert_eq!(ids(&store), vec!["b"]);
    delete_todo(&mut store, "nope");
    assert_eq!(ids(&store), vec!["b"]);
}

#[test]
fn text_order_is_by_code_point() {
    assert!(text_before("abc", "abd"));
    assert!(text_before("ab", "abc"));
    assert!(!text_before("abc", "abc"));
    assert!(!text_before("b", "abc"));
    assert!(text_before("", "a"));
    assert!(text_before("Z", "a"));
}

#[test]
fn same_text_compares_characters() {
    assert!(same_text("héllo", "héllo"));
    assert!(!same_text("hello", "hellO"));
    assert!(!same_text("hell", "hello"));
    assert!(same_text("", ""));
}
