use nudgelyst::commands::{
    clean, find_target, list_all_todos, list_filter, list_last_five, remove_target, set_completed,
    wipe, Command, ListFilter,
};
use nudgelyst::file_todo_repository::FileTodoRepository;
use nudgelyst::todo::{get_todos, Todo, TodoError, TodoRepository};

fn todo(id: usize, name: &str, completed: bool) -> Todo {
    Todo { id, name: name.to_string(), completed }
}

fn three() -> Vec<Todo> {
    vec![todo(1, "Task 1", false), todo(2, "Task 2", true), todo(3, "Task 3", false)]
}

fn stored(repo: &FileTodoRepository) -> Vec<Todo> {
    repo.get_todos(None).unwrap()
}

#[test]
fn new_todo_is_incomplete() {
    let t = Todo::new(4, "Write".to_string());
    assert_eq!(t, todo(4, "Write", false));
}

#[test]
fn create_on_empty_store_then_list() {
    let mut repo = FileTodoRepository::new(Vec::new());
    repo.create_todo(Todo::new(0, "Task 1".to_string())).unwrap();
    assert_eq!(stored(&repo), vec![todo(1, "Task 1", false)]);
}

#[test]
fn creates_keep_insertion_order() {
    let mut repo = FileTodoRepository::new(Vec::new());
    repo.create_todo(Todo::new(0, "a".to_string())).unwrap();
    repo.create_todo(Todo::new(7, "b".to_string())).unwrap();
    repo.create_todo(Todo::new(0, "c".to_string())).unwrap();
    assert_eq!(stored(&repo), vec![todo(1, "a", false), todo(7, "b", false), todo(8, "c", false)]);
}

#[test]
fn create_after_delete_gives_fresh_id() {
    let mut repo = FileTodoRepository::new(three());
    repo.delete_todo(todo(1, "", false)).unwrap();
    repo.create_todo(Todo::new(0, "Task 4".to_string())).unwrap();
    let all = stored(&repo);
    assert_eq!(all.last().unwrap().id, 4);
    let mut ids: Vec<usize> = all.iter().map(|t| t.id).collect();
    ids.sort();
    ids.dedup();
    assert_eq!(ids.len(), all.len());
}

#[test]
fn create_todos_assigns_ids_in_turn() {
    let mut repo = FileTodoRepository::new(vec![todo(5, "x", false), todo(2, "y", true)]);
    repo.create_todos(vec![todo(0, "p", false), todo(9, "q", true), todo(0, "r", false)]).unwrap();
    assert_eq!(
        stored(&repo),
        vec![
            todo(5, "x", false),
            todo(2, "y", true),
            todo(6, "p", false),
            todo(9, "q", true),
            todo(10, "r", false),
        ]
    );
}

#[test]
fn next_id_follows_largest_id() {
    assert_eq!(FileTodoRepository::new(Vec::new()).next_id(), Some(1));
    assert_eq!(FileTodoRepository::new(vec![todo(5, "x", false), todo(2, "y", false)]).next_id(), Some(6));
    assert_eq!(FileTodoRepository::new(vec![todo(usize::MAX, "x", false)]).next_id(), None);
}

#[test]
fn get_finds_first_match() {
    let repo = FileTodoRepository::new(vec![todo(1, "same", false), todo(2, "same", true)]);
    assert_eq!(repo.get_todo_by_name("same".to_string()), Ok(todo(1, "same", false)));
    assert_eq!(repo.get_todo(2), Ok(todo(2, "same", true)));
    assert_eq!(repo.get_todo(3), Err(TodoError::NotFound));
}

#[test]
fn completed_and_incomplete_split_three_records() {
    let repo = FileTodoRepository::new(three());
    assert_eq!(repo.get_completed_todos(None).unwrap(), vec![todo(2, "Task 2", true)]);
    assert_eq!(
        repo.get_incomplete_todos(None).unwrap(),
        vec![todo(1, "Task 1", false), todo(3, "Task 3", false)]
    );
}

#[test]
fn completed_and_incomplete_cover_the_store() {
    let repo = FileTodoRepository::new(three());
    let mut both = repo.get_completed_todos(None).unwrap();
    both.extend(repo.get_incomplete_todos(None).unwrap());
    both.sort_by_key(|t| t.id);
    assert_eq!(both, stored(&repo));
}

#[test]
fn limits_give_min_of_limit_and_matches() {
    let repo = FileTodoRepository::new(three());
    assert_eq!(repo.get_todos(Some(0)).unwrap().len(), 0);
    assert_eq!(repo.get_todos(Some(5)).unwrap().len(), 3);
    assert_eq!(repo.get_completed_todos(Some(5)).unwrap().len(), 1);
    assert_eq!(repo.get_incomplete_todos(Some(1)).unwrap(), vec![todo(1, "Task 1", false)]);
    assert_eq!(get_todos(&repo, Some(2)).unwrap(), vec![todo(1, "Task 1", false), todo(2, "Task 2", true)]);
}

#[test]
fn update_with_unknown_id_changes_nothing() {
    let mut repo = FileTodoRepository::new(three());
    repo.update_todo(todo(42, "Other", true)).unwrap();
    assert_eq!(stored(&repo), three());
}

#[test]
fn update_replaces_matching_record() {
    let mut repo = FileTodoRepository::new(three());
    repo.update_todo(todo(3, "Renamed", true)).unwrap();
    assert_eq!(
        stored(&repo),
        vec![todo(1, "Task 1", false), todo(2, "Task 2", true), todo(3, "Renamed", true)]
    );
}

#[test]
fn update_todos_applies_each() {
    let mut repo = FileTodoRepository::new(three());
    repo.update_todos(vec![todo(1, "One", true), todo(9, "None", true), todo(2, "Two", false)]).unwrap();
    assert_eq!(
        stored(&repo),
        vec![todo(1, "One", true), todo(2, "Two", false), todo(3, "Task 3", false)]
    );
}

#[test]
fn delete_with_unknown_id_changes_nothing() {
    let mut repo = FileTodoRepository::new(three());
    repo.delete_todo(todo(42, "Task 1", false)).unwrap();
    assert_eq!(stored(&repo), three());
}

#[test]
fn delete_removes_only_matching_record() {
    let mut repo = FileTodoRepository::new(three());
    repo.delete_todo(todo(2, "ignored", false)).unwrap();
    assert_eq!(stored(&repo), vec![todo(1, "Task 1", false), todo(3, "Task 3", false)]);
}

#[test]
fn delete_todos_removes_by_ids() {
    let mut repo = FileTodoRepository::new(three());
    repo.delete_todos(vec![todo(3, "", false), todo(1, "", true), todo(8, "", true)]).unwrap();
    assert_eq!(stored(&repo), vec![todo(2, "Task 2", true)]);
    assert_eq!(repo.into_todos(), vec![todo(2, "Task 2", true)]);
}

#[test]
fn list_filter_table() {
    assert_eq!(list_filter(Some(true), None), ListFilter::Completed);
    assert_eq!(list_filter(Some(false), None), ListFilter::All);
    assert_eq!(list_filter(Some(true), Some(false)), ListFilter::Completed);
    assert_eq!(list_filter(Some(false), Some(true)), ListFilter::Incomplete);
    assert_eq!(list_filter(None, Some(true)), ListFilter::Incomplete);
    assert_eq!(list_filter(None, Some(false)), ListFilter::All);
    assert_eq!(list_filter(None, None), ListFilter::All);
    assert_eq!(list_filter(Some(false), Some(false)), ListFilter::All);
    assert_eq!(list_filter(Some(true), Some(true)), ListFilter::All);
}

#[test]
fn list_all_todos_follows_flags() {
    let repo = FileTodoRepository::new(three());
    assert_eq!(list_all_todos(&repo, Some(true), None, None).unwrap(), vec![todo(2, "Task 2", true)]);
    assert_eq!(list_all_todos(&repo, None, Some(true), Some(1)).unwrap(), vec![todo(1, "Task 1", false)]);
    assert_eq!(list_all_todos(&repo, Some(true), Some(true), None).unwrap(), three());
}

#[test]
fn list_last_five_takes_last_five() {
    let items: Vec<Todo> = (1..=7).map(|i| todo(i, "t", false)).collect();
    let repo = FileTodoRepository::new(items.clone());
    assert_eq!(list_last_five(&repo).unwrap(), items[2..].to_vec());
}

#[test]
fn list_last_five_of_six_drops_the_first() {
    let items: Vec<Todo> = (1..=6).map(|i| todo(i, "t", i % 2 == 0)).collect();
    let repo = FileTodoRepository::new(items.clone());
    let ids: Vec<usize> = list_last_five(&repo).unwrap().iter().map(|t| t.id).collect();
    assert_eq!(ids, vec![2, 3, 4, 5, 6]);
}

#[test]
fn list_last_five_of_short_store_gives_all() {
    let repo = FileTodoRepository::new(three());
    assert_eq!(list_last_five(&repo).unwrap(), three());
    assert!(list_last_five(&FileTodoRepository::new(Vec::new())).unwrap().is_empty());
}

#[test]
fn find_target_prefers_id() {
    let repo = FileTodoRepository::new(three());
    assert_eq!(find_target(&repo, Some("Task 1".to_string()), Some(3)), Ok(todo(3, "Task 3", false)));
    assert_eq!(find_target(&repo, Some("Task 2".to_string()), None), Ok(todo(2, "Task 2", true)));
    assert_eq!(find_target(&repo, Some("Task 1".to_string()), Some(9)), Err(TodoError::NotFound));
}

#[test]
fn set_completed_marks_and_unmarks() {
    let mut repo = FileTodoRepository::new(three());
    set_completed(&mut repo, Some("Task 1".to_string()), None, true).unwrap();
    set_completed(&mut repo, None, Some(2), false).unwrap();
    assert_eq!(
        stored(&repo),
        vec![todo(1, "Task 1", true), todo(2, "Task 2", false), todo(3, "Task 3", false)]
    );
    assert_eq!(set_completed(&mut repo, Some("nope".to_string()), None, true), Err(TodoError::NotFound));
}

#[test]
fn togone_unknown_id_reports_not_found() {
    let mut repo = FileTodoRepository::new(three());
    let r = remove_target(&mut repo, None, Some(77));
    assert_eq!(r, Err(TodoError::NotFound));
    assert_eq!(r.unwrap_err().to_string(), "Todo not found");
    assert_eq!(stored(&repo), three());
}

#[test]
fn togone_by_name_removes_it() {
    let mut repo = FileTodoRepository::new(three());
    remove_target(&mut repo, Some("Task 3".to_string()), None).unwrap();
    assert_eq!(stored(&repo), vec![todo(1, "Task 1", false), todo(2, "Task 2", true)]);
}

#[test]
fn clean_without_completed_is_no_op() {
    let items = vec![todo(1, "a", false), todo(2, "b", false)];
    let mut repo = FileTodoRepository::new(items.clone());
    clean(&mut repo).unwrap();
    assert_eq!(stored(&repo), items);
}

#[test]
fn clean_removes_completed() {
    let mut repo = FileTodoRepository::new(three());
    clean(&mut repo).unwrap();
    assert_eq!(stored(&repo), vec![todo(1, "Task 1", false), todo(3, "Task 3", false)]);
}

#[test]
fn wipe_empties_store() {
    let mut repo = FileTodoRepository::new(three());
    wipe(&mut repo).unwrap();
    assert!(stored(&repo).is_empty());
}

#[test]
fn storage_error_message_is_kept() {
    let e = TodoError::Storage("disk full".to_string());
    assert_eq!(e.to_string(), "disk full");
}

#[test]
fn command_holds_its_arguments() {
    let c = Command::Todone { name: None, id: Some(3) };
    assert!(matches!(c, Command::Todone { name: None, id: Some(3) }));
}

#[test]
fn clean_also_drops_items_sharing_a_completed_id() {
    let mut repo = FileTodoRepository::new(vec![todo(1, "a", true), todo(1, "b", false), todo(2, "c", false)]);
    clean(&mut repo).unwrap();
    assert_eq!(stored(&repo), vec![todo(2, "c", false)]);
}
