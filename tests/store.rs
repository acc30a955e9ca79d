use task_manager_backend::{Task, TaskError, TaskStore};

fn ids(mut tasks: Vec<Task>) -> Vec<u64> {
    tasks.sort_by_key(|t| t.id);
    tasks.iter().map(|t| t.id).collect()
}

fn make(title: &str, description: &str, important: Option<bool>, now: u64, s: &mut TaskStore) -> u64 {
    s.create_task(title.to_string(), description.to_string(), important, now).unwrap()
}

#[test]
fn end_to_end_scenario() {
    let mut s = TaskStore::new();
    assert_eq!(s.create_task("Buy milk".to_string(), "2%".to_string(), None, 10), Ok(0));
    assert_eq!(s.create_task("Pay rent".to_string(), "rent".to_string(), Some(true), 11), Ok(1));
    assert_eq!(s.mark_task_as_done(0, 12), Ok(true));
    assert_eq!(ids(s.get_completed_tasks()), vec![0]);
    assert_eq!(ids(s.get_important_tasks()), vec![1]);
    assert_eq!(s.delete_task(0), Ok(true));
    assert_eq!(s.get_task(0).unwrap_err(), TaskError::NotFound);
    assert_eq!(s.get_total_number_of_tasks(), 1);
}

#[test]
fn ids_increase_by_one() {
    let mut s = TaskStore::new();
    for expected in 0..5u64 {
        assert_eq!(make("t", "d", None, 1, &mut s), expected);
    }
    assert_eq!(s.next_id(), 5);
}

#[test]
fn ids_not_reused_after_delete() {
    let mut s = TaskStore::new();
    let a = make("a", "a", None, 1, &mut s);
    let b = make("b", "b", None, 1, &mut s);
    assert_eq!(s.delete_task(b), Ok(true));
    assert_eq!(s.delete_task(a), Ok(true));
    assert_eq!(s.get_total_number_of_tasks(), 0);
    assert_eq!(make("c", "c", None, 1, &mut s), 2);
}

#[test]
fn empty_text_rejected_without_using_an_id() {
    let mut s = TaskStore::new();
    assert_eq!(s.create_task(String::new(), "x".to_string(), None, 1), Err(TaskError::InvalidInput));
    assert_eq!(s.create_task("x".to_string(), String::new(), None, 1), Err(TaskError::InvalidInput));
    assert_eq!(s.create_task(String::new(), String::new(), Some(true), 1), Err(TaskError::InvalidInput));
    assert_eq!(s.get_total_number_of_tasks(), 0);
    assert_eq!(s.next_id(), 0);
    assert_eq!(make("x", "y", None, 1, &mut s), 0);
}

#[test]
fn created_record_fields() {
    let mut s = TaskStore::new();
    let a = make("Title", "Desc", None, 42, &mut s);
    let b = make("Other", "More", Some(true), 43, &mut s);
    let c = make("Third", "Less", Some(false), 44, &mut s);
    let t = s.get_task(a).unwrap();
    assert_eq!(t.id, a);
    assert_eq!(t.title, "Title");
    assert_eq!(t.description, "Desc");
    assert!(!t.done);
    assert!(!t.is_important);
    assert_eq!(t.created_at, 42);
    assert_eq!(t.updated_at, 42);
    assert!(s.get_task(b).unwrap().is_important);
    assert!(!s.get_task(c).unwrap().is_important);
}

#[test]
fn get_after_delete_not_found() {
    let mut s = TaskStore::new();
    let a = make("a", "b", None, 1, &mut s);
    assert!(s.get_task(a).is_ok());
    assert_eq!(s.delete_task(a), Ok(true));
    assert_eq!(s.get_task(a).unwrap_err(), TaskError::NotFound);
    assert_eq!(s.delete_task(a), Err(TaskError::NotFound));
}

#[test]
fn empty_update_refreshes_stamp() {
    let mut s = TaskStore::new();
    let a = make("a", "b", Some(true), 100, &mut s);
    assert_eq!(s.update_task(a, None, None, None, None, 150), Ok(true));
    let t = s.get_task(a).unwrap();
    assert_eq!(t.updated_at, 150);
    assert_eq!(t.created_at, 100);
    assert_eq!(t.title, "a");
    assert_eq!(t.description, "b");
    assert!(!t.done);
    assert!(t.is_important);
}

#[test]
fn stamp_never_moves_backwards() {
    let mut s = TaskStore::new();
    let a = make("a", "b", None, 100, &mut s);
    assert_eq!(s.update_task(a, None, None, None, None, 40), Ok(true));
    assert_eq!(s.get_task(a).unwrap().updated_at, 100);
    assert_eq!(s.mark_task_as_done(a, 90), Ok(true));
    assert_eq!(s.get_task(a).unwrap().updated_at, 100);
}

#[test]
fn update_replaces_supplied_fields() {
    let mut s = TaskStore::new();
    let a = make("a", "b", None, 1, &mut s);
    assert_eq!(
        s.update_task(a, Some("new".to_string()), None, Some(true), None, 5),
        Ok(true)
    );
    let t = s.get_task(a).unwrap();
    assert_eq!(t.title, "new");
    assert_eq!(t.description, "b");
    assert!(t.done);
    assert!(!t.is_important);
    assert_eq!(t.updated_at, 5);
    assert_eq!(
        s.update_task(a, None, Some("desc".to_string()), Some(false), Some(true), 6),
        Ok(true)
    );
    let t = s.get_task(a).unwrap();
    assert_eq!(t.title, "new");
    assert_eq!(t.description, "desc");
    assert!(!t.done);
    assert!(t.is_important);
}

#[test]
fn update_errors() {
    let mut s = TaskStore::new();
    let a = make("a", "b", None, 1, &mut s);
    assert_eq!(s.update_task(7, None, None, None, None, 2), Err(TaskError::NotFound));
    assert_eq!(s.update_task(7, Some(String::new()), None, None, None, 2), Err(TaskError::NotFound));
    assert_eq!(
        s.update_task(a, Some(String::new()), None, Some(true), None, 2),
        Err(TaskError::InvalidInput)
    );
    assert_eq!(
        s.update_task(a, None, Some(String::new()), None, None, 2),
        Err(TaskError::InvalidInput)
    );
    let t = s.get_task(a).unwrap();
    assert_eq!(t.title, "a");
    assert!(!t.done);
    assert_eq!(t.updated_at, 1);
}

#[test]
fn flag_operations() {
    let mut s = TaskStore::new();
    let a = make("a", "b", None, 1, &mut s);
    assert_eq!(s.mark_task_as_done(a, 2), Ok(true));
    assert_eq!(s.mark_task_as_done(a, 3), Ok(true));
    assert!(s.get_task(a).unwrap().done);
    assert_eq!(s.reset_task_status(a, 4), Ok(true));
    assert!(!s.get_task(a).unwrap().done);
    assert_eq!(s.mark_task_as_important(a, 5), Ok(true));
    assert_eq!(s.mark_task_as_important(a, 6), Ok(true));
    let t = s.get_task(a).unwrap();
    assert!(t.is_important);
    assert_eq!(t.updated_at, 6);
}

#[test]
fn flag_operations_on_missing_id() {
    let mut s = TaskStore::new();
    make("a", "b", None, 1, &mut s);
    assert_eq!(s.mark_task_as_done(9, 2), Err(TaskError::NotFound));
    assert_eq!(s.reset_task_status(9, 2), Err(TaskError::NotFound));
    assert_eq!(s.mark_task_as_important(9, 2), Err(TaskError::NotFound));
    assert_eq!(s.toggle_task_importance(9, 2), Err(TaskError::NotFound));
    assert_eq!(s.get_task(0).unwrap().updated_at, 1);
}

#[test]
fn toggle_twice_restores_importance() {
    let mut s = TaskStore::new();
    let a = make("a", "b", None, 10, &mut s);
    assert_eq!(s.toggle_task_importance(a, 20), Ok(true));
    let t = s.get_task(a).unwrap();
    assert!(t.is_important);
    assert_eq!(t.updated_at, 20);
    assert_eq!(s.toggle_task_importance(a, 30), Ok(true));
    let t = s.get_task(a).unwrap();
    assert!(!t.is_important);
    assert_eq!(t.updated_at, 30);
}

#[test]
fn clear_completed_keeps_incomplete_untouched() {
    let mut s = TaskStore::new();
    let a = make("a", "a", None, 1, &mut s);
    let b = make("b", "b", None, 2, &mut s);
    let c = make("c", "c", Some(true), 3, &mut s);
    s.mark_task_as_done(a, 4).unwrap();
    s.mark_task_as_done(c, 5).unwrap();
    s.clear_completed_tasks();
    assert_eq!(ids(s.get_all_tasks()), vec![b]);
    assert!(s.get_all_tasks().iter().all(|t| !t.done));
    let t = s.get_task(b).unwrap();
    assert_eq!(t.updated_at, 2);
    assert_eq!(t.title, "b");
    assert_eq!(s.get_total_number_of_tasks(), 1);
    s.clear_completed_tasks();
    assert_eq!(s.get_total_number_of_tasks(), 1);
    assert_eq!(make("d", "d", None, 6, &mut s), 3);
}

#[test]
fn clear_completed_on_empty_store() {
    let mut s = TaskStore::new();
    s.clear_completed_tasks();
    assert_eq!(s.get_total_number_of_tasks(), 0);
    assert!(s.get_all_tasks().is_empty());
}

#[test]
fn status_and_importance_queries() {
    let mut s = TaskStore::new();
    let a = make("a", "x", Some(true), 1, &mut s);
    let b = make("b", "y", None, 2, &mut s);
    let c = make("c", "z", Some(true), 3, &mut s);
    s.mark_task_as_done(b, 4).unwrap();
    s.mark_task_as_done(c, 5).unwrap();
    assert_eq!(ids(s.search_task_by_status(true)), vec![b, c]);
    assert_eq!(ids(s.search_task_by_status(false)), vec![a]);
    assert_eq!(ids(s.get_completed_tasks()), vec![b, c]);
    assert_eq!(ids(s.get_incomplete_tasks()), vec![a]);
    assert_eq!(ids(s.get_important_tasks()), vec![a, c]);
    assert_eq!(ids(s.get_tasks_by_importance_status(true)), vec![a, c]);
    assert_eq!(ids(s.get_tasks_by_importance_status(false)), vec![b]);
    assert_eq!(ids(s.get_all_tasks()), vec![a, b, c]);
}

#[test]
fn text_queries_match_exactly() {
    let mut s = TaskStore::new();
    let a = make("Shop", "milk", None, 1, &mut s);
    let b = make("shop", "milk", None, 2, &mut s);
    let c = make("Shop", "bread", None, 3, &mut s);
    assert_eq!(ids(s.get_tasks_by_title("Shop".to_string())), vec![a, c]);
    assert_eq!(ids(s.get_tasks_by_title("shop".to_string())), vec![b]);
    assert!(s.get_tasks_by_title("Sho".to_string()).is_empty());
    assert_eq!(ids(s.get_tasks_by_description("milk".to_string())), vec![a, b]);
    assert_eq!(ids(s.get_tasks_by_description("bread".to_string())), vec![c]);
    assert!(s.get_tasks_by_description(String::new()).is_empty());
}

#[test]
fn time_queries_are_strict() {
    let mut s = TaskStore::new();
    let a = make("a", "a", None, 10, &mut s);
    let b = make("b", "b", None, 20, &mut s);
    let c = make("c", "c", None, 30, &mut s);
    s.mark_task_as_done(a, 40).unwrap();
    assert_eq!(ids(s.get_tasks_created_after(10)), vec![b, c]);
    assert_eq!(ids(s.get_tasks_created_after(9)), vec![a, b, c]);
    assert!(s.get_tasks_created_after(30).is_empty());
    assert_eq!(ids(s.get_tasks_updated_after(20)), vec![a, c]);
    assert_eq!(ids(s.get_tasks_updated_after(30)), vec![a]);
    assert!(s.get_tasks_updated_after(40).is_empty());
}

#[test]
fn queries_on_empty_store() {
    let s = TaskStore::new();
    assert_eq!(s.get_total_number_of_tasks(), 0);
    assert!(s.get_all_tasks().is_empty());
    assert!(s.get_completed_tasks().is_empty());
    assert!(s.get_tasks_created_after(0).is_empty());
    assert_eq!(s.get_task(0).unwrap_err(), TaskError::NotFound);
}

#[test]
fn error_messages() {
    assert_eq!(TaskError::NotFound.message(), "Task not found");
    assert_eq!(TaskError::InvalidInput.message(), "Invalid input");
    assert_eq!(TaskError::DuplicateTask.message(), "Duplicate task");
    assert_eq!(String::from(TaskError::NotFound), "Task not found");
    let s: String = TaskError::InvalidInput.into();
    assert_eq!(s, "Invalid input");
}

#[test]
fn listed_records_are_copies() {
    let mut s = TaskStore::new();
    let a = make("a", "b", None, 1, &mut s);
    let listed = s.get_all_tasks();
    assert_eq!(listed.len(), 1);
    assert_eq!(listed[0].title, "a");
    assert_eq!(listed[0].description, "b");
    assert_eq!(listed[0].id, a);
    let d = listed[0].duplicate();
    assert_eq!(d.title, "a");
    assert_eq!(d.created_at, 1);
}
