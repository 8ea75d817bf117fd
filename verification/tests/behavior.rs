use todolist::manager::TodoManager;
use todolist::text::{parse_bool, parse_i32, parse_input_to_cmd};
use todolist::todo::{validate_todo, Todo, ValidationErrors};

#[test]
fn added_record_found_under_its_title() {
    let mut manager = TodoManager::new();
    manager.add("water the plants".to_string()).unwrap();
    manager.add("call the bank".to_string()).unwrap();
    let found = manager.find_by_title("call the bank").unwrap();
    assert_eq!(found.title, "call the bank");
    assert_eq!(found.id, 1);
    assert!(!found.status);
}

#[test]
fn add_then_remove_restores_length() {
    let mut manager = TodoManager::new();
    manager.add("first".to_string()).unwrap();
    let before = manager.todos.len();
    manager.add("second".to_string()).unwrap();
    let new_id = (manager.todos.len() - 1) as i32;
    manager.remove_by_id(new_id).unwrap();
    assert_eq!(manager.todos.len(), before);
    assert_eq!(manager.todos[0].title, "first");
}

#[test]
fn toggle_twice_restores_status() {
    let mut manager = TodoManager::new();
    manager.add("flip me".to_string()).unwrap();
    assert!(!manager.todos[0].status);
    manager.toggle_by_id(0).unwrap();
    assert!(manager.todos[0].status);
    manager.toggle_by_id(0).unwrap();
    assert!(!manager.todos[0].status);
}

#[test]
fn toggle_by_status_sets_every_record() {
    let mut manager = TodoManager::new();
    manager.add("one".to_string()).unwrap();
    manager.add("two".to_string()).unwrap();
    manager.add("three".to_string()).unwrap();
    manager.toggle_by_id(1).unwrap();
    manager.toggle_by_status(true);
    for todo in &manager.todos {
        assert!(todo.status);
    }
    manager.toggle_by_status(false);
    for todo in &manager.todos {
        assert!(!todo.status);
    }
}

#[test]
fn snapshot_round_trip_preserves_triples() {
    let mut manager = TodoManager::new();
    manager.add("Buy milk".to_string()).unwrap();
    manager.add("Walk dog".to_string()).unwrap();
    manager.toggle_by_id(1).unwrap();
    let text = manager.to_json().unwrap();
    let mut reloaded = TodoManager::new();
    reloaded.load_from_json_str(&text).unwrap();
    assert_eq!(reloaded.todos.len(), 2);
    for (a, b) in manager.todos.iter().zip(reloaded.todos.iter()) {
        assert_eq!(a.id, b.id);
        assert_eq!(a.title, b.title);
        assert_eq!(a.status, b.status);
    }
}

#[test]
fn snapshot_text_is_the_flat_array_form() {
    let mut manager = TodoManager::new();
    manager.add("Buy milk".to_string()).unwrap();
    manager.add("Walk dog".to_string()).unwrap();
    manager.toggle_by_id(1).unwrap();
    let text = manager.to_json().unwrap();
    assert_eq!(
        text,
        "[{\"id\":0,\"title\":\"Buy milk\",\"status\":false},{\"id\":1,\"title\":\"Walk dog\",\"status\":true}]"
    );
}

#[test]
fn load_replaces_store_wholesale_and_rebuilds_index() {
    let mut manager = TodoManager::new();
    manager.add("stale".to_string()).unwrap();
    let text = "[{\"id\":7,\"title\":\"loaded\",\"status\":true}]";
    manager.load_from_json_str(text).unwrap();
    assert_eq!(manager.todos.len(), 1);
    assert_eq!(manager.todos[0].id, 7);
    assert_eq!(manager.todos[0].title, "loaded");
    assert!(manager.todos[0].status);
    assert!(manager.find_by_title("stale").is_err());
    assert_eq!(manager.find_by_title("loaded").unwrap().id, 7);
}

#[test]
fn load_refuses_malformed_text_and_keeps_the_store() {
    let mut manager = TodoManager::new();
    manager.add("keep me".to_string()).unwrap();
    assert!(manager.load_from_json_str("not json at all").is_err());
    assert!(manager.load_from_json_str("{\"id\":0}").is_err());
    assert!(manager.load_from_json_str("[{\"id\":0,\"title\":\"x\"}]").is_err());
    assert!(manager.load_from_json_str("[{\"id\":\"0\",\"title\":\"x\",\"status\":true}]").is_err());
    assert!(
        manager.load_from_json_str("[{\"id\":2147483648,\"title\":\"x\",\"status\":true}]").is_err()
    );
    assert_eq!(manager.todos.len(), 1);
    assert_eq!(manager.todos[0].title, "keep me");
}

#[test]
fn remove_all_empties_sequence_and_index() {
    let mut manager = TodoManager::new();
    manager.add("gone".to_string()).unwrap();
    manager.add("also gone".to_string()).unwrap();
    manager.remove_all_todos();
    assert_eq!(manager.todos.len(), 0);
    let err = manager.find_by_title("gone").unwrap_err();
    assert_eq!(err, "Todo with title 'gone' not found.");
    assert!(manager.find_by_title("also gone").is_err());
}

#[test]
fn interactive_scenario() {
    let mut manager = TodoManager::new();
    manager.add("Buy milk".to_string()).unwrap();
    assert_eq!(manager.todos[0].id, 0);
    assert!(!manager.todos[0].status);
    manager.add("Walk dog".to_string()).unwrap();
    assert_eq!(manager.todos[1].id, 1);
    assert_eq!(
        manager.print(),
        "ID: 0, Title: Buy milk, Status: false\nID: 1, Title: Walk dog, Status: false\n"
    );
    manager.toggle_by_id(0).unwrap();
    assert!(manager.todos[0].status);
    manager.remove_by_id(1).unwrap();
    assert_eq!(manager.todos.len(), 1);
    assert_eq!(manager.todos[0].id, 0);
    assert_eq!(manager.todos[0].title, "Buy milk");
    assert!(manager.todos[0].status);
}

#[test]
fn empty_title_is_rejected_and_store_unchanged() {
    let mut manager = TodoManager::new();
    let err = manager.add("".to_string()).unwrap_err();
    assert_eq!(err, "Validation error: Title errors:\nTitle cannot be empty.");
    assert_eq!(manager.todos.len(), 0);
}

#[test]
fn overlong_title_is_rejected_and_store_unchanged() {
    let mut manager = TodoManager::new();
    let title: String = "x".repeat(101);
    let err = manager.add(title).unwrap_err();
    assert_eq!(err, "Validation error: Title errors:\nTitle cannot exceed 100 characters.");
    assert_eq!(manager.todos.len(), 0);
    let edge: String = "y".repeat(100);
    assert!(manager.add(edge).is_ok());
    assert_eq!(manager.todos.len(), 1);
}

#[test]
fn validator_reports_negative_id() {
    let err = Todo::new(-1, "fine title".to_string()).unwrap_err();
    assert!(!err.is_empty());
    assert_eq!(err.message(), "ID errors:\nID cannot be negative.");
    let both = Todo::new(-1, "".to_string()).unwrap_err();
    assert_eq!(
        both.message(),
        "Title errors:\nTitle cannot be empty.ID errors:\nID cannot be negative."
    );
    let todo = Todo::new(3, "fine title".to_string()).unwrap();
    assert!(validate_todo(&todo).is_ok());
    let none = ValidationErrors { title_errors: vec![], id_errors: vec![], status_errors: vec![] };
    assert!(none.is_empty());
    assert_eq!(none.message(), "");
}

#[test]
fn not_found_reports_are_exact() {
    let mut manager = TodoManager::new();
    assert_eq!(manager.remove_by_id(5).unwrap_err(), "Todo with ID 5 not found.");
    assert_eq!(manager.toggle_by_id(-2).unwrap_err(), "Todo with ID -2 not found.");
    assert_eq!(manager.remove_by_title("nope").unwrap_err(), "Todo with title 'nope' not found.");
    assert_eq!(manager.toggle_by_title("nope").unwrap_err(), "Todo with title 'nope' not found.");
    assert_eq!(manager.print_by_id(9), "Todo with ID 9 not found.\n");
    assert_eq!(manager.print_by_title("nope"), "Todo with title 'nope' not found.\n");
}

#[test]
fn remove_by_status_keeps_the_others() {
    let mut manager = TodoManager::new();
    manager.add("done".to_string()).unwrap();
    manager.add("open".to_string()).unwrap();
    manager.add("also done".to_string()).unwrap();
    manager.toggle_by_id(0).unwrap();
    manager.toggle_by_id(2).unwrap();
    manager.remove_by_status(true);
    assert_eq!(manager.todos.len(), 1);
    assert_eq!(manager.todos[0].title, "open");
    assert_eq!(manager.find_by_title("open").unwrap().title, "open");
}

#[test]
fn find_by_status_filters_in_order() {
    let mut manager = TodoManager::new();
    manager.add("a".to_string()).unwrap();
    manager.add("b".to_string()).unwrap();
    manager.add("c".to_string()).unwrap();
    manager.toggle_by_id(1).unwrap();
    let open = manager.find_by_status(false);
    assert_eq!(open.len(), 2);
    assert_eq!(open[0].title, "a");
    assert_eq!(open[1].title, "c");
    let done = manager.find_by_status(true);
    assert_eq!(done.len(), 1);
    assert_eq!(done[0].title, "b");
    assert_eq!(manager.print_by_status(true), "ID: 1, Title: b, Status: true\n");
}

#[test]
fn remove_by_id_range_takes_first_matching_id_each() {
    let mut manager = TodoManager::new();
    manager.add("a".to_string()).unwrap();
    manager.add("b".to_string()).unwrap();
    manager.add("c".to_string()).unwrap();
    manager.remove_by_id(0).unwrap();
    manager.add("d".to_string()).unwrap();
    assert_eq!(manager.todos[1].id, 2);
    assert_eq!(manager.todos[2].id, 2);
    manager.remove_by_id_range(2, 2);
    assert_eq!(manager.todos.len(), 2);
    assert_eq!(manager.todos[0].title, "b");
    assert_eq!(manager.todos[1].title, "d");
    manager.remove_by_id_range(1, 4);
    assert_eq!(manager.todos.len(), 0);
}

#[test]
fn duplicate_titles_index_last_record() {
    let mut manager = TodoManager::new();
    manager.add("twin".to_string()).unwrap();
    manager.add("twin".to_string()).unwrap();
    assert_eq!(manager.todos.len(), 2);
    assert_eq!(manager.find_by_title("twin").unwrap().id, 1);
}

#[test]
fn negative_id_renders_with_sign() {
    let mut manager = TodoManager::new();
    manager.load_from_json_str("[{\"id\":-5,\"title\":\"owed\",\"status\":false}]").unwrap();
    assert_eq!(manager.print(), "ID: -5, Title: owed, Status: false\n");
    assert_eq!(manager.todos[0].print(), "ID: -5, Title: owed, Status: false");
}

#[test]
fn command_splits_on_first_space_only() {
    assert_eq!(parse_input_to_cmd("add Buy milk"), ("add", "Buy milk"));
    assert_eq!(parse_input_to_cmd("help"), ("help", ""));
    assert_eq!(parse_input_to_cmd(""), ("", ""));
    assert_eq!(parse_input_to_cmd("add  two spaces"), ("add", " two spaces"));
    assert_eq!(parse_input_to_cmd(" leading"), ("", "leading"));
}

#[test]
fn numeric_arguments_parse_exactly() {
    assert_eq!(parse_i32("42"), Some(42));
    assert_eq!(parse_i32("+7"), Some(7));
    assert_eq!(parse_i32("-0"), Some(0));
    assert_eq!(parse_i32("2147483647"), Some(2147483647));
    assert_eq!(parse_i32("-2147483648"), Some(-2147483648));
    assert_eq!(parse_i32("2147483648"), None);
    assert_eq!(parse_i32("-2147483649"), None);
    assert_eq!(parse_i32(""), None);
    assert_eq!(parse_i32("+"), None);
    assert_eq!(parse_i32("12a"), None);
    assert_eq!(parse_i32("--1"), None);
    assert_eq!(parse_i32(" 1"), None);
    assert_eq!(parse_i32("99999999999999999999"), None);
}

#[test]
fn status_arguments_parse_exactly() {
    assert_eq!(parse_bool("true"), Some(true));
    assert_eq!(parse_bool("false"), Some(false));
    assert_eq!(parse_bool("True"), None);
    assert_eq!(parse_bool(""), None);
    assert_eq!(parse_bool("1"), None);
}
