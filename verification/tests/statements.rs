use bevy_erm::database_entity::{DatabaseEntityId, RequestId};
use bevy_erm::statements::{
    columns, full_component, get_main_key, marker_component, marks, query_derive,
};
use bevy_erm::text::join;

fn names(list: &[&str]) -> Vec<String> {
    list.iter().map(|s| s.to_string()).collect()
}

#[test]
fn a_key_is_written_in_decimal() {
    assert_eq!(DatabaseEntityId(0).to_text(), "0");
    assert_eq!(DatabaseEntityId(7).to_text(), "7");
    assert_eq!(DatabaseEntityId(1234567890).to_text(), "1234567890");
    assert_eq!(DatabaseEntityId(-1).to_text(), "-1");
    assert_eq!(DatabaseEntityId(-120).to_text(), "-120");
    assert_eq!(DatabaseEntityId(i64::MAX).to_text(), "9223372036854775807");
    assert_eq!(DatabaseEntityId(i64::MIN).to_text(), "-9223372036854775808");
}

#[test]
fn a_request_handle_is_written_as_slot_v_generation() {
    assert_eq!(RequestId::from_raw_parts(0, 0).to_text(), "0v0");
    assert_eq!(RequestId::from_raw_parts(3, 17).to_text(), "3v17");
    assert_eq!(RequestId::from_raw_parts(100, u64::MAX).to_text(), "100v18446744073709551615");
}

#[test]
fn texts_are_joined_with_a_separator_between_them() {
    assert_eq!(join(&names(&[]), ", "), "");
    assert_eq!(join(&names(&["a"]), ", "), "a");
    assert_eq!(join(&names(&["a", "b", "c"]), ", "), "a, b, c");
    assert_eq!(join(&names(&["a", "", "c"]), "-"), "a--c");
    assert_eq!(join(&names(&["x", "y"]), ""), "xy");
}

#[test]
fn the_key_is_the_column_id_and_is_no_column_of_the_component() {
    assert_eq!(get_main_key(), "id");
    assert_eq!(columns(&names(&["id", "name", "price"])), names(&["name", "price"]));
    assert_eq!(columns(&names(&["name", "id", "price", "id"])), names(&["name", "price"]));
    assert_eq!(columns(&names(&["idx", "Id"])), names(&["idx", "Id"]));
    assert_eq!(columns(&names(&[])), names(&[]));
    assert_eq!(marks(&names(&["a", "b", "c"])), names(&["?", "?", "?"]));
}

#[test]
fn the_statements_of_a_component_with_columns() {
    let statements = full_component("test", &names(&["id", "name", "price"]));
    assert_eq!(statements.selection_query, "SELECT id, name, price FROM test WHERE id = ?");
    assert_eq!(statements.update_query, "UPDATE test SET name = ?, price = ? WHERE id = ?");
    assert_eq!(statements.load_all_query, "SELECT id, name, price FROM test");
    assert_eq!(
        statements.insert_query,
        Some("INSERT INTO test (id, name, price) VALUES (?,?, ?)".to_string())
    );
}

#[test]
fn the_statements_of_a_component_with_one_column() {
    let statements = full_component("users", &names(&["name"]));
    assert_eq!(statements.selection_query, "SELECT id, name FROM users WHERE id = ?");
    assert_eq!(statements.update_query, "UPDATE users SET name = ? WHERE id = ?");
    assert_eq!(statements.load_all_query, "SELECT id, name FROM users");
    assert_eq!(statements.insert_query, Some("INSERT INTO users (id, name) VALUES (?,?)".to_string()));
}

#[test]
fn the_statements_of_a_marker() {
    let statements = marker_component("MarkerTest", "test");
    assert_eq!(statements.selection_query, "SELECT MarkerTest FROM test WHERE id = ?");
    assert_eq!(statements.update_query, "UPDATE test SET MarkerTest = ? WHERE id = ?");
    assert_eq!(statements.load_all_query, "SELECT id FROM test WHERE MarkerTest = ?");
    assert_eq!(statements.insert_query, None);
}

#[test]
fn a_component_without_fields_is_a_marker() {
    let marker = query_derive("Seller", "users", &names(&[]));
    assert_eq!(marker.selection_query, "SELECT Seller FROM users WHERE id = ?");
    assert_eq!(marker.insert_query, None);
    let full = query_derive("User", "users", &names(&["id", "name"]));
    assert_eq!(full.selection_query, "SELECT id, name FROM users WHERE id = ?");
    assert!(full.insert_query.is_some());
}
