use data_watch::extract::parse_json_pair;
use data_watch::query::Query;
use data_watch::varstore::{store_variable, VariableStore};

#[test]
fn pairs_into_shared_variables() {
    let mut storage_var = VariableStore::new();
    let pairs = vec![
        (String::from("variable_name"), String::from("name")),
        (String::from("variable_data"), String::from("data")),
    ];
    store_variable(&mut storage_var, &pairs);
    assert_eq!(storage_var.get("variable_name").unwrap(), "name");
    assert_eq!(storage_var.get("variable_data").unwrap(), "data");
}

#[test]
fn json_parsing_to_store_shared_variables() {
    let json_raw = r#" { "variable_name": "name", "variable_data": "data" } "#;
    let expression =
        Query::compile("{ variable_data: variable_data, variable_name: variable_name }").unwrap();
    let mut storage_var = VariableStore::new();
    let pairs = parse_json_pair(&expression, json_raw).unwrap();
    store_variable(&mut storage_var, &pairs);
    assert_eq!(storage_var.get("variable_name").unwrap(), "name");
    assert_eq!(storage_var.get("variable_data").unwrap(), "data");
}

#[test]
fn set_then_get_round_trip() {
    let mut storage_var = VariableStore::new();
    assert_eq!(storage_var.get("k"), None);
    storage_var.set(String::from("k"), String::from("v1"));
    assert_eq!(storage_var.get("k").unwrap(), "v1");
    // The last writer wins.
    storage_var.set(String::from("k"), String::from("v2"));
    assert_eq!(storage_var.get("k").unwrap(), "v2");
}

#[test]
fn colliding_pairs_last_writer_wins() {
    let mut storage_var = VariableStore::new();
    let pairs = vec![
        (String::from("k"), String::from("first")),
        (String::from("k"), String::from("second")),
    ];
    store_variable(&mut storage_var, &pairs);
    assert_eq!(storage_var.get("k").unwrap(), "second");
}
