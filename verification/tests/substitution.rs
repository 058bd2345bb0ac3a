use data_watch::subst::swap_variable;
use data_watch::varstore::VariableStore;

#[test]
fn utility_swap_one_variable() {
    let text_raw = "Text string looking to swap [[ONE]] Variable.";
    let mut storage_var = VariableStore::new();
    storage_var.set(String::from("ONE"), String::from("1"));
    assert_eq!(
        String::from("Text string looking to swap 1 Variable."),
        swap_variable(&storage_var, text_raw, false)
    );
}

#[test]
fn utility_swap_more_than_one_variable() {
    let text_raw = "Swap [[ONE]] Variable and [[TWO]] Variables and [[NO]]no Variable.";
    let mut storage_var = VariableStore::new();
    storage_var.set(String::from("ONE"), String::from("1"));
    storage_var.set(String::from("TWO"), String::from("2"));
    let new_text = swap_variable(&storage_var, text_raw, false);
    assert_eq!(
        String::from("Swap 1 Variable and 2 Variables and no Variable."),
        new_text
    );
}

#[test]
fn varstore_swap_one_variable() {
    let text_raw = "Text string looking to swap [[ONE]] Variable.";
    let mut storage_var = VariableStore::new();
    storage_var.set(String::from("ONE"), String::from("1"));
    assert_eq!(
        String::from("Text string looking to swap 1 Variable."),
        swap_variable(&storage_var, text_raw, false)
    );
}

#[test]
fn varstore_swap_more_than_one_variable() {
    let text_raw = "Swap [[ONE]] Variable and [[TWO]] Variables and [[NO]]no Variable.";
    let mut storage_var = VariableStore::new();
    storage_var.set(String::from("ONE"), String::from("1"));
    storage_var.set(String::from("TWO"), String::from("2"));
    let new_text = swap_variable(&storage_var, text_raw, false);
    assert_eq!(
        String::from("Swap 1 Variable and 2 Variables and no Variable."),
        new_text
    );
}

#[test]
fn unknown_placeholder_becomes_empty() {
    let storage_var = VariableStore::new();
    assert_eq!(
        swap_variable(&storage_var, "a [[MISSING]] b", false),
        String::from("a  b")
    );
}

#[test]
fn no_placeholder_is_left_once_names_resolve() {
    let mut storage_var = VariableStore::new();
    storage_var.set(String::from("A"), String::from("x"));
    storage_var.set(String::from("B"), String::from("y"));
    let out = swap_variable(&storage_var, "[[A]]-[[B]]-[[C]]", false);
    assert_eq!(out, "x-y-");
    assert!(!out.contains("[["));
    // A second pass leaves the result unchanged.
    assert_eq!(swap_variable(&storage_var, out.as_str(), false), out);
}

#[test]
fn encoded_substitution_percent_encodes_the_value() {
    let mut storage_var = VariableStore::new();
    storage_var.set(String::from("TOKEN"), String::from("a b/c"));
    assert_eq!(
        swap_variable(&storage_var, "q=[[TOKEN]]", true),
        String::from("q=a%20b%2Fc")
    );
    // The same value is inserted untouched without encoding.
    assert_eq!(
        swap_variable(&storage_var, "q=[[TOKEN]]", false),
        String::from("q=a b/c")
    );
}

#[test]
fn stray_closing_brackets_stop_the_scan() {
    let mut storage_var = VariableStore::new();
    storage_var.set(String::from("A"), String::from("x"));
    // The first `]]` comes before the first `[[`, so nothing is replaced.
    assert_eq!(
        swap_variable(&storage_var, "]] [[A]]", false),
        String::from("]] [[A]]")
    );
}

#[test]
fn empty_template_and_empty_store() {
    let storage_var = VariableStore::new();
    assert_eq!(swap_variable(&storage_var, "", false), String::new());
    assert_eq!(swap_variable(&storage_var, "no tokens here", false), "no tokens here");
}
