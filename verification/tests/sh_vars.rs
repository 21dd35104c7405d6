use fsh::error::ErrorKind;
use fsh::sh_vars::ShVars;

fn three() -> ShVars {
    ShVars::from_pairs(vec![
        ("key1".to_string(), "value1".to_string()),
        ("key2".to_string(), "value2".to_string()),
        ("key3".to_string(), "value3".to_string()),
    ])
}

#[test]
fn sh_vars_test_sh_vars() {
    let vars = ShVars::new();

    assert_eq!(vars.len(), 0);

    assert_eq!(vars.is_empty(), true);
}

#[test]
fn test_sh_vars_set() {
    let mut vars = ShVars::new();

    for i in 0..10 {
        vars.set(&format!("key{}", i), &format!("value{}", i));
    }

    for i in 0..10 {
        assert_eq!(
            vars.get(&format!("key{}", i)).unwrap(),
            &format!("value{}", i)
        );
    }

    assert_eq!(vars.len(), 10);

    assert_eq!(vars.is_empty(), false);
}

#[test]
fn test_sh_vars_insert() {
    let mut vars = ShVars::new();

    for i in 0..10 {
        vars.insert(format!("key{}", i), format!("value{}", i));
    }

    for i in 0..10 {
        assert_eq!(
            vars.get(&format!("key{}", i)).unwrap(),
            &format!("value{}", i)
        );
    }

    assert_eq!(vars.len(), 10);

    assert_eq!(vars.is_empty(), false);
}

#[test]
fn sh_vars_test_sh_vars_get() {
    let vars = three();

    for i in 1..4 {
        assert_eq!(
            vars.get(&format!("key{}", i)).unwrap(),
            &format!("value{}", i)
        );
    }

    assert_eq!(vars.len(), 3);

    assert_eq!(vars.is_empty(), false);
}

#[test]
fn test_sh_vars_unset() {
    let mut vars = three();

    vars.unset("key1");

    assert_eq!(vars.contains("key1"), false);

    assert_eq!(vars.len(), 2);
}

#[test]
fn test_sh_vars_remove() {
    let mut vars = three();

    vars.remove("key1");

    assert_eq!(vars.contains("key1"), false);

    assert_eq!(vars.len(), 2);
}

#[test]
fn sh_vars_test_sh_vars_clear() {
    let mut vars = three();

    vars.clear();

    assert_eq!(vars.len(), 0);

    assert_eq!(vars.is_empty(), true);
}

#[test]
fn sh_vars_get_of_a_missing_key_names_the_key() {
    let vars = three();
    let err = vars.get("nope").unwrap_err();
    assert_eq!(*err.kind(), ErrorKind::NotFound);
    assert_eq!(err.message(), "The key 'nope' does not exist");
}

#[test]
fn sh_vars_insert_replaces_and_keeps_one_entry() {
    let mut vars = three();
    vars.insert("key2".to_string(), "other".to_string());
    assert_eq!(vars.len(), 3);
    assert_eq!(vars.get("key2").unwrap(), "other");
    assert_eq!(vars.keys(), vec!["key1", "key2", "key3"]);
    assert_eq!(vars.values(), vec!["value1", "other", "value3"]);
    let entries = vars.entries();
    assert_eq!(entries.len(), 3);
    assert_eq!(entries[1].0, "key2");
    assert_eq!(entries[1].1, "other");
    vars.remove("absent");
    assert_eq!(vars.len(), 3);
}

#[test]
fn sh_vars_later_pairs_win_and_inherit_adds() {
    let mut vars = ShVars::from_pairs(vec![
        ("a".to_string(), "1".to_string()),
        ("a".to_string(), "2".to_string()),
    ]);
    assert_eq!(vars.len(), 1);
    assert_eq!(vars.get("a").unwrap(), "2");
    vars.inherit(vec![
        ("b".to_string(), "3".to_string()),
        ("a".to_string(), "4".to_string()),
    ]);
    assert_eq!(vars.len(), 2);
    assert_eq!(vars.get("a").unwrap(), "4");
    assert_eq!(vars.get("b").unwrap(), "3");
    let copy = vars.clone();
    assert_eq!(copy.get("b").unwrap(), "3");
}

#[test]
fn test_sh_vars() {
    let vars = ShVars::new();

    assert_eq!(vars.len(), 0);

    assert_eq!(vars.is_empty(), true);
}

#[test]
fn test_sh_vars_get() {
    let vars = three();

    for i in 1..4 {
        assert_eq!(
            vars.get(&format!("key{}", i)).unwrap(),
            &format!("value{}", i)
        );
    }

    assert_eq!(vars.len(), 3);

    assert_eq!(vars.is_empty(), false);
}

#[test]
fn test_sh_vars_clear() {
    let mut vars = three();

    vars.clear();

    assert_eq!(vars.len(), 0);

    assert_eq!(vars.is_empty(), true);
}

#[test]
fn a_variables_file_sets_one_variable_on_a_line() {
    let vars = ShVars::from_text("A=1\n\n  B = two words \nno sign\nC=x=y\n=v\nA=3\r\n");
    assert_eq!(vars.len(), 4);
    assert_eq!(vars.get("A").unwrap(), "3");
    assert_eq!(vars.get("B").unwrap(), "two words");
    assert_eq!(vars.get("C").unwrap(), "x");
    assert_eq!(vars.get("").unwrap(), "v");
    assert_eq!(vars.to_text(), "A=3\n\nB=two words\n\nC=x\n\n=v\n\n");
    assert_eq!(vars.print(), "A=3\nB=two words\nC=x\n=v\n");
    assert_eq!(ShVars::new().to_text(), "");
    let again = ShVars::from_text(&vars.to_text());
    assert_eq!(again.keys(), vars.keys());
    assert_eq!(again.values(), vars.values());
}
