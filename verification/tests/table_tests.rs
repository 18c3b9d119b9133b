use pulp_model::NameMap;

#[test]
fn a_new_table_is_empty() {
    let t: NameMap<i32> = NameMap::new();
    assert_eq!(t.len(), 0);
    assert!(t.is_empty());
    assert_eq!(t.get("x"), None);
    assert_eq!(t.position("x"), None);
    assert!(!t.contains_key("x"));
}

#[test]
fn entries_keep_the_order_in_which_their_names_came() {
    let mut t: NameMap<i32> = NameMap::new();
    t.insert("b".to_string(), 2);
    t.insert("a".to_string(), 1);
    t.insert("c".to_string(), 3);
    assert_eq!(t.len(), 3);
    assert!(!t.is_empty());
    assert_eq!(t.name_at(0), "b");
    assert_eq!(t.name_at(1), "a");
    assert_eq!(t.name_at(2), "c");
    assert_eq!(*t.value_at(0), 2);
    assert_eq!(*t.value_at(1), 1);
    assert_eq!(*t.value_at(2), 3);
    assert_eq!(t.position("a"), Some(1));
    assert_eq!(t.get("c"), Some(&3));
    assert!(t.contains_key("b"));
    assert!(!t.contains_key("d"));
}

#[test]
fn inserting_under_a_name_again_replaces_the_value_in_place() {
    let mut t: NameMap<i32> = NameMap::new();
    t.insert("a".to_string(), 1);
    t.insert("b".to_string(), 2);
    t.insert("a".to_string(), 10);
    assert_eq!(t.len(), 2);
    assert_eq!(t.name_at(0), "a");
    assert_eq!(t.get("a"), Some(&10));
    assert_eq!(t.get("b"), Some(&2));
    t.set_value_at(1, 20);
    assert_eq!(t.get("b"), Some(&20));
    assert_eq!(t.get("a"), Some(&10));
}

#[test]
fn a_clone_holds_the_same_entries() {
    let mut t: NameMap<i32> = NameMap::new();
    t.insert("a".to_string(), 1);
    t.insert("b".to_string(), 2);
    let mut u = t.clone();
    u.insert("a".to_string(), 5);
    assert_eq!(t.get("a"), Some(&1));
    assert_eq!(u.get("a"), Some(&5));
    assert_eq!(u.name_at(1), "b");
    assert_eq!(u.len(), 2);
}
