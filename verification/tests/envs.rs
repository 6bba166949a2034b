use io_process::envs::EnvMap;

fn pairs(map: &EnvMap) -> Vec<(String, String)> {
    let mut pairs = map.entries().clone();
    pairs.sort();
    pairs
}

fn pair(key: &str, value: &str) -> (String, String) {
    (key.to_string(), value.to_string())
}

#[test]
fn new_map_is_empty() {
    let map = EnvMap::new();
    assert_eq!(map.len(), 0);
    assert!(map.is_empty());
    assert!(map.entries().is_empty());
    assert!(!map.contains_key("HOME"));
    assert_eq!(map.get("HOME"), None);
}

#[test]
fn insert_binds_a_name() {
    let mut map = EnvMap::new();
    map.insert("A".to_string(), "1".to_string());
    assert_eq!(map.len(), 1);
    assert!(!map.is_empty());
    assert!(map.contains_key("A"));
    assert_eq!(map.get("A"), Some(&"1".to_string()));
    assert_eq!(map.get("B"), None);
}

#[test]
fn insert_again_replaces_the_value() {
    let mut map = EnvMap::new();
    map.insert("A".to_string(), "1".to_string());
    map.insert("B".to_string(), "2".to_string());
    map.insert("A".to_string(), "3".to_string());
    assert_eq!(map.len(), 2);
    assert_eq!(map.get("A"), Some(&"3".to_string()));
    assert_eq!(pairs(&map), vec![pair("A", "3"), pair("B", "2")]);
}

#[test]
fn names_differ_by_case_and_may_be_empty() {
    let mut map = EnvMap::new();
    map.insert("path".to_string(), "lower".to_string());
    map.insert("PATH".to_string(), "upper".to_string());
    map.insert(String::new(), "nameless".to_string());
    assert_eq!(map.len(), 3);
    assert_eq!(map.get("path"), Some(&"lower".to_string()));
    assert_eq!(map.get("PATH"), Some(&"upper".to_string()));
    assert_eq!(map.get(""), Some(&"nameless".to_string()));
}

#[test]
fn remove_unbinds_and_keeps_the_rest() {
    let mut map = EnvMap::new();
    map.insert("A".to_string(), "1".to_string());
    map.insert("B".to_string(), "2".to_string());
    map.insert("C".to_string(), "3".to_string());
    map.remove("B");
    assert_eq!(map.len(), 2);
    assert!(!map.contains_key("B"));
    assert_eq!(pairs(&map), vec![pair("A", "1"), pair("C", "3")]);
}

#[test]
fn remove_of_an_unbound_name_changes_nothing() {
    let mut map = EnvMap::new();
    map.insert("A".to_string(), "1".to_string());
    map.remove("Z");
    assert_eq!(pairs(&map), vec![pair("A", "1")]);
}

#[test]
fn clear_unbinds_everything() {
    let mut map = EnvMap::new();
    map.insert("A".to_string(), "1".to_string());
    map.insert("B".to_string(), "2".to_string());
    map.clear();
    assert!(map.is_empty());
    assert_eq!(map.get("A"), None);
}

#[test]
fn clone_has_the_same_bindings_and_is_apart() {
    let mut map = EnvMap::new();
    map.insert("A".to_string(), "1".to_string());
    let mut copy = map.clone();
    assert_eq!(pairs(&copy), pairs(&map));
    copy.insert("A".to_string(), "2".to_string());
    copy.insert("B".to_string(), "3".to_string());
    assert_eq!(pairs(&map), vec![pair("A", "1")]);
    assert_eq!(pairs(&copy), vec![pair("A", "2"), pair("B", "3")]);
}
