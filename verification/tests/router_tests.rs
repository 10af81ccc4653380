use bulwark_ext_filter::router::{RouteTable, RouteTarget};

fn target(pattern: &str, plugin_ids: &[u64], timeout_millis: Option<u64>) -> RouteTarget {
    RouteTarget {
        pattern: pattern.to_string(),
        plugin_ids: plugin_ids.to_vec(),
        timeout_millis,
    }
}

#[test]
fn lookup_finds_registered_route() {
    let mut table = RouteTable::new();
    assert!(table.insert(&"/a".to_string(), target("/a", &[1], None)));
    assert!(table.insert(&"/b".to_string(), target("/b", &[2, 3], Some(5))));

    let (hit, params) = table.lookup(&"/a".to_string()).unwrap();
    assert_eq!(hit.pattern, "/a");
    assert_eq!(hit.plugin_ids, vec![1]);
    assert!(params.is_empty());

    let (hit, _) = table.lookup(&"/b".to_string()).unwrap();
    assert_eq!(hit.plugin_ids, vec![2, 3]);
    assert_eq!(hit.timeout_millis, Some(5));
}

#[test]
fn unknown_path_has_no_route() {
    let mut table = RouteTable::new();
    assert!(table.insert(&"/a".to_string(), target("/a", &[1], None)));
    assert!(table.lookup(&"/unknown".to_string()).is_none());
}

#[test]
fn named_parameters_are_captured() {
    let mut table = RouteTable::new();
    assert!(table.insert(&"/foo/:id".to_string(), target("/foo/:id", &[7], None)));
    let (hit, params) = table.lookup(&"/foo/42".to_string()).unwrap();
    assert_eq!(hit.plugin_ids, vec![7]);
    assert_eq!(params, vec![("id".to_string(), "42".to_string())]);
}

#[test]
fn duplicate_pattern_is_refused() {
    let mut table = RouteTable::new();
    assert!(table.insert(&"/a".to_string(), target("/a", &[1], None)));
    assert!(!table.insert(&"/a".to_string(), target("/a", &[2], None)));
    let (hit, _) = table.lookup(&"/a".to_string()).unwrap();
    assert_eq!(hit.plugin_ids, vec![1]);
}

#[test]
fn trailing_slash_is_distinct() {
    let mut table = RouteTable::new();
    assert!(table.insert(&"/x".to_string(), target("/x", &[1], None)));
    assert!(table.lookup(&"/x/".to_string()).is_none());
}

#[test]
fn too_many_parameters_refused() {
    let mut table = RouteTable::new();
    let mut many = String::new();
    for i in 0..26 {
        many.push_str(&format!("/:p{}", i));
    }
    assert!(!table.insert(&many, target(&many, &[1], None)));

    let mut ok = String::new();
    for i in 0..25 {
        ok.push_str(&format!("/:q{}", i));
    }
    assert!(table.insert(&ok, target(&ok, &[1], None)));
}

#[test]
fn empty_pattern_refused() {
    let mut table = RouteTable::new();
    assert!(!table.insert(&String::new(), target("", &[1], None)));
}
