use seirchain::redundant_paths::RedundantPathSecurity;

#[test]
fn test_redundant_path_security() {
    let mut rps = RedundantPathSecurity::new();

    assert!(rps.add_path("path1"));
    assert!(!rps.add_path("path1"));
    assert!(rps.validate_paths());

    assert!(rps.remove_path("path1"));
    assert!(!rps.remove_path("path1"));
    assert!(!rps.validate_paths());

    assert!(rps.promote_node("node1"));
    assert!(!rps.promote_node("node1"));
    assert!(rps.is_node_promoted("node1"));

    assert!(rps.remove_promoted_node("node1"));
    assert!(!rps.remove_promoted_node("node1"));
    assert!(!rps.is_node_promoted("node1"));
}

#[test]
fn test_add_and_remove_path() {
    let mut rps = RedundantPathSecurity::new();
    let path_id = "path-1".to_string();

    assert!(rps.add_path(&path_id));
    assert!(!rps.add_path(&path_id));

    assert!(rps.remove_path(&path_id));
    assert!(!rps.remove_path(&path_id));
}

#[test]
fn test_promote_and_remove_node() {
    let mut rps = RedundantPathSecurity::new();
    let node_id = "node-1".to_string();

    assert!(rps.promote_node(&node_id));
    assert!(!rps.promote_node(&node_id));

    assert!(rps.is_node_promoted(&node_id));

    assert!(rps.remove_promoted_node(&node_id));
    assert!(!rps.remove_promoted_node(&node_id));
}

#[test]
fn test_list_paths_and_nodes() {
    let mut rps = RedundantPathSecurity::new();
    let path_id = "path-1".to_string();
    let node_id = "node-1".to_string();

    rps.add_path(&path_id);
    rps.promote_node(&node_id);

    let active_paths = rps.list_active_paths();
    let promoted_nodes = rps.list_promoted_nodes();

    assert_eq!(active_paths.len(), 1);
    assert_eq!(promoted_nodes.len(), 1);

    assert!(!active_paths[0].is_empty());
    assert!(!promoted_nodes[0].is_empty());
}

#[test]
fn listed_paths_are_hex_digests_not_ids() {
    let mut rps = RedundantPathSecurity::new();
    rps.add_path("abc");
    rps.add_path("path-1");
    let listed = rps.list_active_paths();
    assert_eq!(
        listed,
        vec![
            "ba7816bf8f01cfea414140de5dae2223b00361a396177a9cb410ff61f20015ad".to_string(),
            "e724183b63a224308e950fe3f8b9a63f7b919f47e37858e5a3dc4a09dadef5b3".to_string(),
        ]
    );
    assert!(rps.list_promoted_nodes().is_empty());
}

#[test]
fn add_then_remove_on_fresh_instance_leaves_no_path() {
    let mut rps = RedundantPathSecurity::new();
    assert!(!rps.validate_paths());
    rps.add_path("only");
    assert!(rps.validate_paths());
    rps.remove_path("only");
    assert!(rps.active_paths.is_empty());
    assert!(!rps.validate_paths());
}

#[test]
fn paths_and_promotions_are_separate() {
    let mut rps = RedundantPathSecurity::new();
    rps.add_path("x");
    assert!(!rps.is_node_promoted("x"));
    assert!(rps.promote_node("x"));
    assert!(rps.remove_path("x"));
    assert!(rps.is_node_promoted("x"));
}
