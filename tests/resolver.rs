use dep_resolver::Node;

fn leaf(id: &str) -> Node {
    Node { id: id.to_string(), deps: vec![] }
}

fn node(id: &str, deps: Vec<Node>) -> Node {
    Node { id: id.to_string(), deps }
}

/// Dependency tree without a repeated identifier.
///              (MyLib)
///        /          \        \
///    (a)            (b)      (c)
///  /    \        /   \   \     \
///(aa)  (ab)    /      \   \    (ca)
///           (ba)   (bb)  (bc)
///            /        \
///         (baa)      (bba)
fn mock_dag() -> Node {
    Node {
        id: "MyLib".to_string(),
        deps: vec![
            Node {
                id: "a".into(),
                deps: vec![
                    Node { id: "aa".into(), deps: vec![] },
                    Node { id: "ab".into(), deps: vec![] },
                ],
            },
            Node {
                id: "b".into(),
                deps: vec![
                    Node {
                        id: "ba".into(),
                        deps: vec![Node { id: "baa".into(), deps: vec![] }],
                    },
                    Node {
                        id: "bb".into(),
                        deps: vec![Node { id: "bba".into(), deps: vec![] }],
                    },
                    Node { id: "bc".into(), deps: vec![] },
                ],
            },
            Node {
                id: "c".into(),
                deps: vec![Node { id: "ca".into(), deps: vec![] }],
            },
        ],
    }
}

/// The same tree, with `bba` depending on a second `b`.
fn mock_cycle() -> Node {
    Node {
        id: "MyLib".to_string(),
        deps: vec![
            Node {
                id: "a".into(),
                deps: vec![
                    Node { id: "aa".into(), deps: vec![] },
                    Node { id: "ab".into(), deps: vec![] },
                ],
            },
            Node {
                id: "b".into(),
                deps: vec![
                    Node {
                        id: "ba".into(),
                        deps: vec![Node { id: "baa".into(), deps: vec![] }],
                    },
                    Node {
                        id: "bb".into(),
                        deps: vec![Node {
                            id: "bba".into(),
                            deps: vec![Node { id: "b".into(), deps: vec![] }],
                        }],
                    },
                    Node { id: "bc".into(), deps: vec![] },
                ],
            },
            Node {
                id: "c".into(),
                deps: vec![Node { id: "ca".into(), deps: vec![] }],
            },
        ],
    }
}

#[test]
fn test_dag() {
    let graph = mock_dag();
    let dependancy_list = graph.get_dependancy_list();

    println!("{:?}", dependancy_list);

    assert_eq!(
        dependancy_list,
        vec!["aa", "ab", "a", "baa", "ba", "bba", "bb", "bc", "b", "ca", "c"]
    );
}

#[test]
fn test_detect_cycle() {
    let graph = mock_dag();
    assert_eq!(graph.has_cycle(), false);

    let graph = mock_cycle();
    assert_eq!(graph.has_cycle(), true);
}

#[test]
fn leaf_root_has_empty_order_and_no_cycle() {
    let root = leaf("MyLib");
    assert!(root.get_dependancy_list().is_empty());
    assert!(!root.has_cycle());
}

#[test]
fn chain_is_listed_deepest_first() {
    let root = node("app", vec![node("mid", vec![node("base", vec![leaf("core")])])]);
    assert_eq!(root.get_dependancy_list(), vec!["core", "base", "mid"]);
    assert!(!root.has_cycle());
}

#[test]
fn order_length_is_number_of_descendants() {
    let graph = mock_dag();
    assert_eq!(graph.get_dependancy_list().len(), 11);
    let graph = mock_cycle();
    assert_eq!(graph.get_dependancy_list().len(), 12);
}

#[test]
fn root_identifier_is_never_listed() {
    let graph = mock_dag();
    let list = graph.get_dependancy_list();
    assert!(!list.iter().any(|s| s == "MyLib"));
}

#[test]
fn repeated_calls_agree() {
    let graph = mock_cycle();
    assert_eq!(graph.get_dependancy_list(), graph.get_dependancy_list());
    assert_eq!(graph.has_cycle(), graph.has_cycle());
    let graph = mock_dag();
    assert_eq!(graph.get_dependancy_list(), graph.get_dependancy_list());
    assert_eq!(graph.has_cycle(), graph.has_cycle());
}

#[test]
fn duplicate_order_keeps_every_occurrence() {
    let graph = mock_cycle();
    assert_eq!(
        graph.get_dependancy_list(),
        vec!["aa", "ab", "a", "baa", "ba", "b", "bba", "bb", "bc", "b", "ca", "c"]
    );
}

#[test]
fn diamond_counts_as_cycle() {
    let root = node(
        "app",
        vec![node("left", vec![leaf("shared")]), node("right", vec![leaf("shared")])],
    );
    assert!(root.has_cycle());
    assert_eq!(root.get_dependancy_list(), vec!["shared", "left", "shared", "right"]);
}

#[test]
fn equal_sibling_leaves_count_as_cycle() {
    let root = node("app", vec![leaf("x"), leaf("x")]);
    assert!(root.has_cycle());
    assert_eq!(root.get_dependancy_list(), vec!["x", "x"]);
}

#[test]
fn child_named_like_root_counts_as_cycle() {
    let root = node("app", vec![leaf("app")]);
    assert!(root.has_cycle());
    assert_eq!(root.get_dependancy_list(), vec!["app"]);
}

#[test]
fn distinct_siblings_without_children_have_no_cycle() {
    let root = node("app", vec![leaf("x"), leaf("y"), leaf("z")]);
    assert!(!root.has_cycle());
    assert_eq!(root.get_dependancy_list(), vec!["x", "y", "z"]);
}
