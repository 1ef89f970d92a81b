use stellux::models::directory::{Directory, DirectoryDocument, DirectoryTreeNode};
use stellux::natural_order::{natural_sort_cmp, parse_name_prefix};
use stellux::error::ApiError;
use stellux::repositories::directory::{DirectoryRepository, DocumentPlacement};
use std::cmp::Ordering;

fn dir(id: i64, name: &str, parent: Option<i64>, sort_order: i32) -> Directory {
    Directory { id, name: name.to_string(), intro: None, parent_id: parent, sort_order, created_at: None }
}

fn doc(id: i64, name: &str, dir: Option<i64>, sort_order: i32) -> DocumentPlacement {
    DocumentPlacement {
        directory_id: dir,
        document: DirectoryDocument { id, name: name.to_string(), filename: None, sort_order },
    }
}

fn names(nodes: &[DirectoryTreeNode]) -> Vec<String> {
    nodes.iter().map(|n| n.name.clone()).collect()
}

#[test]
fn name_prefix_is_parsed() {
    assert_eq!(parse_name_prefix("1.介绍"), (1, "介绍"));
    assert_eq!(parse_name_prefix("13.高级"), (13, "高级"));
    assert_eq!(parse_name_prefix("abc"), (i64::MAX, "abc"));
    assert_eq!(parse_name_prefix("x.y"), (i64::MAX, "x.y"));
    assert_eq!(parse_name_prefix("-2.neg"), (-2, "neg"));
}

#[test]
fn natural_order_puts_numbers_first() {
    assert_eq!(natural_sort_cmp("2.b", "10.a"), Ordering::Less);
    assert_eq!(natural_sort_cmp("10.a", "abc"), Ordering::Less);
    assert_eq!(natural_sort_cmp("1.a", "1.a"), Ordering::Equal);
    assert_eq!(natural_sort_cmp("1.b", "1.a"), Ordering::Greater);
}

#[test]
fn tree_nests_and_orders_directories_and_documents() {
    let dirs = vec![
        dir(1, "10.Later", None, 0),
        dir(2, "2.Early", None, 0),
        dir(3, "child", Some(2), 0),
        dir(4, "orphan", Some(99), 0),
        dir(5, "first", None, -1),
        dir(6, "grandchild", Some(3), 0),
    ];
    let docs = vec![
        doc(10, "b", Some(2), 0),
        doc(11, "a", Some(2), 0),
        doc(12, "z", Some(2), -5),
        doc(13, "loose", None, 0),
        doc(14, "deep", Some(6), 0),
    ];
    let tree = DirectoryRepository::build_tree(dirs, docs);
    assert_eq!(names(&tree), vec!["first", "2.Early", "10.Later"]);
    let early = &tree[1];
    assert_eq!(early.documents.iter().map(|d| d.id).collect::<Vec<_>>(), vec![12, 11, 10]);
    assert_eq!(names(&early.children), vec!["child"]);
    assert_eq!(names(&early.children[0].children), vec!["grandchild"]);
    assert_eq!(early.children[0].children[0].documents[0].id, 14);
    assert!(tree[0].children.is_empty() && tree[2].children.is_empty());
}

#[test]
fn equal_order_and_name_fall_back_to_id() {
    let tree = DirectoryRepository::build_tree(vec![dir(9, "same", None, 1), dir(3, "same", None, 1)], vec![]);
    assert_eq!(tree.iter().map(|n| n.id).collect::<Vec<_>>(), vec![3, 9]);
}

#[test]
fn empty_input_gives_empty_tree() {
    assert!(DirectoryRepository::build_tree(vec![], vec![]).is_empty());
}

#[test]
fn chain_as_deep_as_the_list_is_not_cut() {
    let dirs = vec![dir(4, "d", Some(3), 0), dir(3, "c", Some(2), 0), dir(2, "b", Some(1), 0), dir(1, "a", None, 0)];
    let tree = DirectoryRepository::build_tree(dirs, vec![doc(7, "leaf", Some(4), 0)]);
    assert_eq!(names(&tree), vec!["a"]);
    let d = &tree[0].children[0].children[0].children[0];
    assert_eq!(d.name, "d");
    assert_eq!(d.documents[0].id, 7);
    assert!(d.children.is_empty());
}

#[test]
fn directories_in_a_parent_cycle_do_not_appear() {
    let dirs = vec![dir(1, "top", None, 0), dir(2, "x", Some(3), 0), dir(3, "y", Some(2), 0)];
    let tree = DirectoryRepository::build_tree(dirs, vec![]);
    assert_eq!(names(&tree), vec!["top"]);
    assert!(tree[0].children.is_empty());
}

fn bad_request(r: Result<(), ApiError>) -> String {
    match r {
        Err(ApiError::BadRequest(m)) => m,
        other => panic!("expected a bad request, got {:?}", other),
    }
}

#[test]
fn new_directory_needs_an_existing_parent() {
    assert!(DirectoryRepository::check_parent_for_create(None, false).is_ok());
    assert!(DirectoryRepository::check_parent_for_create(Some(3), true).is_ok());
    assert_eq!(
        bad_request(DirectoryRepository::check_parent_for_create(Some(42), false)),
        "Parent directory with id 42 not found"
    );
}

#[test]
fn moving_a_directory_refuses_itself_missing_parents_and_descendants() {
    assert!(DirectoryRepository::check_parent_for_update(5, 2, true, false).is_ok());
    assert_eq!(
        bad_request(DirectoryRepository::check_parent_for_update(5, 5, true, true)),
        "Directory cannot be its own parent"
    );
    assert_eq!(
        bad_request(DirectoryRepository::check_parent_for_update(5, -7, false, false)),
        "Parent directory with id -7 not found"
    );
    assert_eq!(
        bad_request(DirectoryRepository::check_parent_for_update(5, 8, true, true)),
        "Cannot set parent to a descendant directory (circular reference)"
    );
}
