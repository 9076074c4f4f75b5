use conmon_server::child::{copy_texts, Child};

fn paths(list: &[&str]) -> Vec<String> {
    list.iter().map(|p| p.to_string()).collect()
}

#[test]
fn child_keeps_what_it_was_given() {
    let child = Child::new("c1".to_string(), 4242, paths(&["/run/c1/exit"]));
    assert_eq!(child.id(), "c1");
    assert_eq!(child.pid(), 4242);
    assert_eq!(child.exit_paths(), &paths(&["/run/c1/exit"]));
}

#[test]
fn child_without_exit_paths() {
    let child = Child::new("c2".to_string(), 1, Vec::new());
    assert!(child.exit_paths().is_empty());
}

#[test]
fn child_keeps_the_order_of_its_exit_paths() {
    let child = Child::new("c1".to_string(), 7, paths(&["/c", "/a", "/b"]));
    assert_eq!(child.exit_paths(), &paths(&["/c", "/a", "/b"]));
}

#[test]
fn child_keeps_the_first_mention_of_a_repeated_path() {
    let child = Child::new("c1".to_string(), 7, paths(&["/a", "/b", "/a", "/c", "/b", "/a"]));
    assert_eq!(child.exit_paths(), &paths(&["/a", "/b", "/c"]));
}

#[test]
fn child_tells_paths_apart_by_their_text_alone() {
    let child = Child::new("c1".to_string(), 7, paths(&["/a", "/a/", "/A", "/a"]));
    assert_eq!(child.exit_paths(), &paths(&["/a", "/a/", "/A"]));
}

#[test]
fn child_takes_any_process_identifier() {
    assert_eq!(Child::new("c".to_string(), 0, Vec::new()).pid(), 0);
    assert_eq!(Child::new("c".to_string(), -1, Vec::new()).pid(), -1);
    assert_eq!(Child::new("c".to_string(), i32::MAX, Vec::new()).pid(), i32::MAX);
}

#[test]
fn child_clone_is_equal() {
    let child = Child::new("c1".to_string(), 4242, paths(&["/x", "/y"]));
    let copy = child.clone();
    assert_eq!(copy, child);
    assert_eq!(copy.id(), "c1");
    assert_eq!(copy.pid(), 4242);
    assert_eq!(copy.exit_paths(), &paths(&["/x", "/y"]));
}

#[test]
fn copy_texts_copies_each_text() {
    assert_eq!(copy_texts(&paths(&["a", "", "b", "a"])), paths(&["a", "", "b", "a"]));
    assert_eq!(copy_texts(&Vec::new()), Vec::<String>::new());
}
