use git_hooks::walk::{
    all_source_paths, ends_with_extension, entry_paths, get_source_paths, is_source, listing_paths,
    Node,
};

fn file(path: &str, name: &str) -> Node {
    Node::File { path: String::from(path), name: String::from(name) }
}

#[test]
fn source_names() {
    assert!(is_source("main.cc"));
    assert!(is_source("header.h"));
    assert!(is_source("a.b.cc"));
    assert!(is_source("..h"));
    assert!(!is_source(".cc"));
    assert!(!is_source(".h"));
    assert!(!is_source("cc"));
    assert!(!is_source("h"));
    assert!(!is_source(""));
    assert!(!is_source("main.cpp"));
    assert!(!is_source("main.c"));
    assert!(!is_source("main.hh"));
    assert!(!is_source("main.CC"));
    assert!(!is_source("main.cc."));
    assert!(!is_source("CMakeLists.txt"));
    assert!(!is_source("maincc"));
}

#[test]
fn extension_needs_a_stem_and_a_period() {
    let name: Vec<char> = "lib.rs".chars().collect();
    assert!(ends_with_extension(&name, "rs"));
    assert!(!ends_with_extension(&name, "s"));
    assert!(!ends_with_extension(&name, "lib.rs"));
    assert!(!ends_with_extension(&name, "b.rs"));
    let bare: Vec<char> = ".rs".chars().collect();
    assert!(!ends_with_extension(&bare, "rs"));
    let dot: Vec<char> = "a.".chars().collect();
    assert!(ends_with_extension(&dot, ""));
}

#[test]
fn walk_keeps_the_order_of_the_listings() {
    let tree = Node::Dir(vec![
        file("r/b.cc", "b.cc"),
        Node::Dir(vec![file("r/d/x.h", "x.h"), file("r/d/notes.txt", "notes.txt")]),
        file("r/a.h", "a.h"),
        Node::Unreadable,
        Node::Dir(vec![Node::Dir(vec![Node::Dir(vec![file("r/e/f/g/deep.cc", "deep.cc")])])]),
        Node::Dir(vec![]),
    ]);
    assert_eq!(get_source_paths(&tree), vec!["r/b.cc", "r/d/x.h", "r/a.h", "r/e/f/g/deep.cc"]);
}

#[test]
fn unreadable_root_has_no_files() {
    assert!(get_source_paths(&Node::Unreadable).is_empty());
    assert!(get_source_paths(&Node::Dir(vec![])).is_empty());
    assert!(get_source_paths(&Node::Dir(vec![Node::Unreadable, Node::Dir(vec![Node::Unreadable])]))
        .is_empty());
}

#[test]
fn the_name_decides_not_the_path() {
    let listing = Node::Dir(vec![file("odd.path", "x.cc"), file("dir.cc/readme", "readme")]);
    assert_eq!(get_source_paths(&listing), vec!["odd.path"]);
    assert_eq!(entry_paths(&file("odd.path", "x.cc")), vec!["odd.path"]);
    assert!(entry_paths(&file("dir.cc/readme", "readme")).is_empty());
}

#[test]
fn a_root_that_is_a_file_has_no_files() {
    assert!(get_source_paths(&file("x.cc", "x.cc")).is_empty());
    assert!(get_source_paths(&file("include/a.h", "a.h")).is_empty());
    let roots = vec![
        file("main.cc", "main.cc"),
        Node::Dir(vec![file("src/a.cc", "a.cc")]),
        Node::Unreadable,
        file("b.h", "b.h"),
    ];
    assert_eq!(all_source_paths(&roots), vec!["src/a.cc"]);
}

#[test]
fn entries_of_a_listing() {
    let entries = vec![
        file("r/a.cc", "a.cc"),
        Node::Unreadable,
        Node::Dir(vec![file("r/d/b.h", "b.h")]),
        file("r/c.txt", "c.txt"),
    ];
    assert_eq!(listing_paths(&entries), vec!["r/a.cc", "r/d/b.h"]);
    assert!(listing_paths(&vec![]).is_empty());
    assert!(entry_paths(&Node::Unreadable).is_empty());
    assert_eq!(entry_paths(&Node::Dir(entries)), vec!["r/a.cc", "r/d/b.h"]);
}

#[test]
fn roots_are_walked_one_after_the_other() {
    let roots = vec![
        Node::Dir(vec![file("two/z.cc", "z.cc")]),
        Node::Unreadable,
        Node::Dir(vec![file("one/a.cc", "a.cc"), file("one/b.h", "b.h")]),
    ];
    assert_eq!(all_source_paths(&roots), vec!["two/z.cc", "one/a.cc", "one/b.h"]);
    assert!(all_source_paths(&vec![]).is_empty());
}
