use std::cell::Cell;
use whale_rs::buffer::InputBuffer;
use whale_rs::hints::executables::{get_executables, make_executables_hint, update_executables_hint};
use whale_rs::hints::filesystem::{make_directory_hints, update_directory_hints};
use whale_rs::hints::{sort_candidates, Hint};
use whale_rs::utils::first_item;
use whale_rs::utils::order::chars_le;

fn strings(items: &[&str]) -> Vec<String> {
    items.iter().map(|s| s.to_string()).collect()
}

#[test]
fn new_hint_has_no_match_and_no_directory() {
    let hint = Hint::new(strings(&["alpha", "beta"]), Some("name".to_string()));
    assert_eq!(hint.get_selection(), &strings(&["alpha", "beta"])[..]);
    assert_eq!(hint.set_using(), "");
    assert_eq!(hint.disregard(), 0);
    assert_eq!(hint.last_closest_match(), None);
}

#[test]
fn default_hint_offers_nothing() {
    let hint = Hint::default();
    assert!(hint.get_selection().is_empty());
    assert_eq!(hint.last_closest_match(), None);
    assert_eq!(hint.disregard(), 0);
}

#[test]
fn closest_match_of_nothing_typed_is_the_placeholder() {
    let mut hint = Hint::new(strings(&["alpha", "beta"]), Some("name".to_string()));
    hint.closest_match("");
    assert_eq!(hint.last_closest_match(), Some(&"name".to_string()));
}

#[test]
fn closest_match_of_nothing_typed_without_placeholder_is_the_first_candidate() {
    let mut hint = Hint::new(strings(&["alpha", "beta"]), None);
    hint.closest_match("");
    assert_eq!(hint.last_closest_match(), Some(&"alpha".to_string()));
    let mut empty = Hint::new(vec![], None);
    empty.closest_match("");
    assert_eq!(empty.last_closest_match(), None);
}

#[test]
fn closest_match_is_the_first_candidate_with_the_prefix() {
    let mut hint = Hint::new(strings(&["alpha", "beta", "bench", "gamma"]), Some("name".to_string()));
    hint.closest_match("be");
    assert_eq!(hint.last_closest_match(), Some(&"beta".to_string()));
    hint.closest_match("ben");
    assert_eq!(hint.last_closest_match(), Some(&"bench".to_string()));
    hint.closest_match("delta");
    assert_eq!(hint.last_closest_match(), None);
}

#[test]
fn set_selection_forgets_the_match() {
    let mut hint = Hint::new(strings(&["alpha"]), None);
    hint.closest_match("a");
    assert!(hint.last_closest_match().is_some());
    hint.set_selection(strings(&["beta"]));
    assert_eq!(hint.last_closest_match(), None);
    assert_eq!(hint.get_selection(), &strings(&["beta"])[..]);
}

#[test]
fn setters_change_one_field_each() {
    let mut hint = Hint::new(strings(&["alpha"]), None);
    hint.set_set_using("/usr".to_string());
    hint.set_disregard(5);
    hint.set_inlay(Some("src".to_string()));
    hint.set_closest_match("picked".to_string());
    assert_eq!(hint.set_using(), "/usr");
    assert_eq!(hint.disregard(), 5);
    assert_eq!(hint.last_closest_match(), Some(&"picked".to_string()));
    assert_eq!(hint.get_selection(), &strings(&["alpha"])[..]);
    hint.closest_match("");
    assert_eq!(hint.last_closest_match(), Some(&"src".to_string()));
}

#[test]
fn filtered_items_keep_their_order() {
    let hint = Hint::new(strings(&["cargo", "cat", "dog", "cab"]), None);
    assert_eq!(hint.filtered_items("ca"), strings(&["cargo", "cat", "cab"]));
    assert_eq!(hint.filtered_items(""), strings(&["cargo", "cat", "dog", "cab"]));
    assert!(hint.filtered_items("x").is_empty());
}

#[test]
fn first_item_finds_the_least_index() {
    let items = strings(&["alpha", "beta", "bench"]);
    assert_eq!(first_item(&items, "be"), Some(1));
    assert_eq!(first_item(&items, ""), Some(0));
    assert_eq!(first_item(&items, "z"), None);
    assert_eq!(first_item(&items, "alphabet"), None);
    assert_eq!(first_item(&[], "a"), None);
}

#[test]
fn directory_hint_without_a_directory_is_empty() {
    let calls = Cell::new(0);
    let list = |_: &String| {
        calls.set(calls.get() + 1);
        strings(&["x"])
    };
    let hint = make_directory_hints(None, Some("src".to_string()), &list);
    assert!(hint.get_selection().is_empty());
    assert_eq!(hint.set_using(), "");
    assert_eq!(hint.last_closest_match(), None);
    assert_eq!(calls.get(), 0);
}

#[test]
fn directory_hint_lists_the_directory_once() {
    let calls = Cell::new(0);
    let list = |dir: &String| {
        calls.set(calls.get() + 1);
        assert_eq!(dir, "/usr");
        strings(&["bin", "lib", "local"])
    };
    let hint = make_directory_hints(Some(("/usr".to_string(), 5, "l".to_string())), None, &list);
    assert_eq!(calls.get(), 1);
    assert_eq!(hint.get_selection(), &strings(&["bin", "lib", "local"])[..]);
    assert_eq!(hint.set_using(), "/usr");
    assert_eq!(hint.disregard(), 5);
    assert_eq!(hint.last_closest_match(), Some(&"lib".to_string()));
}

#[test]
fn directory_hint_sorts_what_the_directory_lists() {
    let list = |_: &String| strings(&["src", "Cargo.toml", "target", "build", "src", ".git"]);
    let hint = make_directory_hints(Some(("/w".to_string(), 0, "s".to_string())), None, &list);
    assert_eq!(
        hint.get_selection(),
        &strings(&[".git", "Cargo.toml", "build", "src", "src", "target"])[..]
    );
    assert_eq!(hint.last_closest_match(), Some(&"src".to_string()));
    let mut hint = make_directory_hints(Some(("/w".to_string(), 0, "".to_string())), None, &list);
    assert_eq!(hint.last_closest_match(), Some(&".git".to_string()));
    let other = |_: &String| strings(&["zeta", "alpha", "mid"]);
    update_directory_hints(&Some(("/x".to_string(), 0, "".to_string())), &mut hint, &other);
    assert_eq!(hint.get_selection(), &strings(&["alpha", "mid", "zeta"])[..]);
    assert_eq!(hint.last_closest_match(), Some(&"alpha".to_string()));
}

#[test]
fn candidates_are_sorted_as_in_a_dictionary() {
    assert_eq!(sort_candidates(strings(&["b", "a", "", "ab", "B", "a"])), strings(&["", "B", "a", "a", "ab", "b"]));
    assert!(sort_candidates(vec![]).is_empty());
}

#[test]
fn update_with_the_same_directory_does_not_list_again() {
    let calls = Cell::new(0);
    let list = |_: &String| {
        calls.set(calls.get() + 1);
        if calls.get() == 1 {
            strings(&["bin", "lib"])
        } else {
            strings(&["changed"])
        }
    };
    let mut hint = make_directory_hints(Some(("/usr".to_string(), 5, "".to_string())), None, &list);
    assert_eq!(calls.get(), 1);
    update_directory_hints(&Some(("/usr".to_string(), 5, "l".to_string())), &mut hint, &list);
    update_directory_hints(&Some(("/usr".to_string(), 5, "li".to_string())), &mut hint, &list);
    assert_eq!(calls.get(), 1);
    assert_eq!(hint.get_selection(), &strings(&["bin", "lib"])[..]);
    assert_eq!(hint.last_closest_match(), Some(&"lib".to_string()));
}

#[test]
fn update_with_another_directory_lists_it() {
    let calls = Cell::new(0);
    let list = |dir: &String| {
        calls.set(calls.get() + 1);
        if dir == "/usr" {
            strings(&["bin", "lib"])
        } else {
            strings(&["passwd"])
        }
    };
    let mut hint = make_directory_hints(Some(("/usr".to_string(), 5, "".to_string())), None, &list);
    update_directory_hints(&Some(("/etc".to_string(), 5, "p".to_string())), &mut hint, &list);
    assert_eq!(calls.get(), 2);
    assert_eq!(hint.get_selection(), &strings(&["passwd"])[..]);
    assert_eq!(hint.set_using(), "/etc");
    assert_eq!(hint.last_closest_match(), Some(&"passwd".to_string()));
}

#[test]
fn update_without_a_directory_empties_the_hint() {
    let list = |_: &String| strings(&["bin"]);
    let mut hint = make_directory_hints(Some(("/usr".to_string(), 5, "".to_string())), Some("dir".to_string()), &list);
    update_directory_hints(&None, &mut hint, &list);
    assert!(hint.get_selection().is_empty());
    assert_eq!(hint.set_using(), "");
    assert_eq!(hint.disregard(), 0);
    assert_eq!(hint.last_closest_match(), None);
}

#[test]
fn executables_hint_offers_every_executable() {
    let executables = strings(&["cargo", "cat", "ls"]);
    let mut hint = make_executables_hint(&executables, "ca");
    assert_eq!(hint.get_selection(), &executables[..]);
    assert_eq!(hint.last_closest_match(), Some(&"cargo".to_string()));
    update_executables_hint("cat", &mut hint);
    assert_eq!(hint.last_closest_match(), Some(&"cat".to_string()));
    update_executables_hint("x", &mut hint);
    assert_eq!(hint.last_closest_match(), None);
}

#[test]
fn executables_are_sorted_file_names() {
    let output = "/usr/bin/ls\n/usr/bin/cat\n\n/bin/zsh\n/usr/local/bin/cargo\n";
    assert_eq!(get_executables(output), strings(&["cargo", "cat", "ls", "zsh"]));
}

#[test]
fn executables_of_a_listing_without_final_line_break() {
    assert_eq!(get_executables("/bin/b\n/bin/a"), strings(&["a", "b"]));
    assert!(get_executables("").is_empty());
    assert_eq!(get_executables("/bin/a\n/opt/a"), strings(&["a", "a"]));
}

#[test]
fn chars_are_ordered_as_in_a_dictionary() {
    let le = |a: &str, b: &str| {
        let a: Vec<char> = a.chars().collect();
        let b: Vec<char> = b.chars().collect();
        chars_le(&a, &b)
    };
    assert!(le("", ""));
    assert!(le("", "a"));
    assert!(!le("a", ""));
    assert!(le("ab", "abc"));
    assert!(!le("abd", "abc"));
    assert!(le("Z", "a"));
    assert!(le("abc", "abc"));
}

#[test]
fn current_hint_is_clamped_to_the_last_argument() {
    let mut buffer = InputBuffer::init();
    assert!(buffer.get_curr_hint_safe().is_none());
    buffer.insert_str_main_cursor("ls ");
    buffer.update();
    // No hints yet.
    assert!(buffer.get_curr_hint_safe().is_none());
}
