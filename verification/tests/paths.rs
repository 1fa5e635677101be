use std::cell::RefCell;
use whale_rs::buffer::InputBuffer;
use whale_rs::utils::{binary_search, short_path, to_chars};
use whale_rs::utils::numbers::parse_decimal;
use whale_rs::utils::paths::{path_string, resolve, split_chars};

fn chars(s: &str) -> Vec<char> {
    s.chars().collect()
}

fn resolved(cwd: &str, token: &str) -> String {
    let (absolute, parts) = resolve(&chars(cwd), &chars(token));
    path_string(absolute, &parts, parts.len())
}

#[test]
fn relative_tokens_are_joined_onto_the_working_directory() {
    assert_eq!(resolved("/home/me", "src/main.rs"), "/home/me/src/main.rs");
    assert_eq!(resolved("/home/me", ""), "/home/me");
    assert_eq!(resolved("/home/me/", "src/"), "/home/me/src");
    assert_eq!(resolved("", "src"), "src");
    assert_eq!(resolved("", ""), "");
}

#[test]
fn absolute_tokens_stand_for_themselves() {
    assert_eq!(resolved("/home/me", "/usr/bi"), "/usr/bi");
    assert_eq!(resolved("/home/me", "/"), "/");
    assert_eq!(resolved("/home/me", "//usr///lib"), "/usr/lib");
}

#[test]
fn dot_dot_steps_out_of_a_directory() {
    assert_eq!(resolved("/home/me", "../you/docs"), "/home/you/docs");
    assert_eq!(resolved("/home/me", "../../../.."), "/");
    assert_eq!(resolved("/home/me", "./a/./b/../c"), "/home/me/a/c");
    assert_eq!(resolved("/home/me", ".."), "/home");
}

#[test]
fn path_string_of_fewer_parts_is_the_parent() {
    let (absolute, parts) = resolve(&chars("/home/me"), &chars("src/fo"));
    assert_eq!(path_string(absolute, &parts, parts.len() - 1), "/home/me/src");
    assert_eq!(path_string(absolute, &parts, 0), "/");
    assert_eq!(path_string(false, &parts, 0), "");
}

#[test]
fn arg_to_path_takes_the_directory_that_exists() {
    let asked = RefCell::new(vec![]);
    let is_dir = |p: &String| {
        asked.borrow_mut().push(p.clone());
        p == "/usr/bin" || p == "/usr"
    };
    let found = InputBuffer::arg_to_path("/usr/bin", "/home/me", &is_dir);
    assert_eq!(found, Some(("/usr/bin".to_string(), 5, "bin".to_string())));
    assert_eq!(*asked.borrow(), vec!["/usr/bin".to_string()]);
}

#[test]
fn arg_to_path_falls_back_to_the_parent() {
    let asked = RefCell::new(vec![]);
    let is_dir = |p: &String| {
        asked.borrow_mut().push(p.clone());
        p == "/usr/bin" || p == "/usr"
    };
    let found = InputBuffer::arg_to_path("/usr/bi", "/home/me", &is_dir);
    assert_eq!(found, Some(("/usr".to_string(), 5, "bi".to_string())));
    assert_eq!(*asked.borrow(), vec!["/usr/bi".to_string(), "/usr".to_string()]);
}

#[test]
fn arg_to_path_offers_nothing_where_nothing_exists() {
    let is_dir = |_: &String| false;
    assert_eq!(InputBuffer::arg_to_path("/nowhere/at/all", "/home/me", &is_dir), None);
    assert_eq!(InputBuffer::arg_to_path("", "", &is_dir), None);
}

#[test]
fn arg_to_path_of_a_relative_token() {
    let is_dir = |p: &String| p == "/home/me/src";
    assert_eq!(
        InputBuffer::arg_to_path("src/ma", "/home/me", &is_dir),
        Some(("/home/me/src".to_string(), 4, "ma".to_string()))
    );
    assert_eq!(
        InputBuffer::arg_to_path("src/", "/home/me", &is_dir),
        Some(("/home/me/src".to_string(), 4, "".to_string()))
    );
    assert_eq!(
        InputBuffer::arg_to_path("src", "/home/me", &is_dir),
        Some(("/home/me/src".to_string(), 0, "src".to_string()))
    );
}

#[test]
fn split_keeps_empty_pieces() {
    let pieces: Vec<String> =
        split_chars(&chars("a  b "), ' ').into_iter().map(|p| p.into_iter().collect()).collect();
    assert_eq!(pieces, vec!["a", "", "b", ""]);
    assert_eq!(split_chars(&chars(""), ' '), vec![Vec::<char>::new()]);
}

#[test]
fn decimal_numbers_are_parsed_up_to_the_limit() {
    assert_eq!(parse_decimal(&chars("0"), 10), Some(0));
    assert_eq!(parse_decimal(&chars("007"), 10), Some(7));
    assert_eq!(parse_decimal(&chars("10"), 10), Some(10));
    assert_eq!(parse_decimal(&chars("11"), 10), None);
    assert_eq!(parse_decimal(&chars(""), 10), None);
    assert_eq!(parse_decimal(&chars("1a"), 10), None);
    assert_eq!(parse_decimal(&chars("+1"), 10), None);
    assert_eq!(parse_decimal(&chars("18446744073709551615"), u64::MAX), Some(u64::MAX));
    assert_eq!(parse_decimal(&chars("18446744073709551616"), u64::MAX), None);
    assert_eq!(parse_decimal(&chars("99999999999999999999999"), u64::MAX), None);
}

#[test]
fn prompt_abbreviates_the_directories_in_the_middle() {
    assert_eq!(short_path("/home/user/proj"), "/h/u/proj > ");
    assert_eq!(short_path("/a/b"), "/a/b > ");
    assert_eq!(short_path("/home/user/projects/whale"), "/h/u/p/whale > ");
    assert_eq!(short_path("/home"), "/h/home > ");
    assert_eq!(short_path("/"), "/// > ");
    assert_eq!(short_path(""), "/ > ");
}

#[test]
fn binary_search_finds_an_equal_item() {
    let items = [1, 3, 5, 7, 9, 11];
    assert_eq!(binary_search(1, &items), Some(0));
    assert_eq!(binary_search(7, &items), Some(3));
    assert_eq!(binary_search(11, &items), Some(5));
    assert_eq!(binary_search(0, &items), None);
    assert_eq!(binary_search(4, &items), None);
    assert_eq!(binary_search(12, &items), None);
    let none: [u32; 0] = [];
    assert_eq!(binary_search(1, &none), None);
    let names = ["ant".to_string(), "bee".to_string(), "cat".to_string()];
    assert_eq!(binary_search("bee".to_string(), &names), Some(1));
    assert_eq!(binary_search("bat".to_string(), &names), None);
}

#[test]
fn to_chars_gives_the_characters() {
    assert_eq!(to_chars("héllo"), vec!['h', 'é', 'l', 'l', 'o']);
    assert!(to_chars("").is_empty());
}
