use magelogs::lines::split_into_lines;
use magelogs::text::basename;
use magelogs::text::contains_sub;
use magelogs::text::str_eq;

#[test]
fn contains_sub_finds_substrings() {
    assert!(contains_sub("main.ERROR boom", "main.ERROR"));
    assert!(contains_sub("main.ERROR", "main.ERROR"));
    assert!(!contains_sub("main.ERRO", "main.ERROR"));
    assert!(!contains_sub("", "main.ERROR"));
    assert!(contains_sub("anything", ""));
    assert!(contains_sub("", ""));
    assert!(contains_sub("xxmain.WARNINGxx", "main.WARNING"));
    assert!(!contains_sub("main_ERROR", "main.ERROR"));
}

#[test]
fn str_eq_compares_characters() {
    assert!(str_eq("", ""));
    assert!(str_eq("abc", "abc"));
    assert!(!str_eq("abc", "abd"));
    assert!(!str_eq("abc", "ab"));
}

#[test]
fn basename_takes_what_follows_the_last_slash() {
    assert_eq!(basename("/var/log/system.log"), "system.log");
    assert_eq!(basename("system.log"), "system.log");
    assert_eq!(basename("/var/log/"), "");
    assert_eq!(basename(""), "");
    assert_eq!(basename("a/b/c"), "c");
}

#[test]
fn split_lines_basic() {
    assert_eq!(split_into_lines("a\nb\nc"), vec!["a", "b", "c"]);
    assert_eq!(split_into_lines("a\nb\nc\n"), vec!["a", "b", "c"]);
}

#[test]
fn split_lines_empty_input_has_no_lines() {
    assert_eq!(split_into_lines(""), Vec::<String>::new());
}

#[test]
fn split_lines_lone_newline_is_one_empty_line() {
    assert_eq!(split_into_lines("\n"), vec![""]);
}

#[test]
fn split_lines_keeps_empty_middle_lines() {
    assert_eq!(split_into_lines("a\n\nb"), vec!["a", "", "b"]);
}

#[test]
fn split_lines_trailing_fragment_counts_as_a_line() {
    assert_eq!(split_into_lines("done\npart"), vec!["done", "part"]);
}
