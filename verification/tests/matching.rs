use build_cleaner::search::SearchEngine;

fn chars(s: &str) -> Vec<char> {
    s.chars().collect()
}

#[test]
fn test_match_pattern() {
    assert!(SearchEngine::match_pattern("node_modules/", "node_modules"));
    assert!(!SearchEngine::match_pattern("node_modules/", "dist"));

    assert!(SearchEngine::match_pattern("*.log", "test.log"));
    assert!(SearchEngine::match_pattern("*.log", "app.log"));
    assert!(!SearchEngine::match_pattern("*.log", "test.txt"));

    assert!(SearchEngine::match_pattern("test?.txt", "test1.txt"));
    assert!(SearchEngine::match_pattern("test?.txt", "testa.txt"));
    assert!(!SearchEngine::match_pattern("test?.txt", "test.txt"));

    assert!(SearchEngine::match_pattern("test.txt", "test.txt"));
    assert!(!SearchEngine::match_pattern("test.txt", "test.log"));
}

#[test]
fn test_check_size() {
    assert!(SearchEngine::check_size(1000, None, None));

    assert!(SearchEngine::check_size(1000, Some(500), None));
    assert!(!SearchEngine::check_size(1000, Some(1500), None));

    assert!(SearchEngine::check_size(1000, None, Some(2000)));
    assert!(!SearchEngine::check_size(1000, None, Some(500)));

    assert!(SearchEngine::check_size(1000, Some(500), Some(2000)));
    assert!(!SearchEngine::check_size(1000, Some(1500), Some(2000)));
    assert!(!SearchEngine::check_size(1000, Some(500), Some(800)));
}

#[test]
fn test_check_age() {
    assert!(SearchEngine::check_age(Some(0), None, None));
    assert!(SearchEngine::check_age(None, Some(3), Some(5)));
}

#[test]
fn match_pattern_named_cases() {
    assert!(SearchEngine::match_pattern("*.log", "app.log"));
    assert!(!SearchEngine::match_pattern("*.log", "app.txt"));
    assert!(SearchEngine::match_pattern("test?.txt", "test1.txt"));
    assert!(!SearchEngine::match_pattern("test?.txt", "test.txt"));
    assert!(SearchEngine::match_pattern("node_modules/", "node_modules"));
    assert!(!SearchEngine::match_pattern("node_modules/", "node_modules_old"));
}

#[test]
fn folder_rule_strips_every_trailing_separator() {
    assert!(SearchEngine::match_pattern("dist//", "dist"));
    assert!(SearchEngine::match_pattern("/", ""));
    assert!(!SearchEngine::match_pattern("dist/", "dist/"));
    assert!(SearchEngine::folder_match(&chars("target"), &chars("target")));
    assert!(SearchEngine::folder_match(&chars("target///"), &chars("target")));
    assert!(!SearchEngine::folder_match(&chars("tar*"), &chars("target")));
    assert_eq!(SearchEngine::stem_length(&chars("a/b//")), 3);
    assert_eq!(SearchEngine::stem_length(&chars("///")), 0);
}

#[test]
fn glob_star_takes_any_run() {
    assert!(SearchEngine::glob_match("*", ""));
    assert!(SearchEngine::glob_match("*", "anything"));
    assert!(SearchEngine::glob_match("a*b*c", "abc"));
    assert!(SearchEngine::glob_match("a*b*c", "aXXbYYc"));
    assert!(SearchEngine::glob_match("a*b*c", "abbbc"));
    assert!(!SearchEngine::glob_match("a*b*c", "aXXbYY"));
    assert!(SearchEngine::glob_match("**", "x"));
    assert!(SearchEngine::glob_match("*.tar.*", "a.tar.gz"));
    assert!(!SearchEngine::glob_match("*.tar.*", "a.tar"));
}

#[test]
fn glob_question_mark_takes_one_character() {
    assert!(SearchEngine::glob_match("?", "x"));
    assert!(!SearchEngine::glob_match("?", ""));
    assert!(!SearchEngine::glob_match("?", "xy"));
    assert!(SearchEngine::glob_match("?", "\u{e9}"));
    assert!(SearchEngine::glob_match("caf?", "caf\u{e9}"));
    assert!(SearchEngine::glob_match("??", "ab"));
}

#[test]
fn glob_needs_both_exhausted() {
    assert!(SearchEngine::glob_match("", ""));
    assert!(!SearchEngine::glob_match("", "a"));
    assert!(!SearchEngine::glob_match("a", ""));
    assert!(!SearchEngine::glob_match("abc", "abcd"));
    assert!(!SearchEngine::glob_match("abcd", "abc"));
}

#[test]
fn glob_recursive_from_positions() {
    let p = chars("x*.rs");
    let t = chars("__main.rs");
    assert!(SearchEngine::glob_match_recursive(&p, &t, 1, 2));
    assert!(!SearchEngine::glob_match_recursive(&p, &t, 0, 0));
    assert!(SearchEngine::glob_match_recursive(&p, &t, 5, 9));
    assert!(!SearchEngine::glob_match_recursive(&p, &t, 5, 8));
}

#[test]
fn age_bounds_are_in_whole_days() {
    let day = 86400u64;
    assert!(SearchEngine::check_age(Some(3 * day), Some(3), None));
    assert!(!SearchEngine::check_age(Some(3 * day - 1), Some(3), None));
    assert!(SearchEngine::check_age(Some(4 * day - 1), None, Some(3)));
    assert!(!SearchEngine::check_age(Some(4 * day), None, Some(3)));
    assert!(SearchEngine::check_age(Some(5 * day), Some(5), Some(5)));
    assert!(!SearchEngine::check_age(Some(0), Some(1), None));
    assert!(SearchEngine::check_age(Some(u64::MAX), Some(u32::MAX), None));
}

#[test]
fn size_bounds_are_inclusive() {
    assert!(SearchEngine::check_size(500, Some(500), Some(500)));
    assert!(!SearchEngine::check_size(499, Some(500), Some(500)));
    assert!(!SearchEngine::check_size(501, Some(500), Some(500)));
    assert!(SearchEngine::check_size(0, None, Some(0)));
}

#[test]
fn glob_recursive_past_the_ends() {
    let p = chars("a*");
    let t = chars("abc");
    assert!(SearchEngine::glob_match_recursive(&p, &t, 2, 3));
    assert!(SearchEngine::glob_match_recursive(&p, &t, 2, 4));
    assert!(SearchEngine::glob_match_recursive(&p, &t, 7, 3));
    assert!(SearchEngine::glob_match_recursive(&p, &t, usize::MAX, usize::MAX));
    assert!(!SearchEngine::glob_match_recursive(&p, &t, 2, 2));
    assert!(!SearchEngine::glob_match_recursive(&p, &t, 9, 0));
    assert!(!SearchEngine::glob_match_recursive(&p, &t, 1, 4));
    assert!(!SearchEngine::glob_match_recursive(&p, &t, 0, 4));
    assert!(!SearchEngine::glob_match_recursive(&p, &t, 1, usize::MAX));
    assert!(SearchEngine::glob_match_recursive(&p, &t, 1, 3));
    let none = chars("");
    assert!(SearchEngine::glob_match_recursive(&none, &none, 0, 0));
    assert!(SearchEngine::glob_match_recursive(&none, &none, 5, 9));
    assert!(!SearchEngine::glob_match_recursive(&none, &t, 0, 0));
}
