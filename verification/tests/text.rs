use sitegen::text::{
    chars_of, ends_with, matches_at, rooted_path_from, same_text, starts_with, substitute,
};

#[test]
fn chars_of_gives_every_character() {
    assert_eq!(chars_of("héllo"), vec!['h', 'é', 'l', 'l', 'o']);
    assert_eq!(chars_of(""), Vec::<char>::new());
}

#[test]
fn matches_at_compares_in_place() {
    let text = chars_of("abcabc");
    let pat = chars_of("bc");
    assert!(!matches_at(&text, 0, &pat));
    assert!(matches_at(&text, 1, &pat));
    assert!(matches_at(&text, 4, &pat));
    assert!(matches_at(&text, 6, &chars_of("")));
}

#[test]
fn prefix_and_suffix() {
    assert!(starts_with("README.md", "README"));
    assert!(!starts_with("READ", "README"));
    assert!(starts_with("abc", ""));
    assert!(ends_with("notes.md", ".md"));
    assert!(!ends_with("notes.md", ".txt"));
    assert!(!ends_with("md", ".md"));
    assert!(ends_with("x", ""));
}

#[test]
fn same_text_is_equality() {
    assert!(same_text("README.md", "README.md"));
    assert!(!same_text("README.md", "README.mD"));
    assert!(!same_text("README.md", "README.md "));
    assert!(same_text("", ""));
}

#[test]
fn substitute_fills_every_slot() {
    assert_eq!(substitute("a {{x}} b {{x}}", "{{x}}", "1"), "a 1 b 1");
    assert_eq!(substitute("{{x}}", "{{x}}", ""), "");
    assert_eq!(substitute("no slot", "{{x}}", "1"), "no slot");
    assert_eq!(substitute("", "{{x}}", "1"), "");
    assert_eq!(substitute("{{x}", "{{x}}", "1"), "{{x}");
}

#[test]
fn substitute_goes_left_to_right_without_overlap() {
    assert_eq!(substitute("aaa", "aa", "b"), "ba");
    assert_eq!(substitute("aaaa", "aa", "b"), "bb");
    assert_eq!(substitute("abab", "ab", "ab"), "abab");
}

#[test]
fn substitute_does_not_fill_what_it_put_in() {
    assert_eq!(substitute("{{x}}", "{{x}}", "{{x}}{{x}}"), "{{x}}{{x}}");
}

#[test]
fn substitute_leaves_text_alone_for_an_empty_slot() {
    assert_eq!(substitute("abc", "", "-"), "abc");
}

#[test]
fn substitute_agrees_with_str_replace() {
    let texts = ["", "a", "{{c}}", "x{{c}}y{{c}}", "{{{c}}}", "é{{c}}ü", "{{c}{{c}}"];
    let values = ["", "v", "{{c}}", "<p>é</p>"];
    for text in texts {
        for value in values {
            assert_eq!(substitute(text, "{{c}}", value), text.replace("{{c}}", value));
        }
    }
}

#[test]
fn rooted_path_puts_a_slash_before_each_segment() {
    let names = vec!["root".to_string(), "a".to_string(), "b".to_string()];
    assert_eq!(rooted_path_from(&names, 0), "/root/a/b");
    assert_eq!(rooted_path_from(&names, 1), "/a/b");
    assert_eq!(rooted_path_from(&names, 3), "");
}
