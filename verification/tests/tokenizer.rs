use flagrant::tokenizer::{split_command_line, whitespace};

#[test]
fn unquoted_string() {
    let result = split_command_line("Ala ma kotkę");
    assert_eq!(result.len(), 3);
    assert_eq!(result.first(), Some(&"Ala"));
    assert_eq!(result.get(1), Some(&"ma"));
    assert_eq!(result.get(2), Some(&"kotkę"));
}

#[test]
fn unquoted_string_with_whitechars() {
    let result = split_command_line("  Ala ma   kotkę  ");
    assert_eq!(result.len(), 3);
    assert_eq!(result.first(), Some(&"Ala"));
    assert_eq!(result.get(1), Some(&"ma"));
    assert_eq!(result.get(2), Some(&"kotkę"));
}

#[test]
fn quoted_string() {
    let result = split_command_line("Ala \"ma kota\" a kot ma Alę");
    assert_eq!(result.len(), 6);
}

#[test]
fn quoted_string_with_whitechars() {
    let result = split_command_line("Ala  \"  ma  kota \"   a kot ma Alę  ");
    assert_eq!(result.len(), 6);
    assert_eq!(result.first(), Some(&"Ala"));
    assert_eq!(result.get(1), Some(&"  ma  kota "));
    assert_eq!(result.get(2), Some(&"a"));
    assert_eq!(result.get(3), Some(&"kot"));
    assert_eq!(result.get(4), Some(&"ma"));
    assert_eq!(result.get(5), Some(&"Alę"));
}

#[test]
fn quoted_string_with_whitechars_and_utfs() {
    let result = split_command_line("Żółty ryś \"  ma  jaskrę\"   a kot ma Alę  ");
    assert_eq!(result.len(), 7);
    assert_eq!(result.first(), Some(&"Żółty"));
    assert_eq!(result.get(1), Some(&"ryś"));
    assert_eq!(result.get(2), Some(&"  ma  jaskrę"));
    assert_eq!(result.get(3), Some(&"a"));
    assert_eq!(result.get(4), Some(&"kot"));
    assert_eq!(result.get(5), Some(&"ma"));
    assert_eq!(result.get(6), Some(&"Alę"));
}

#[test]
fn open_ended_quotation() {
    let result = split_command_line("Żółty ryś \"  ma  jaskrę");
    assert_eq!(result.len(), 3);
    assert_eq!(result.first(), Some(&"Żółty"));
    assert_eq!(result.get(1), Some(&"ryś"));
    assert_eq!(result.get(2), Some(&"  ma  jaskrę"));
}

#[test]
fn empty_line_has_no_words() {
    assert!(split_command_line("").is_empty());
    assert!(split_command_line(" \t\r\n").is_empty());
}

#[test]
fn quotation_inside_a_word_drops_the_word_before_it() {
    let result = split_command_line("ab\"c d\"ef");
    assert_eq!(result, vec!["c d", "ef"]);
}

#[test]
fn open_quotation_inside_a_word_keeps_both() {
    let result = split_command_line("ab\"cd");
    assert_eq!(result, vec!["cd", "ab\"cd"]);
}

#[test]
fn blanks_are_space_tab_and_line_ends() {
    assert!(whitespace(' '));
    assert!(whitespace('\t'));
    assert!(whitespace('\r'));
    assert!(whitespace('\n'));
    assert!(!whitespace('a'));
    assert!(!whitespace('\u{a0}'));
}
