use dropnote::command::{parse, Command};
use dropnote::view::id_label;

#[test]
fn dev_on_off_always_work() {
    assert_eq!(parse("/dev on", false), Command::DevOn);
    assert_eq!(parse("/dev on", true), Command::DevOn);
    assert_eq!(parse("/dev off", false), Command::DevOff);
    assert_eq!(parse("/dev off", true), Command::DevOff);
}

#[test]
fn dev_with_surrounding_whitespace() {
    assert_eq!(parse("  /dev on  ", false), Command::DevOn);
}

#[test]
fn unknown_slash_text_in_normal_mode_is_an_entry() {
    assert_eq!(
        parse("/del 5", false),
        Command::Insert("/del 5".to_string())
    );
    assert_eq!(
        parse("/dev xyz", false),
        Command::Insert("/dev xyz".to_string())
    );
    assert_eq!(parse("/foo", true), Command::Insert("/foo".to_string()));
}

#[test]
fn del_requires_dev_mode() {
    assert_eq!(parse("/del 5", true), Command::Delete(5));
    assert_eq!(
        parse("/del 5", false),
        Command::Insert("/del 5".to_string())
    );
}

#[test]
fn del_accepts_hash_prefix() {
    assert_eq!(parse("/del #42", true), Command::Delete(42));
    assert_eq!(parse("/del  #42 ", true), Command::Delete(42));
}

#[test]
fn del_usage_when_no_argument() {
    assert_eq!(parse("/del", true), Command::DelUsage);
    assert_eq!(parse("/del   ", true), Command::DelUsage);
    assert_eq!(parse("/del #", true), Command::DelUsage);
}

#[test]
fn del_bad_id_for_non_numeric_or_non_positive() {
    assert_eq!(parse("/del abc", true), Command::DelBadId);
    assert_eq!(parse("/del 0", true), Command::DelBadId);
    assert_eq!(parse("/del -3", true), Command::DelBadId);
    assert_eq!(parse("/del 1.5", true), Command::DelBadId);
}

#[test]
fn plain_text_is_an_entry() {
    assert_eq!(parse("牛乳買う", false), Command::Insert("牛乳買う".into()));
    assert_eq!(parse("牛乳買う", true), Command::Insert("牛乳買う".into()));
}

#[test]
fn search_with_query_in_any_mode() {
    assert_eq!(parse("/search 牛乳", false), Command::Search("牛乳".into()));
    assert_eq!(parse("/search 牛乳", true), Command::Search("牛乳".into()));
}

#[test]
fn search_trims_query() {
    assert_eq!(
        parse("/search   牛乳  ", false),
        Command::Search("牛乳".into())
    );
}

#[test]
fn search_without_argument_clears_filter() {
    assert_eq!(parse("/search", false), Command::SearchClear);
    assert_eq!(parse("/search ", false), Command::SearchClear);
    assert_eq!(parse("/search    ", false), Command::SearchClear);
}

#[test]
fn del_id_follows_integer_parsing() {
    assert_eq!(parse("/del +7", true), Command::Delete(7));
    assert_eq!(parse("/del 007", true), Command::Delete(7));
    assert_eq!(
        parse("/del 9223372036854775807", true),
        Command::Delete(i64::MAX)
    );
    assert_eq!(parse("/del 9223372036854775808", true), Command::DelBadId);
    assert_eq!(parse("/del -9223372036854775808", true), Command::DelBadId);
    assert_eq!(parse("/del +", true), Command::DelBadId);
    assert_eq!(parse("/del ##12", true), Command::Delete(12));
    assert_eq!(parse("/del # 12 ", true), Command::Delete(12));
    assert_eq!(parse("/del 1 2", true), Command::DelBadId);
}

#[test]
fn unicode_whitespace_is_trimmed() {
    assert_eq!(parse("\u{3000}/dev off\n", true), Command::DevOff);
    assert_eq!(parse("\t メモ \u{a0}", false), Command::Insert("メモ".into()));
    assert_eq!(parse("/search\u{3000}牛乳", false), Command::Insert("/search\u{3000}牛乳".into()));
}

#[test]
fn empty_and_blank_input_is_an_empty_entry() {
    assert_eq!(parse("", false), Command::Insert(String::new()));
    assert_eq!(parse("   ", true), Command::Insert(String::new()));
}

#[test]
fn commands_are_case_sensitive() {
    assert_eq!(parse("/DEV ON", false), Command::Insert("/DEV ON".into()));
    assert_eq!(parse("/delete 5", true), Command::Insert("/delete 5".into()));
}

#[test]
fn del_of_a_shown_label_deletes_that_entry() {
    for id in [1i64, 9, 42, 1_000_000, i64::MAX] {
        assert_eq!(parse(&format!("/del {}", id_label(id)), true), Command::Delete(id));
        assert_eq!(parse(&format!("/del {id}"), true), Command::Delete(id));
    }
}
