use dormin::number::{index_to_string, parse_usize};
use dormin::util::{join_str, join_string, make_vec_from_str};

#[test]
fn join_string_puts_slashes_between() {
    let v = vec![String::from("object"), String::from("comp_lua"), String::from("0")];
    assert_eq!(join_string(&v), "object/comp_lua/0");
}

#[test]
fn join_string_of_nothing_is_empty() {
    let v: Vec<String> = Vec::new();
    assert_eq!(join_string(&v), "");
}

#[test]
fn join_str_puts_slashes_between() {
    let v = vec!["a", "", "b"];
    assert_eq!(join_str(&v), "a//b");
}

#[test]
fn make_vec_from_str_cuts_at_slashes() {
    assert_eq!(make_vec_from_str("a/b/c"), vec!["a", "b", "c"]);
    assert_eq!(make_vec_from_str(""), vec![""]);
    assert_eq!(make_vec_from_str("a/"), vec!["a", ""]);
}

#[test]
fn split_then_join_gives_back_the_path() {
    let p = "object/position/x";
    assert_eq!(join_string(&make_vec_from_str(p)), p);
}

#[test]
fn parse_usize_reads_decimal() {
    assert_eq!(parse_usize("42"), Some(42));
    assert_eq!(parse_usize("+7"), Some(7));
    assert_eq!(parse_usize("0"), Some(0));
    assert_eq!(parse_usize(""), None);
    assert_eq!(parse_usize("+"), None);
    assert_eq!(parse_usize("-1"), None);
    assert_eq!(parse_usize("1a"), None);
    assert_eq!(parse_usize("18446744073709551616"), None);
}

#[test]
fn index_to_string_writes_decimal() {
    assert_eq!(index_to_string(0), "0");
    assert_eq!(index_to_string(120), "120");
    assert_eq!(parse_usize(&index_to_string(98765)), Some(98765));
}
