use p_test::slugify;

#[test]
fn slug_of_a_call() {
    assert_eq!(slugify("sum(1,1)"), "sum_1_1_");
}

#[test]
fn slug_of_a_word() {
    assert_eq!(slugify("world"), "world");
}

#[test]
fn slug_of_a_leading_digit() {
    assert_eq!(slugify("1abc"), "_1abc");
}

#[test]
fn slug_of_nothing() {
    assert_eq!(slugify(""), "");
}

#[test]
fn slug_lowers_ascii_letters() {
    assert_eq!(slugify("Hello World"), "hello_world");
    assert_eq!(slugify("AZaz09"), "azaz09");
}

#[test]
fn slug_replaces_what_is_not_ascii() {
    assert_eq!(slugify("caf\u{e9}"), "caf_");
    assert_eq!(slugify("\u{212a}elvin"), "_elvin");
    assert_eq!(slugify("\u{661}"), "_");
}

#[test]
fn slug_keeps_an_underscore_in_front() {
    assert_eq!(slugify("_1"), "_1");
    assert_eq!(slugify("-1"), "_1");
}
