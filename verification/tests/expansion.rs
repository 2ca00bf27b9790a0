use p_test::{
    base_function, expand, p_test, parse_specification, tokenize, CaseDeclaration, ExpansionError,
    Expression, GrammarError, GrammarErrorKind, NameToken, RawArgumentForm, Token,
};

const SUM_TEST: &str =
    "fn sum_test(a: i32, b: i32, expected: i32) { assert_eq!(a + b, expected); }";

fn entry(name: &str, call: &str) -> String {
    format!("    #[test]\n    fn {name}() {{\n        {call};\n    }}\n")
}

fn group(item: &str, name: &str, entries: &[String]) -> String {
    format!("{item}\n#[cfg(test)]\nmod {name} {{\n    use super::*;\n{}}}\n", entries.concat())
}

fn function(name: &str) -> String {
    format!("fn {name}(a: i32, b: i32, expected: i32) {{ assert_eq!(sum(a, b), expected); }}")
}

fn names_and_calls(attr: &str, item: &str) -> Vec<(String, Vec<String>)> {
    let specification = parse_specification(attr).unwrap();
    let base = base_function(item).unwrap();
    let result = expand(&specification, &base);
    assert_eq!(result.body, base);
    result
        .cases
        .into_iter()
        .map(|case| {
            (case.identifier, case.arguments.into_iter().map(|argument| argument.text).collect())
        })
        .collect()
}

fn pairs(expected: &[(&str, &[&str])]) -> Vec<(String, Vec<String>)> {
    expected
        .iter()
        .map(|(name, arguments)| {
            (name.to_string(), arguments.iter().map(|text| text.to_string()).collect())
        })
        .collect()
}

fn malformed(position: usize) -> GrammarError {
    GrammarError { kind: GrammarErrorKind::MalformedCaseList, position }
}

#[test]
fn two_cases_without_names() {
    let text = p_test("(1, 1, 2), (1, 2, 3)", SUM_TEST).unwrap();
    let expected = group(
        SUM_TEST,
        "sum_test",
        &[entry("case_1", "sum_test(1, 1, 2)"), entry("case_2", "sum_test(1, 2, 3)")],
    );
    assert_eq!(text, expected);
}

#[test]
fn no_case_at_all() {
    let text = p_test("", SUM_TEST).unwrap();
    assert_eq!(text, group(SUM_TEST, "sum_test", &[]));
}

#[test]
fn expansion_twice_gives_the_same() {
    let attr = "use_args_for_case_name = true, \"first\", (1, 1, 2), (1, 2, 3), ((2, 2), 4)";
    let first = p_test(attr, SUM_TEST).unwrap();
    let second = p_test(attr, SUM_TEST).unwrap();
    assert_eq!(first, second);
    let specification = parse_specification(attr).unwrap();
    let base = base_function(SUM_TEST).unwrap();
    assert_eq!(expand(&specification, &base), expand(&specification, &base));
}

#[test]
fn not_a_function() {
    assert_eq!(p_test("(1, 1, 2)", "struct Sum;"), Err(ExpansionError::NotAFunction));
    assert_eq!(p_test("(1, 1, 2)", "fn sum("), Err(ExpansionError::NotAFunction));
    assert_eq!(ExpansionError::NotAFunction.message(), "Expected a function");
}

#[test]
fn error_of_the_declaration_comes_first() {
    assert_eq!(p_test("(1, 1, 2", "struct Sum;"), Err(ExpansionError::Grammar(malformed(0))));
    assert_eq!(
        ExpansionError::Grammar(malformed(0)).message(),
        GrammarErrorKind::MalformedCaseList.message()
    );
}

#[test]
fn test_sum_case_name_ident() {
    let attr = "sum_1_1, (1, 1, 2), sum_1_2, (1, 2, 3), sum_2_2, (2, 2, 4), sum_2_3, (2, 3, 5),";
    let expected = pairs(&[
        ("sum_1_1", &["1", "1", "2"]),
        ("sum_1_2", &["1", "2", "3"]),
        ("sum_2_2", &["2", "2", "4"]),
        ("sum_2_3", &["2", "3", "5"]),
    ]);
    assert_eq!(names_and_calls(attr, &function("test_sum_case_name_ident")), expected);
}

#[test]
fn test_sum_case_name_litstr() {
    let attr = r#""sum(1,1)", (1, 1, 2), "sum(1,2)", (1, 2, 3), "sum(2,2)", (2, 2, 4), "sum(2,3)", (2, 3, 5),"#;
    let expected = pairs(&[
        ("sum_1_1_", &["1", "1", "2"]),
        ("sum_1_2_", &["1", "2", "3"]),
        ("sum_2_2_", &["2", "2", "4"]),
        ("sum_2_3_", &["2", "3", "5"]),
    ]);
    assert_eq!(names_and_calls(attr, &function("test_sum_case_name_litstr")), expected);
}

#[test]
fn test_sum_case_name_nested_tuple() {
    let attr = "sum_1_1, ((1, 1), 2), sum_1_2, ((1, 2), 3), sum_2_2, ((2, 2), 4), sum_2_3, ((2, 3), 5),";
    let item = "fn test_sum_case_name_nested_tuple((a, b): (i32, i32), expected: i32) { assert_eq!(sum(a, b), expected); }";
    let expected = pairs(&[
        ("sum_1_1", &["(1 , 1)", "2"]),
        ("sum_1_2", &["(1 , 2)", "3"]),
        ("sum_2_2", &["(2 , 2)", "4"]),
        ("sum_2_3", &["(2 , 3)", "5"]),
    ]);
    assert_eq!(names_and_calls(attr, item), expected);
    let text = p_test(attr, item).unwrap();
    assert!(text.contains("    fn sum_1_1() {\n        test_sum_case_name_nested_tuple((1 , 1), 2);\n    }\n"));
}

#[test]
fn test_sum_no_case_name() {
    let attr = "(1, 1, 2), (1, 2, 3), (2, 2, 4), (2, 3, 5),";
    let expected = pairs(&[
        ("case_1", &["1", "1", "2"]),
        ("case_2", &["1", "2", "3"]),
        ("case_3", &["2", "2", "4"]),
        ("case_4", &["2", "3", "5"]),
    ]);
    assert_eq!(names_and_calls(attr, &function("test_sum_no_case_name")), expected);
}

#[test]
fn test_sum_no_case_name_nested_tuple() {
    let attr = "((1, 1), 2), ((1, 2), 3), ((2, 2), 4), ((2, 3), 5),";
    let item = "fn test_sum_no_case_name_nested_tuple((a, b): (i32, i32), expected: i32) { assert_eq!(sum(a, b), expected); }";
    let expected = pairs(&[
        ("case_1", &["(1 , 1)", "2"]),
        ("case_2", &["(1 , 2)", "3"]),
        ("case_3", &["(2 , 2)", "4"]),
        ("case_4", &["(2 , 3)", "5"]),
    ]);
    assert_eq!(names_and_calls(attr, item), expected);
    let text = p_test(attr, item).unwrap();
    assert!(text.contains("    fn case_1() {\n        test_sum_no_case_name_nested_tuple((1 , 1), 2);\n    }\n"));
}

#[test]
fn test_sum_more_than_10_cases_without_name() {
    let attr = "(1, 1, 2), (1, 2, 3), (2, 2, 4), (2, 3, 5), (5, 6, 11), (7, 4, 11), (8, 3, 11), (9, 2, 11), (10, 1, 11), (11, 0, 11), (12, -1, 11), (13, -2, 11),";
    let found = names_and_calls(attr, &function("test_sum_more_than_10_cases_without_name"));
    let names: Vec<&str> = found.iter().map(|(name, _)| name.as_str()).collect();
    assert_eq!(
        names,
        [
            "case_01", "case_02", "case_03", "case_04", "case_05", "case_06", "case_07",
            "case_08", "case_09", "case_10", "case_11", "case_12"
        ]
    );
    assert_eq!(found[0].1, ["1", "1", "2"]);
    assert_eq!(found[10].1, ["12", "- 1", "11"]);
    assert_eq!(found[11].1, ["13", "- 2", "11"]);
}

#[test]
fn test_sum_use_args_for_case_name() {
    let attr = "use_args_for_case_name = true, (1, 1, 2), (1, 2, 3), (2, 2, 4), (2, 3, 5),";
    let expected = pairs(&[
        ("_1_1_2", &["1", "1", "2"]),
        ("_1_2_3", &["1", "2", "3"]),
        ("_2_2_4", &["2", "2", "4"]),
        ("_2_3_5", &["2", "3", "5"]),
    ]);
    assert_eq!(names_and_calls(attr, &function("test_sum_use_args_for_case_name")), expected);
}

#[test]
fn test_sum_use_args_for_case_name_but_case_name_specified() {
    let attr = "use_args_for_case_name = true, t1, (1, 1, 2), t2, (1, 2, 3), t3, (2, 2, 4), t4, (2, 3, 5),";
    let expected = pairs(&[
        ("t1", &["1", "1", "2"]),
        ("t2", &["1", "2", "3"]),
        ("t3", &["2", "2", "4"]),
        ("t4", &["2", "3", "5"]),
    ]);
    let item = function("test_sum_use_args_for_case_name_but_case_name_specified");
    assert_eq!(names_and_calls(attr, &item), expected);
}

#[test]
fn test_sum_use_args_for_case_name_false() {
    let attr = "use_args_for_case_name = false, (1, 1, 2), (1, 2, 3), (2, 2, 4), (2, 3, 5),";
    let expected = pairs(&[
        ("case_1", &["1", "1", "2"]),
        ("case_2", &["1", "2", "3"]),
        ("case_3", &["2", "2", "4"]),
        ("case_4", &["2", "3", "5"]),
    ]);
    assert_eq!(names_and_calls(attr, &function("test_sum_use_args_for_case_name_false")), expected);
}

#[test]
fn test_string_to_first_char() {
    let attr = r#"("hello", 'h'), ("world", 'w'),"#;
    let item = "fn test_string_to_first_char(s: &str, expected: char) { assert_eq!(s.chars().next().unwrap(), expected); }";
    let expected =
        pairs(&[("case_1", &["\"hello\"", "'h'"]), ("case_2", &["\"world\"", "'w'"])]);
    assert_eq!(names_and_calls(attr, item), expected);
}

#[test]
fn test_string_to_first_char_use_args_for_case_name() {
    let attr = r#"use_args_for_case_name = true, ("hello", 'h'), ("world", 'w'),"#;
    let item = "fn test_string_to_first_char_use_args_for_case_name(s: &str, expected: char) { assert_eq!(s.chars().next().unwrap(), expected); }";
    let expected = pairs(&[
        ("_hello___h_", &["\"hello\"", "'h'"]),
        ("_world___w_", &["\"world\"", "'w'"]),
    ]);
    assert_eq!(names_and_calls(attr, item), expected);
}

#[test]
fn dummy_test_with_no_args() {
    let attr = "use_args_for_case_name = true, (), (), (),";
    let item = "fn dummy_test_with_no_args() {}";
    let none: &[&str] = &[];
    let expected = pairs(&[("case_1", none), ("case_2", none), ("case_3", none)]);
    assert_eq!(names_and_calls(attr, item), expected);
    let text = p_test(attr, item).unwrap();
    let entries = [
        entry("case_1", "dummy_test_with_no_args()"),
        entry("case_2", "dummy_test_with_no_args()"),
        entry("case_3", "dummy_test_with_no_args()"),
    ];
    assert_eq!(text, group(item, "dummy_test_with_no_args", &entries));
}

#[test]
fn test_sum_async_tokio() {
    let attr = "sum_1_1, (1, 1, 2), sum_1_2, (1, 2, 3), sum_2_2, (2, 2, 4), sum_2_3, (2, 3, 5),";
    let item = "async fn test_sum_async_tokio(a: i32, b: i32, expected: i32) { assert_eq!(sum(a, b).await, expected); }";
    let base = base_function(item).unwrap();
    assert!(base.is_async);
    assert_eq!(base.name, "test_sum_async_tokio");
    assert_eq!(base.source, item);
    let text = p_test(attr, item).unwrap();
    let entries: Vec<String> = [("sum_1_1", "1, 1, 2"), ("sum_1_2", "1, 2, 3"), ("sum_2_2", "2, 2, 4"), ("sum_2_3", "2, 3, 5")]
        .iter()
        .map(|(name, arguments)| {
            format!("    #[test]\n    async fn {name}() {{\n        test_sum_async_tokio({arguments}).await;\n    }}\n")
        })
        .collect();
    assert_eq!(text, group(item, "test_sum_async_tokio", &entries));
}

#[test]
fn group_name_in_the_text() {
    let text = p_test("\"All sums\", one, (1, 1, 2)", SUM_TEST).unwrap();
    assert_eq!(text, group(SUM_TEST, "all_sums", &[entry("one", "sum_test(1, 1, 2)")]));
    let text = p_test("Sums, (1, 1, 2)", SUM_TEST).unwrap();
    assert_eq!(text, group(SUM_TEST, "sum_test", &[entry("Sums", "sum_test(1, 1, 2)")]));
    let text = p_test("Sums, \"\", (1, 1, 2)", SUM_TEST).unwrap();
    assert_eq!(text, group(SUM_TEST, "Sums", &[entry("case_1", "sum_test(1, 1, 2)")]));
}

#[test]
fn string_names_are_read_by_their_value() {
    let specification = parse_specification(r#""a\tb \"c\"", (1), r"d\e", (2)"#).unwrap();
    assert_eq!(specification.cases[0].name, NameToken::StringLiteral("a\tb \"c\"".to_string()));
    assert_eq!(specification.cases[1].name, NameToken::StringLiteral("d\\e".to_string()));
    let base = base_function(SUM_TEST).unwrap();
    let result = expand(&specification, &base);
    assert_eq!(result.cases[0].identifier, "a_b__c_");
    assert_eq!(result.cases[1].identifier, "d_e");
}

#[test]
fn tokens_of_a_declaration() {
    let tokens = tokenize(r#"use_args_for_case_name = true, "one", (1, (2)), two, ((3)), [4], fn, 5, ; == _"#);
    let expected = vec![
        Token::Identifier("use_args_for_case_name".to_string()),
        Token::Equals,
        Token::Boolean(true),
        Token::Comma,
        Token::Text("one".to_string()),
        Token::Comma,
        Token::Arguments(vec![
            Expression { text: "1".to_string(), parenthesized: false },
            Expression { text: "(2)".to_string(), parenthesized: true },
        ]),
        Token::Comma,
        Token::Identifier("two".to_string()),
        Token::Comma,
        Token::Arguments(vec![Expression { text: "(3)".to_string(), parenthesized: true }]),
        Token::Comma,
        Token::Other,
        Token::Comma,
        Token::Other,
        Token::Comma,
        Token::Other,
        Token::Comma,
        Token::Other,
        Token::Equals,
        Token::Equals,
        Token::Other,
    ];
    assert_eq!(tokens, Some(expected));
}

#[test]
fn tokens_of_nothing() {
    assert_eq!(tokenize(""), Some(vec![]));
    assert_eq!(tokenize("  \n "), Some(vec![]));
}

#[test]
fn text_that_is_no_tokens() {
    assert_eq!(tokenize("(1, 2"), None);
    assert_eq!(tokenize("1, 2)"), None);
    assert_eq!(tokenize("\"never closed"), None);
    assert_eq!(parse_specification("(1, 2"), Err(malformed(0)));
}

#[test]
fn arguments_that_are_no_expressions() {
    assert_eq!(tokenize("(1 2)"), Some(vec![Token::Other]));
    assert_eq!(tokenize("(,)"), Some(vec![Token::Other]));
    assert_eq!(parse_specification("(1, 2), (3 4)"), Err(malformed(2)));
    assert_eq!(parse_specification("one, (1,, 2)"), Err(malformed(2)));
}

#[test]
fn commas_inside_an_expression_do_not_split_it() {
    let specification = parse_specification("(f(1, 2), [3, 4], |a, b| a + b, g::<u8, u8>(5))").unwrap();
    let expected = CaseDeclaration {
        name: NameToken::Absent,
        body: RawArgumentForm::Flat(vec![
            Expression { text: "f (1 , 2)".to_string(), parenthesized: false },
            Expression { text: "[3 , 4]".to_string(), parenthesized: false },
            Expression { text: "| a , b | a + b".to_string(), parenthesized: false },
            Expression { text: "g :: < u8 , u8 > (5)".to_string(), parenthesized: false },
        ]),
    };
    assert_eq!(specification.cases, vec![expected]);
}

#[test]
fn parenthesized_first_argument_makes_a_group() {
    let specification = parse_specification("((1, 1), 2), ((1, 1)), ((1) + (1), 2), ((1), 2, 3)").unwrap();
    let unit = |text: &str| Expression { text: text.to_string(), parenthesized: true };
    let plain = |text: &str| Expression { text: text.to_string(), parenthesized: false };
    let bodies: Vec<RawArgumentForm> =
        specification.cases.into_iter().map(|case| case.body).collect();
    assert_eq!(
        bodies,
        vec![
            RawArgumentForm::Grouped(unit("(1 , 1)"), Some(plain("2"))),
            RawArgumentForm::Grouped(unit("(1 , 1)"), None),
            RawArgumentForm::Flat(vec![plain("(1) + (1)"), plain("2")]),
            RawArgumentForm::Flat(vec![unit("(1)"), plain("2"), plain("3")]),
        ]
    );
}

#[test]
fn keywords_are_no_names() {
    assert_eq!(parse_specification("fn, (1)"), Err(malformed(0)));
    assert_eq!(parse_specification("true, (1)"), Err(malformed(0)));
    assert_eq!(parse_specification("_, (1)"), Err(malformed(0)));
    let specification = parse_specification("r#fn, (1)").unwrap();
    assert_eq!(specification.cases[0].name, NameToken::Identifier("r#fn".to_string()));
}

#[test]
fn wrong_option_in_the_text() {
    let error = GrammarError { kind: GrammarErrorKind::UnexpectedOptionName, position: 0 };
    assert_eq!(parse_specification("use_args = true, (1)"), Err(error));
    assert_eq!(p_test("use_args = true, (1)", SUM_TEST), Err(ExpansionError::Grammar(error)));
    assert_eq!(parse_specification("use_args_for_case_name = true (1)"), Err(malformed(3)));
    assert_eq!(parse_specification("use_args_for_case_name = 1, (1)"), Err(malformed(1)));
}

#[test]
fn base_function_of_an_item() {
    let base = base_function("pub(crate) fn check<T: Copy>(value: T) -> T { value }").unwrap();
    assert_eq!(base.name, "check");
    assert!(!base.is_async);
    assert_eq!(base.source, "pub(crate) fn check<T: Copy>(value: T) -> T { value }");
    assert_eq!(base_function("const CHECK: u8 = 0;"), None);
    assert_eq!(base_function(""), None);
    assert_eq!(base_function("fn one() {} fn two() {}"), None);
}
