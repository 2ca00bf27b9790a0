use p_test::{
    case_name, case_name_with_args, case_name_with_counter, group_name, resolve_names, Expression,
    NameToken, NormalizedCase,
};

fn arg(text: &str) -> Expression {
    Expression { text: text.to_string(), parenthesized: false }
}

fn args(texts: &[&str]) -> Vec<Expression> {
    texts.iter().map(|text| arg(text)).collect()
}

fn unnamed(n: usize) -> Vec<NormalizedCase> {
    (0..n).map(|_| NormalizedCase { name: NameToken::Absent, arguments: args(&["1"]) }).collect()
}

fn identifiers(cases: &Vec<NormalizedCase>, use_args: bool) -> Vec<String> {
    resolve_names(cases, use_args).into_iter().map(|case| case.identifier).collect()
}

#[test]
fn counter_is_not_padded_below_ten_cases() {
    let names = identifiers(&unnamed(9), false);
    let expected: Vec<String> = (1..=9).map(|i| format!("case_{i}")).collect();
    assert_eq!(names, expected);
}

#[test]
fn counter_takes_two_digits_from_ten_cases() {
    let names = identifiers(&unnamed(10), false);
    assert_eq!(names[0], "case_01");
    assert_eq!(names[8], "case_09");
    assert_eq!(names[9], "case_10");
}

#[test]
fn twelve_unnamed_cases() {
    let names = identifiers(&unnamed(12), false);
    let expected: Vec<String> = (1..=12).map(|i| format!("case_{i:02}")).collect();
    assert_eq!(names, expected);
    assert_eq!(names[0], "case_01");
    assert_eq!(names[11], "case_12");
}

#[test]
fn counter_takes_two_digits_up_to_ninety_nine_cases() {
    let names = identifiers(&unnamed(99), false);
    let expected: Vec<String> = (1..=99).map(|i| format!("case_{i:02}")).collect();
    assert_eq!(names, expected);
}

#[test]
fn counter_takes_three_digits_from_a_hundred_cases() {
    let names = identifiers(&unnamed(100), false);
    let expected: Vec<String> = (1..=100).map(|i| format!("case_{i:03}")).collect();
    assert_eq!(names, expected);
    assert_eq!(names[0], "case_001");
    assert_eq!(names[9], "case_010");
    assert_eq!(names[99], "case_100");
}

#[test]
fn counter_takes_three_digits_up_to_999_cases() {
    let names = identifiers(&unnamed(999), false);
    assert_eq!(names[0], "case_001");
    assert_eq!(names[98], "case_099");
    assert_eq!(names[998], "case_999");
}

#[test]
fn counter_is_not_padded_from_a_thousand_cases() {
    let names = identifiers(&unnamed(1000), false);
    let expected: Vec<String> = (1..=1000).map(|i| format!("case_{i}")).collect();
    assert_eq!(names, expected);
    assert_eq!(names[0], "case_1");
    assert_eq!(names[999], "case_1000");
}

#[test]
fn counter_of_large_numbers() {
    assert_eq!(case_name_with_counter(&NameToken::Absent, 0, 5), "case_0");
    assert_eq!(case_name_with_counter(&NameToken::Absent, 7, 7), "case_7");
    assert_eq!(case_name_with_counter(&NameToken::Absent, 1234, 50), "case_1234");
    assert_eq!(case_name_with_counter(&NameToken::Absent, 1234, 500), "case_1234");
    assert_eq!(case_name_with_counter(&NameToken::Absent, 4_000_000_000, 4_000_000_000), "case_4000000000");
    let largest = usize::MAX;
    assert_eq!(case_name_with_counter(&NameToken::Absent, largest, largest), format!("case_{largest}"));
}

#[test]
fn counter_yields_to_a_name() {
    let name = NameToken::Identifier("Sum_1".to_string());
    assert_eq!(case_name_with_counter(&name, 3, 12), "Sum_1");
    let name = NameToken::StringLiteral("sum(1,1)".to_string());
    assert_eq!(case_name_with_counter(&name, 3, 12), "sum_1_1_");
    let name = NameToken::StringLiteral(String::new());
    assert_eq!(case_name_with_counter(&name, 3, 12), "case_03");
}

#[test]
fn name_made_of_arguments() {
    assert_eq!(case_name_with_args(&args(&["\"hello\"", "'h'"])), "_hello___h_");
    assert_eq!(case_name_with_args(&args(&["hello", "h"])), "hello_h");
    assert_eq!(case_name_with_args(&args(&["1", "1", "2"])), "_1_1_2");
    assert_eq!(case_name_with_args(&args(&["a", "1"])), "a_1");
    assert_eq!(case_name_with_args(&args(&["(1 , 1)", "2"])), "_1___1__2");
    assert_eq!(case_name_with_args(&args(&["X"])), "x");
}

#[test]
fn name_made_of_empty_arguments() {
    assert_eq!(case_name_with_args(&args(&[])), "");
    assert_eq!(case_name_with_args(&args(&[""])), "");
    assert_eq!(case_name_with_args(&args(&["", ""])), "_");
}

#[test]
fn explicit_name_overrides_arguments() {
    let name = NameToken::Identifier("t1".to_string());
    let arguments = args(&["1", "1", "2"]);
    assert_eq!(case_name(&name, &arguments, true, 1, 4), "t1");
    assert_eq!(case_name(&name, &arguments, false, 1, 4), "t1");
    let name = NameToken::StringLiteral("T 1".to_string());
    assert_eq!(case_name(&name, &arguments, true, 1, 4), "t_1");
    assert_eq!(case_name(&name, &arguments, false, 1, 4), "t_1");
}

#[test]
fn arguments_name_an_unnamed_case_only_with_the_option() {
    let arguments = args(&["1", "1", "2"]);
    assert_eq!(case_name(&NameToken::Absent, &arguments, true, 2, 4), "_1_1_2");
    assert_eq!(case_name(&NameToken::Absent, &arguments, false, 2, 4), "case_2");
    assert_eq!(case_name(&NameToken::StringLiteral(String::new()), &arguments, true, 2, 4), "_1_1_2");
}

#[test]
fn no_argument_falls_back_to_the_counter() {
    assert_eq!(case_name(&NameToken::Absent, &args(&[]), true, 2, 3), "case_2");
    assert_eq!(case_name(&NameToken::Absent, &args(&[]), false, 2, 3), "case_2");
}

#[test]
fn position_counts_every_case() {
    let cases = vec![
        NormalizedCase { name: NameToken::Identifier("first".to_string()), arguments: args(&["1"]) },
        NormalizedCase { name: NameToken::Absent, arguments: args(&["2"]) },
        NormalizedCase { name: NameToken::StringLiteral("third one".to_string()), arguments: args(&["3"]) },
        NormalizedCase { name: NameToken::Absent, arguments: args(&[]) },
    ];
    let resolved = resolve_names(&cases, false);
    let names: Vec<&str> = resolved.iter().map(|case| case.identifier.as_str()).collect();
    assert_eq!(names, ["first", "case_2", "third_one", "case_4"]);
    assert_eq!(resolved[1].arguments, args(&["2"]));
    assert_eq!(resolved[3].arguments, args(&[]));
    let resolved = resolve_names(&cases, true);
    let names: Vec<&str> = resolved.iter().map(|case| case.identifier.as_str()).collect();
    assert_eq!(names, ["first", "_2", "third_one", "case_4"]);
}

#[test]
fn collisions_are_left_alone() {
    let cases = vec![
        NormalizedCase { name: NameToken::Identifier("same".to_string()), arguments: args(&["1"]) },
        NormalizedCase { name: NameToken::Identifier("same".to_string()), arguments: args(&["2"]) },
    ];
    let resolved = resolve_names(&cases, false);
    assert_eq!(resolved[0].identifier, "same");
    assert_eq!(resolved[1].identifier, "same");
}

#[test]
fn group_is_named_by_its_token_or_after_the_function() {
    assert_eq!(group_name(&NameToken::Identifier("Sums".to_string()), "test_sum"), "Sums");
    assert_eq!(group_name(&NameToken::StringLiteral("all sums".to_string()), "test_sum"), "all_sums");
    assert_eq!(group_name(&NameToken::StringLiteral(String::new()), "test_sum"), "test_sum");
    assert_eq!(group_name(&NameToken::Absent, "test_sum"), "test_sum");
}
