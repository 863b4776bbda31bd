use rowifi::custombinds::parser::{
    parse_brackets, parse_function, parse_number, parse_operation, parse_operator,
    parse_string, parser, Atom, Expression, Operator,
};

#[test]
fn op_test() {
    assert_eq!(parse_operator(">="), Ok(("", Operator::GreaterEqual)));
    assert_eq!(parse_operator(">"), Ok(("", Operator::Greater)));
    assert_eq!(parse_operator("<="), Ok(("", Operator::LessEqual)));
    assert_eq!(parse_operator("<"), Ok(("", Operator::Less)));
    assert_eq!(parse_operator("=="), Ok(("", Operator::Equal)));
    assert_eq!(parse_operator("and"), Ok(("", Operator::And)));
    assert_eq!(parse_operator("or"), Ok(("", Operator::Or)));
}

#[test]
fn number_test() {
    assert_eq!(parse_number("123"), Ok(("", Atom::Num(123))));
    assert!(parse_number("abs").is_err());
}

#[test]
fn string_test() {
    assert_eq!(
        parse_string("\"seven\""),
        Ok(("", Atom::String("seven".to_string())))
    );
}

#[test]
fn function_test() {
    assert_eq!(
        parse_function("IsInGroup(1)"),
        Ok((
            "",
            Expression::Function(
                "IsInGroup".to_string(),
                vec![Expression::Constant(Atom::Num(1))]
            )
        ))
    );
}

#[test]
fn bracket_test() {
    assert_eq!(
        parse_brackets("(IsInGroup(123))"),
        Ok((
            "",
            Expression::Function(
                "IsInGroup".to_string(),
                vec![Expression::Constant(Atom::Num(123))]
            )
        ))
    );
}

#[test]
fn operation_test() {
    assert_eq!(
        parse_operation("IsInGroup(1) and IsInGroup(2)"),
        Ok((
            "",
            Expression::Operation(
                Operator::And,
                Box::new(Expression::Function(
                    "IsInGroup".to_string(),
                    vec![Expression::Constant(Atom::Num(1))]
                )),
                Some(Box::new(Expression::Function(
                    "IsInGroup".to_string(),
                    vec![Expression::Constant(Atom::Num(2))]
                )))
            )
        ))
    );
}

#[test]
fn full_test() {
    assert_eq!(
        parser("IsInGroup(1) and (GetRank(2) >= 3) or IsInGroup(2)"),
        Ok(Expression::Operation(
            Operator::Or,
            Box::new(Expression::Operation(
                Operator::And,
                Box::new(Expression::Function(
                    "IsInGroup".to_string(),
                    vec![Expression::Constant(Atom::Num(1))]
                )),
                Some(Box::new(Expression::Operation(
                    Operator::GreaterEqual,
                    Box::new(Expression::Function(
                        "GetRank".to_string(),
                        vec![Expression::Constant(Atom::Num(2))]
                    )),
                    Some(Box::new(Expression::Constant(Atom::Num(3))))
                )))
            )),
            Some(Box::new(Expression::Function(
                "IsInGroup".to_string(),
                vec![Expression::Constant(Atom::Num(2))]
            )))
        ))
    )
}

#[test]
fn operator_leaves_rest_of_input() {
    assert_eq!(parse_operator(">= 3"), Ok((" 3", Operator::GreaterEqual)));
    assert_eq!(parse_operator("andx"), Ok(("x", Operator::And)));
    assert!(parse_operator("not").is_err());
}

#[test]
fn number_overflow_is_rejected() {
    assert_eq!(
        parse_number("18446744073709551615"),
        Ok(("", Atom::Num(u64::MAX)))
    );
    assert!(parse_number("18446744073709551616").is_err());
    assert_eq!(parse_number("0042x"), Ok(("x", Atom::Num(42))));
}

#[test]
fn string_must_be_alphabetic_and_closed() {
    assert!(parse_string("\"\"").is_err());
    assert!(parse_string("\"ab1\"").is_err());
    assert!(parse_string("\"abc").is_err());
}

#[test]
fn negation_and_whitespace() {
    assert_eq!(
        parser("  not IsInGroup(5)"),
        Ok(Expression::Operation(
            Operator::Not,
            Box::new(Expression::Function(
                "IsInGroup".to_string(),
                vec![Expression::Constant(Atom::Num(5))]
            )),
            None
        ))
    );
    assert_eq!(
        parser("notIsInGroup(5)"),
        Ok(Expression::Function(
            "notIsInGroup".to_string(),
            vec![Expression::Constant(Atom::Num(5))]
        ))
    );
}

#[test]
fn parser_requires_whole_input() {
    assert!(parser("IsInGroup(1) )").is_err());
    assert!(parser("IsInGroup(1) and").is_err());
    assert!(parser("").is_err());
    assert!(parser("IsInGroup( 1)").is_err());
}

#[test]
fn operations_fold_left() {
    assert_eq!(
        parser("1 or 2 and 3"),
        Ok(Expression::Operation(
            Operator::And,
            Box::new(Expression::Operation(
                Operator::Or,
                Box::new(Expression::Constant(Atom::Num(1))),
                Some(Box::new(Expression::Constant(Atom::Num(2))))
            )),
            Some(Box::new(Expression::Constant(Atom::Num(3))))
        ))
    );
}

#[test]
fn comparison_with_string_constant() {
    assert_eq!(
        parser("WithString(\"bob\") == 1"),
        Ok(Expression::Operation(
            Operator::Equal,
            Box::new(Expression::Function(
                "WithString".to_string(),
                vec![Expression::Constant(Atom::String("bob".to_string()))]
            )),
            Some(Box::new(Expression::Constant(Atom::Num(1))))
        ))
    );
}
