use std::collections::HashMap;

use rowifi::custombinds::evaluate::{evaluate, EvaluationContext, EvaluationError, EvaluationResult};
use rowifi::custombinds::parser::{parser, Atom, Expression, Operator};
use rowifi::id::RoleId;

#[test]
fn evaluate_test_1() {
    let exp = Expression::Operation(
        Operator::GreaterEqual,
        Box::new(Expression::Function(
            "GetRank".into(),
            vec![Expression::Constant(Atom::Num(1000))],
        )),
        Some(Box::new(Expression::Constant(Atom::Num(10)))),
    );
    let mut ranks = HashMap::new();
    ranks.insert(1000, 20);
    let context1 = EvaluationContext {
        roles: &[],
        ranks: &ranks,
        username: "test",
    };
    assert_eq!(evaluate(&exp, &context1), Ok(EvaluationResult::Bool(true)));

    ranks.insert(1000, 5);
    let context2 = EvaluationContext {
        roles: &[],
        ranks: &ranks,
        username: "test",
    };
    assert_eq!(evaluate(&exp, &context2), Ok(EvaluationResult::Bool(false)));
}

fn eval_code(code: &str, roles: &[RoleId], ranks: &HashMap<u64, u32>, username: &str) -> Result<EvaluationResult, EvaluationError> {
    let exp = parser(code).unwrap();
    let ctx = EvaluationContext { roles, ranks, username };
    evaluate(&exp, &ctx)
}

#[test]
fn functions_read_the_context() {
    let mut ranks = HashMap::new();
    ranks.insert(7, 3);
    let roles = [RoleId(11), RoleId(12)];
    assert!(eval_code("IsInGroup(7)", &roles, &ranks, "alice").unwrap().is_truthy());
    assert!(!eval_code("IsInGroup(8)", &roles, &ranks, "alice").unwrap().is_truthy());
    assert!(parser("HasRank(7, 3)").is_err());
    assert!(eval_code("HasRole(12)", &roles, &ranks, "alice").unwrap().is_truthy());
    assert!(!eval_code("HasRole(13)", &roles, &ranks, "alice").unwrap().is_truthy());
    assert!(eval_code("WithString(\"lic\")", &roles, &ranks, "alice").unwrap().is_truthy());
    assert!(!eval_code("WithString(\"bob\")", &roles, &ranks, "alice").unwrap().is_truthy());
    assert_eq!(eval_code("GetRank(7)", &roles, &ranks, "alice"), Ok(EvaluationResult::Number(3)));
    assert_eq!(eval_code("GetRank(9)", &roles, &ranks, "alice"), Ok(EvaluationResult::Number(0)));
}

#[test]
fn has_rank_takes_two_arguments() {
    let mut ranks = HashMap::new();
    ranks.insert(7, 3);
    let exp = Expression::Function(
        "HasRank".to_string(),
        vec![Expression::Constant(Atom::Num(7)), Expression::Constant(Atom::Num(3))],
    );
    let ctx = EvaluationContext { roles: &[], ranks: &ranks, username: "x" };
    assert_eq!(evaluate(&exp, &ctx), Ok(EvaluationResult::Bool(true)));
    let exp = Expression::Function(
        "HasRank".to_string(),
        vec![Expression::Constant(Atom::Num(7)), Expression::Constant(Atom::Num(4))],
    );
    assert_eq!(evaluate(&exp, &ctx), Ok(EvaluationResult::Bool(false)));
}

#[test]
fn errors_are_reported() {
    let ranks = HashMap::new();
    assert_eq!(
        eval_code("Foo(1)", &[], &ranks, "x"),
        Err(EvaluationError::UnknownFunction { name: "Foo".to_string() })
    );
    assert_eq!(
        eval_code("IsInGroup(\"abc\")", &[], &ranks, "x"),
        Err(EvaluationError::IncorrectArgument { name: "IsInGroup", idx: 0, found: "String", expected: "Number" })
    );
    assert_eq!(
        eval_code("WithString(1)", &[], &ranks, "x"),
        Err(EvaluationError::IncorrectArgument { name: "HasRole", idx: 0, found: "String", expected: "Number" })
    );
    let exp = Expression::Operation(Operator::Not, Box::new(Expression::Constant(Atom::Num(1))), Some(Box::new(Expression::Constant(Atom::Num(1)))));
    let ctx = EvaluationContext { roles: &[], ranks: &ranks, username: "x" };
    assert_eq!(evaluate(&exp, &ctx), Err(EvaluationError::IncorrectOperator { op: Operator::Not }));
    let exp = Expression::Operation(Operator::And, Box::new(Expression::Constant(Atom::Num(1))), None);
    assert_eq!(evaluate(&exp, &ctx), Err(EvaluationError::IncorrectOperator { op: Operator::And }));
    let exp = Expression::Function("GetRank".to_string(), vec![]);
    assert_eq!(evaluate(&exp, &ctx), Err(EvaluationError::IncorrectArgumentCount { name: "GetRank", expected: 1, found: 0 }));
}

#[test]
fn results_mix_booleans_and_numbers() {
    assert_eq!(EvaluationResult::Bool(true), EvaluationResult::Number(1));
    assert!(EvaluationResult::Number(2) > EvaluationResult::Bool(true));
    assert_eq!(EvaluationResult::Bool(true).and(EvaluationResult::Number(0)), EvaluationResult::Bool(false));
    assert_eq!(EvaluationResult::Number(0).or(EvaluationResult::Number(5)), EvaluationResult::Bool(true));
    assert_eq!(!EvaluationResult::Number(0), EvaluationResult::Number(u64::MAX));
    assert_eq!(!EvaluationResult::Bool(false), EvaluationResult::Bool(true));
    let ranks = HashMap::new();
    assert_eq!(eval_code("not 0", &[], &ranks, "x"), Ok(EvaluationResult::Number(u64::MAX)));
    assert_eq!(eval_code("\"abc\" == 1", &[], &ranks, "x"), Ok(EvaluationResult::Bool(true)));
}
