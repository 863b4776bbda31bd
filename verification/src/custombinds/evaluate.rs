//! Evaluation of parsed custom bind expressions against a member's roles,
//! group ranks and Roblox username.
use std::collections::HashMap;
use vstd::prelude::*;

use super::parser::{atom_model, expression_model, expressions_model, Atom, Expression, Operator};
use crate::id::RoleId;
use crate::text::{contains_text, occurs_at, decimal, decimal_string, push_str, str_contains, str_eq};

verus! {

/// The value of an expression: a boolean or a number.
#[derive(Clone, Copy, Debug)]
pub enum EvaluationResult {
    Bool(bool),
    Number(u64),
}

/// What an expression is evaluated against.
pub struct EvaluationContext<'c> {
    /// The member's Discord roles.
    pub roles: &'c [RoleId],
    /// The member's rank in each Roblox group they belong to, keyed by group id.
    pub ranks: &'c HashMap<u64, u32>,
    /// The member's Roblox username.
    pub username: &'c str,
}

/// Why an expression could not be evaluated.
#[derive(Debug, PartialEq, Eq)]
pub enum EvaluationError {
    IncorrectArgumentCount { name: &'static str, expected: usize, found: usize },
    IncorrectArgument {
        name: &'static str,
        idx: usize,
        found: &'static str,
        expected: &'static str,
    },
    UnknownFunction { name: String },
    IncorrectOperator { op: Operator },
}

impl EvaluationResult {
    /// The number a result stands for: a boolean is 0 or 1.
    pub open spec fn number(self) -> u64 {
        match self {
            EvaluationResult::Bool(b) => if b {
                1
            } else {
                0
            },
            EvaluationResult::Number(n) => n,
        }
    }

    /// The truth a result stands for: a number is true when it is not 0.
    pub open spec fn truth(self) -> bool {
        match self {
            EvaluationResult::Bool(b) => b,
            EvaluationResult::Number(n) => n != 0,
        }
    }

    /// Negation: a boolean is negated, a number has its bits inverted.
    pub open spec fn negated(self) -> EvaluationResult {
        match self {
            EvaluationResult::Bool(b) => EvaluationResult::Bool(!b),
            EvaluationResult::Number(n) => EvaluationResult::Number(!n),
        }
    }

    pub fn as_number(&self) -> (n: u64)
        ensures
            n == self.number(),
    {
        match self {
            EvaluationResult::Bool(b) => if *b {
                1
            } else {
                0
            },
            EvaluationResult::Number(n) => *n,
        }
    }

    pub fn is_truthy(&self) -> (b: bool)
        ensures
            b == self.truth(),
    {
        match self {
            EvaluationResult::Bool(b) => *b,
            EvaluationResult::Number(n) => *n != 0,
        }
    }

    /// Negation (the `!` operator): a boolean is negated, a number has its
    /// bits inverted.
    pub fn negate(self) -> (r: EvaluationResult)
        ensures
            r == self.negated(),
    {
        match self {
            EvaluationResult::Bool(b) => EvaluationResult::Bool(!b),
            EvaluationResult::Number(n) => EvaluationResult::Number(!n),
        }
    }

    /// Logical conjunction of the truths of both results.
    pub fn and(self, rhs: Self) -> (r: EvaluationResult)
        ensures
            r == EvaluationResult::Bool(self.truth() && rhs.truth()),
    {
        let res = match (self, rhs) {
            (EvaluationResult::Bool(b), EvaluationResult::Number(n))
            | (EvaluationResult::Number(n), EvaluationResult::Bool(b)) => b && (n != 0),
            (EvaluationResult::Bool(b1), EvaluationResult::Bool(b2)) => b1 && b2,
            (EvaluationResult::Number(n1), EvaluationResult::Number(n2)) => n1 != 0 && n2 != 0,
        };
        EvaluationResult::Bool(res)
    }

    /// Logical disjunction of the truths of both results.
    pub fn or(self, rhs: Self) -> (r: EvaluationResult)
        ensures
            r == EvaluationResult::Bool(self.truth() || rhs.truth()),
    {
        let res = match (self, rhs) {
            (EvaluationResult::Bool(b), EvaluationResult::Number(n))
            | (EvaluationResult::Number(n), EvaluationResult::Bool(b)) => b || (n != 0),
            (EvaluationResult::Bool(b1), EvaluationResult::Bool(b2)) => b1 || b2,
            (EvaluationResult::Number(n1), EvaluationResult::Number(n2)) => n1 != 0 || n2 != 0,
        };
        EvaluationResult::Bool(res)
    }
}

impl PartialEq for EvaluationResult {
    fn eq(&self, rhs: &Self) -> (r: bool) {
        self.as_number() == rhs.as_number()
    }
}

impl vstd::std_specs::cmp::PartialEqSpecImpl for EvaluationResult {
    open spec fn obeys_eq_spec() -> bool {
        true
    }

    open spec fn eq_spec(&self, rhs: &Self) -> bool {
        self.number() == rhs.number()
    }
}

impl PartialOrd for EvaluationResult {
    fn partial_cmp(&self, rhs: &Self) -> (r: Option<std::cmp::Ordering>) {
        let a = self.as_number();
        let b = rhs.as_number();
        if a < b {
            Some(std::cmp::Ordering::Less)
        } else if a == b {
            Some(std::cmp::Ordering::Equal)
        } else {
            Some(std::cmp::Ordering::Greater)
        }
    }
}

impl vstd::std_specs::cmp::PartialOrdSpecImpl for EvaluationResult {
    open spec fn obeys_partial_cmp_spec() -> bool {
        true
    }

    open spec fn partial_cmp_spec(&self, rhs: &Self) -> Option<std::cmp::Ordering> {
        if self.number() < rhs.number() {
            Some(std::cmp::Ordering::Less)
        } else if self.number() == rhs.number() {
            Some(std::cmp::Ordering::Equal)
        } else {
            Some(std::cmp::Ordering::Greater)
        }
    }
}

impl std::ops::Not for EvaluationResult {
    type Output = EvaluationResult;

    fn not(self) -> (r: EvaluationResult) {
        self.negate()
    }
}

impl vstd::std_specs::ops::NotSpecImpl for EvaluationResult {
    open spec fn obeys_not_spec() -> bool {
        true
    }

    open spec fn not_req(self) -> bool {
        true
    }

    open spec fn not_spec(self) -> EvaluationResult {
        self.negated()
    }
}

/// The result of applying a binary operator to two evaluated operands.
pub open spec fn spec_binary(op: Operator, lhs: EvaluationResult, rhs: EvaluationResult) -> Result<
    EvaluationResult,
    EvaluationError,
> {
    match op {
        Operator::And => Ok(EvaluationResult::Bool(lhs.truth() && rhs.truth())),
        Operator::Or => Ok(EvaluationResult::Bool(lhs.truth() || rhs.truth())),
        Operator::GreaterEqual => Ok(EvaluationResult::Bool(lhs.number() >= rhs.number())),
        Operator::Greater => Ok(EvaluationResult::Bool(lhs.number() > rhs.number())),
        Operator::LessEqual => Ok(EvaluationResult::Bool(lhs.number() <= rhs.number())),
        Operator::Less => Ok(EvaluationResult::Bool(lhs.number() < rhs.number())),
        Operator::Equal => Ok(EvaluationResult::Bool(lhs.number() == rhs.number())),
        Operator::Not => Err(EvaluationError::IncorrectOperator { op: Operator::Not }),
    }
}

/// The argument of a function call at position `idx`, read as a number: a
/// numeric constant, or the number that a nested call or operation evaluates
/// to. A string constant is refused.
pub open spec fn spec_number_argument(
    arg: Expression,
    name: &'static str,
    idx: usize,
    ctx: EvaluationContext,
) -> Result<u64, EvaluationError>
    decreases arg, 1int,
{
    match arg {
        Expression::Constant(Atom::Num(n)) => Ok(n),
        Expression::Constant(Atom::String(_)) => Err(
            EvaluationError::IncorrectArgument { name, idx, found: "String", expected: "Number" },
        ),
        _ => match spec_evaluate(arg, ctx) {
            Ok(r) => Ok(r.number()),
            Err(e) => Err(e),
        },
    }
}

/// The rank recorded for a group, or 0 when the member is not in it.
pub open spec fn rank_or_zero(ranks: Map<u64, u32>, group: u64) -> u32 {
    if ranks.contains_key(group) {
        ranks[group]
    } else {
        0
    }
}

/// The meaning of an expression in a context. Operands are evaluated left to
/// right and the first error is returned.
pub open spec fn spec_evaluate(e: Expression, ctx: EvaluationContext) -> Result<
    EvaluationResult,
    EvaluationError,
>
    decreases e, 0int,
{
    match e {
        Expression::Operation(op, e1, Some(e2)) => match spec_evaluate(*e1, ctx) {
            Err(x) => Err(x),
            Ok(lhs) => match spec_evaluate(*e2, ctx) {
                Err(x) => Err(x),
                Ok(rhs) => spec_binary(op, lhs, rhs),
            },
        },
        Expression::Operation(op, e1, None) => match spec_evaluate(*e1, ctx) {
            Err(x) => Err(x),
            Ok(lhs) => if op != Operator::Not {
                Err(EvaluationError::IncorrectOperator { op })
            } else {
                Ok(lhs.negated())
            },
        },
        Expression::Function(name, args) => {
            if name@ == "IsInGroup"@ {
                if args.len() == 1 {
                    match spec_number_argument(args@[0], "IsInGroup", 0, ctx) {
                        Ok(g) => Ok(EvaluationResult::Bool(ctx.ranks@.contains_key(g))),
                        Err(x) => Err(x),
                    }
                } else {
                    Err(
                        EvaluationError::IncorrectArgumentCount {
                            name: "IsInGroup",
                            expected: 1,
                            found: args.len(),
                        },
                    )
                }
            } else if name@ == "HasRank"@ {
                if args.len() == 2 {
                    match spec_number_argument(args@[0], "HasRank", 0, ctx) {
                        Ok(g) => match spec_number_argument(args@[1], "HasRank", 1, ctx) {
                            Ok(rank) => Ok(
                                EvaluationResult::Bool(
                                    ctx.ranks@.contains_key(g) && ctx.ranks@[g] == rank as u32,
                                ),
                            ),
                            Err(x) => Err(x),
                        },
                        Err(x) => Err(x),
                    }
                } else {
                    Err(
                        EvaluationError::IncorrectArgumentCount {
                            name: "HasRank",
                            expected: 2,
                            found: args.len(),
                        },
                    )
                }
            } else if name@ == "HasRole"@ {
                if args.len() == 1 {
                    match spec_number_argument(args@[0], "HasRole", 0, ctx) {
                        Ok(role) => Ok(EvaluationResult::Bool(ctx.roles@.contains(RoleId(role)))),
                        Err(x) => Err(x),
                    }
                } else {
                    Err(
                        EvaluationError::IncorrectArgumentCount {
                            name: "HasRole",
                            expected: 1,
                            found: args.len(),
                        },
                    )
                }
            } else if name@ == "WithString"@ {
                if args.len() == 1 {
                    match args@[0] {
                        Expression::Constant(Atom::String(s)) => Ok(
                            EvaluationResult::Bool(contains_text(ctx.username@, s@)),
                        ),
                        _ => Err(
                            EvaluationError::IncorrectArgument {
                                name: "HasRole",
                                idx: 0,
                                found: "String",
                                expected: "Number",
                            },
                        ),
                    }
                } else {
                    Err(
                        EvaluationError::IncorrectArgumentCount {
                            name: "WithString",
                            expected: 1,
                            found: args.len(),
                        },
                    )
                }
            } else if name@ == "GetRank"@ {
                if args.len() == 1 {
                    match spec_number_argument(args@[0], "GetRank", 0, ctx) {
                        Ok(g) => Ok(EvaluationResult::Number(rank_or_zero(ctx.ranks@, g) as u64)),
                        Err(x) => Err(x),
                    }
                } else {
                    Err(
                        EvaluationError::IncorrectArgumentCount {
                            name: "GetRank",
                            expected: 1,
                            found: args.len(),
                        },
                    )
                }
            } else {
                Err(EvaluationError::UnknownFunction { name })
            }
        },
        Expression::Constant(Atom::Num(n)) => Ok(EvaluationResult::Number(n)),
        Expression::Constant(Atom::String(_)) => Ok(EvaluationResult::Bool(true)),
    }
}

fn has_role(roles: &[RoleId], role: RoleId) -> (r: bool)
    ensures
        r == roles@.contains(role),
{
    let mut i: usize = 0;
    while i < roles.len()
        invariant
            i <= roles@.len(),
            forall|j: int| 0 <= j < i ==> roles@[j] != role,
        decreases roles@.len() - i,
    {
        if roles[i] == role {
            assert(roles@[i as int] == role);
            return true;
        }
        i = i + 1;
    }
    false
}

fn number_argument(
    arg: &Expression,
    name: &'static str,
    idx: usize,
    context: &EvaluationContext<'_>,
) -> (r: Result<u64, EvaluationError>)
    ensures
        r == spec_number_argument(*arg, name, idx, *context),
    decreases *arg, 1int,
{
    match arg {
        Expression::Constant(Atom::Num(n)) => Ok(*n),
        Expression::Constant(Atom::String(_)) => Err(
            EvaluationError::IncorrectArgument { name, idx, found: "String", expected: "Number" },
        ),
        _ => match evaluate(arg, context) {
            Ok(res) => Ok(res.as_number()),
            Err(e) => Err(e),
        },
    }
}

/// Evaluates a custom bind expression: the result is exactly
/// [`spec_evaluate`] of the expression in the context.
pub fn evaluate(expr: &Expression, context: &EvaluationContext<'_>) -> (r: Result<
    EvaluationResult,
    EvaluationError,
>)
    ensures
        r == spec_evaluate(*expr, *context),
    decreases *expr, 0int,
{
    broadcast use vstd::std_specs::hash::group_hash_axioms;

    match expr {
        Expression::Operation(op, e1, Some(e2)) => {
            let lhs = evaluate(e1, context)?;
            let rhs = evaluate(e2, context)?;
            let res = match op {
                Operator::And => lhs.and(rhs),
                Operator::Or => lhs.or(rhs),
                Operator::GreaterEqual => EvaluationResult::Bool(
                    lhs.as_number() >= rhs.as_number(),
                ),
                Operator::Greater => EvaluationResult::Bool(lhs.as_number() > rhs.as_number()),
                Operator::LessEqual => EvaluationResult::Bool(lhs.as_number() <= rhs.as_number()),
                Operator::Less => EvaluationResult::Bool(lhs.as_number() < rhs.as_number()),
                Operator::Equal => EvaluationResult::Bool(lhs.as_number() == rhs.as_number()),
                Operator::Not => {
                    return Err(EvaluationError::IncorrectOperator { op: Operator::Not });
                },
            };
            Ok(res)
        },
        Expression::Operation(op, e1, None) => {
            let lhs = evaluate(e1, context)?;
            if *op != Operator::Not {
                return Err(EvaluationError::IncorrectOperator { op: *op });
            }
            Ok(lhs.negate())
        },
        Expression::Function(name, args) => {
            if str_eq(name.as_str(), "IsInGroup") {
                if args.len() == 1 {
                    let group = number_argument(&args[0], "IsInGroup", 0, context)?;
                    Ok(EvaluationResult::Bool(context.ranks.contains_key(&group)))
                } else {
                    Err(
                        EvaluationError::IncorrectArgumentCount {
                            name: "IsInGroup",
                            expected: 1,
                            found: args.len(),
                        },
                    )
                }
            } else if str_eq(name.as_str(), "HasRank") {
                if args.len() == 2 {
                    let group = number_argument(&args[0], "HasRank", 0, context)?;
                    let rank = number_argument(&args[1], "HasRank", 1, context)?;
                    let success = match context.ranks.get(&group) {
                        Some(r) => *r == rank as u32,
                        None => false,
                    };
                    Ok(EvaluationResult::Bool(success))
                } else {
                    Err(
                        EvaluationError::IncorrectArgumentCount {
                            name: "HasRank",
                            expected: 2,
                            found: args.len(),
                        },
                    )
                }
            } else if str_eq(name.as_str(), "HasRole") {
                if args.len() == 1 {
                    let role = number_argument(&args[0], "HasRole", 0, context)?;
                    Ok(EvaluationResult::Bool(has_role(context.roles, RoleId::new(role))))
                } else {
                    Err(
                        EvaluationError::IncorrectArgumentCount {
                            name: "HasRole",
                            expected: 1,
                            found: args.len(),
                        },
                    )
                }
            } else if str_eq(name.as_str(), "WithString") {
                if args.len() == 1 {
                    match &args[0] {
                        Expression::Constant(Atom::String(s)) => Ok(
                            EvaluationResult::Bool(str_contains(context.username, s.as_str())),
                        ),
                        _ => Err(
                            EvaluationError::IncorrectArgument {
                                name: "HasRole",
                                idx: 0,
                                found: "String",
                                expected: "Number",
                            },
                        ),
                    }
                } else {
                    Err(
                        EvaluationError::IncorrectArgumentCount {
                            name: "WithString",
                            expected: 1,
                            found: args.len(),
                        },
                    )
                }
            } else if str_eq(name.as_str(), "GetRank") {
                if args.len() == 1 {
                    let group = number_argument(&args[0], "GetRank", 0, context)?;
                    let rank: u32 = match context.ranks.get(&group) {
                        Some(r) => *r,
                        None => 0,
                    };
                    Ok(EvaluationResult::Number(rank as u64))
                } else {
                    Err(
                        EvaluationError::IncorrectArgumentCount {
                            name: "GetRank",
                            expected: 1,
                            found: args.len(),
                        },
                    )
                }
            } else {
                Err(EvaluationError::UnknownFunction { name: name.clone() })
            }
        },
        Expression::Constant(Atom::Num(num)) => Ok(EvaluationResult::Number(*num)),
        Expression::Constant(Atom::String(_)) => Ok(EvaluationResult::Bool(true)),
    }
}

/// What an evaluation error says, with names as plain text.
pub enum ErrorModel {
    IncorrectArgumentCount(Seq<char>, usize, usize),
    IncorrectArgument(Seq<char>, usize, Seq<char>, Seq<char>),
    UnknownFunction(Seq<char>),
    IncorrectOperator(Operator),
}

impl EvaluationError {
    pub open spec fn model(self) -> ErrorModel {
        match self {
            EvaluationError::IncorrectArgumentCount { name, expected, found } => ErrorModel::IncorrectArgumentCount(
                name@,
                expected,
                found,
            ),
            EvaluationError::IncorrectArgument { name, idx, found, expected } => ErrorModel::IncorrectArgument(
                name@,
                idx,
                found@,
                expected@,
            ),
            EvaluationError::UnknownFunction { name } => ErrorModel::UnknownFunction(name@),
            EvaluationError::IncorrectOperator { op } => ErrorModel::IncorrectOperator(op),
        }
    }
}

/// An evaluation's outcome with its error as plain text.
pub open spec fn outcome_model(r: Result<EvaluationResult, EvaluationError>) -> Result<EvaluationResult, ErrorModel> {
    match r {
        Ok(v) => Ok(v),
        Err(e) => Err(e.model()),
    }
}

/// Two contexts that hold the same roles, ranks and username.
pub open spec fn same_context(c1: EvaluationContext, c2: EvaluationContext) -> bool {
    c1.roles@ == c2.roles@ && c1.ranks@ == c2.ranks@ && c1.username@ == c2.username@
}

pub proof fn lemma_expressions_model(es: Seq<Expression>)
    ensures
        expressions_model(es).len() == es.len(),
        forall|i: int| 0 <= i < es.len() ==> #[trigger] expressions_model(es)[i] == expression_model(es[i]),
    decreases es.len(),
{
    if es.len() > 0 {
        lemma_expressions_model(es.drop_last());
        assert forall|i: int| 0 <= i < es.len() implies #[trigger] expressions_model(es)[i] == expression_model(
            es[i],
        ) by {
            if i < es.len() - 1 {
                assert(es.drop_last()[i] == es[i]);
            }
        }
    }
}

/// Evaluation depends on nothing but what the expression and the context
/// hold: expressions that read the same and contexts with the same roles,
/// ranks and username give the same outcome.
pub proof fn lemma_evaluate_congruent(e1: Expression, e2: Expression, c1: EvaluationContext, c2: EvaluationContext)
    requires
        e1@ == e2@,
        same_context(c1, c2),
    ensures
        outcome_model(spec_evaluate(e1, c1)) == outcome_model(spec_evaluate(e2, c2)),
    decreases e1, 0int,
{
    match (e1, e2) {
        (Expression::Operation(op1, a1, b1), Expression::Operation(op2, a2, b2)) => {
            assert(expression_model(*a1) == expression_model(*a2));
            lemma_evaluate_congruent(*a1, *a2, c1, c2);
            match (b1, b2) {
                (Some(x1), Some(x2)) => {
                    assert(expression_model(*x1) == expression_model(*x2));
                    lemma_evaluate_congruent(*x1, *x2, c1, c2);
                },
                _ => {},
            }
        },
        (Expression::Function(n1, args1), Expression::Function(n2, args2)) => {
            lemma_expressions_model(args1@);
            lemma_expressions_model(args2@);
            assert(args1@.len() == args2@.len());
            if args1@.len() > 0 {
                assert(expressions_model(args1@)[0] == expressions_model(args2@)[0]);
                lemma_number_argument_congruent(args1@[0], args2@[0], "IsInGroup", 0, c1, c2);
                lemma_number_argument_congruent(args1@[0], args2@[0], "HasRank", 0, c1, c2);
                lemma_number_argument_congruent(args1@[0], args2@[0], "HasRole", 0, c1, c2);
                lemma_number_argument_congruent(args1@[0], args2@[0], "GetRank", 0, c1, c2);
            }
            if args1@.len() > 1 {
                assert(expressions_model(args1@)[1] == expressions_model(args2@)[1]);
                lemma_number_argument_congruent(args1@[1], args2@[1], "HasRank", 1, c1, c2);
            }
            if args1@.len() == 1 {
                match (args1@[0], args2@[0]) {
                    (Expression::Constant(Atom::String(s1)), Expression::Constant(Atom::String(s2))) => {
                        assert(atom_model(Atom::String(s1)) == atom_model(Atom::String(s2)));
                    },
                    _ => {},
                }
            }
        },
        _ => {},
    }
}

pub proof fn lemma_number_argument_congruent(
    a1: Expression,
    a2: Expression,
    name: &'static str,
    idx: usize,
    c1: EvaluationContext,
    c2: EvaluationContext,
)
    requires
        a1@ == a2@,
        same_context(c1, c2),
    ensures
        match (spec_number_argument(a1, name, idx, c1), spec_number_argument(a2, name, idx, c2)) {
            (Ok(x), Ok(y)) => x == y,
            (Err(x), Err(y)) => x.model() == y.model(),
            _ => false,
        },
    decreases a1, 1int,
{
    match a1 {
        Expression::Constant(_) => {},
        _ => {
            lemma_evaluate_congruent(a1, a2, c1, c2);
        },
    }
}

impl ErrorModel {
    /// The message of an evaluation error (its `Display` form). An argument is
    /// counted from 1.
    pub open spec fn text(self) -> Seq<char> {
        match self {
            ErrorModel::IncorrectArgument(name, idx, found, expected) => "Argument "@ + decimal(
                idx.wrapping_add(1) as nat,
            ) + " of function "@ + name + " is expected to be of type "@ + expected
                + ". It was found to be a "@ + found,
            ErrorModel::IncorrectArgumentCount(name, expected, found) => "Function "@ + name
                + " is expected to have "@ + decimal(expected as nat) + " arguments. It has "@
                + decimal(found as nat) + " arguments currently"@,
            ErrorModel::UnknownFunction(name) => "Function "@ + name + " is not a valid function"@,
            ErrorModel::IncorrectOperator(op) => "Did not expect `"@ + op.text() + "` operator"@,
        }
    }
}

impl EvaluationError {
    /// The error's message.
    pub fn message(&self) -> (s: String)
        ensures
            s@ == self.model().text(),
    {
        let mut s = String::new();
        match self {
            EvaluationError::IncorrectArgument { name, idx, found, expected } => {
                push_str(&mut s, "Argument ");
                let n = decimal_string(idx.wrapping_add(1) as u64);
                push_str(&mut s, n.as_str());
                push_str(&mut s, " of function ");
                push_str(&mut s, name);
                push_str(&mut s, " is expected to be of type ");
                push_str(&mut s, expected);
                push_str(&mut s, ". It was found to be a ");
                push_str(&mut s, found);
            },
            EvaluationError::IncorrectArgumentCount { name, expected, found } => {
                push_str(&mut s, "Function ");
                push_str(&mut s, name);
                push_str(&mut s, " is expected to have ");
                let e = decimal_string(*expected as u64);
                push_str(&mut s, e.as_str());
                push_str(&mut s, " arguments. It has ");
                let f = decimal_string(*found as u64);
                push_str(&mut s, f.as_str());
                push_str(&mut s, " arguments currently");
            },
            EvaluationError::UnknownFunction { name } => {
                push_str(&mut s, "Function ");
                push_str(&mut s, name.as_str());
                push_str(&mut s, " is not a valid function");
            },
            EvaluationError::IncorrectOperator { op } => {
                push_str(&mut s, "Did not expect `");
                push_str(&mut s, op.as_str());
                push_str(&mut s, "` operator");
            },
        }
        s
    }
}

/// Evaluating a binary operation on two operands that evaluate to `x` and `y`:
/// the comparisons compare the numbers the operands stand for (`<` and `>`
/// strictly, so equal operands are neither less nor greater), `and` and `or`
/// combine their truths, and `not` is no binary operator.
pub proof fn lemma_binary_operations(
    op: Operator,
    a: Expression,
    b: Expression,
    ctx: EvaluationContext,
    x: EvaluationResult,
    y: EvaluationResult,
)
    requires
        spec_evaluate(a, ctx) == Ok::<EvaluationResult, EvaluationError>(x),
        spec_evaluate(b, ctx) == Ok::<EvaluationResult, EvaluationError>(y),
    ensures
        ({
            let r = spec_evaluate(Expression::Operation(op, Box::new(a), Some(Box::new(b))), ctx);
            &&& op == Operator::Less ==> r == Ok::<EvaluationResult, EvaluationError>(
                EvaluationResult::Bool(x.number() < y.number()),
            )
            &&& op == Operator::LessEqual ==> r == Ok::<EvaluationResult, EvaluationError>(
                EvaluationResult::Bool(x.number() <= y.number()),
            )
            &&& op == Operator::Greater ==> r == Ok::<EvaluationResult, EvaluationError>(
                EvaluationResult::Bool(x.number() > y.number()),
            )
            &&& op == Operator::GreaterEqual ==> r == Ok::<EvaluationResult, EvaluationError>(
                EvaluationResult::Bool(x.number() >= y.number()),
            )
            &&& op == Operator::Equal ==> r == Ok::<EvaluationResult, EvaluationError>(
                EvaluationResult::Bool(x.number() == y.number()),
            )
            &&& op == Operator::And ==> r == Ok::<EvaluationResult, EvaluationError>(
                EvaluationResult::Bool(x.truth() && y.truth()),
            )
            &&& op == Operator::Or ==> r == Ok::<EvaluationResult, EvaluationError>(
                EvaluationResult::Bool(x.truth() || y.truth()),
            )
            &&& op == Operator::Not ==> r == Err::<EvaluationResult, EvaluationError>(
                EvaluationError::IncorrectOperator { op: Operator::Not },
            )
        }),
{
}

/// Comparing two operands that stand for the same number: `<` and `>` are
/// false, `<=`, `>=` and `==` are true.
pub proof fn lemma_equal_operands(
    a: Expression,
    b: Expression,
    ctx: EvaluationContext,
    x: EvaluationResult,
    y: EvaluationResult,
)
    requires
        spec_evaluate(a, ctx) == Ok::<EvaluationResult, EvaluationError>(x),
        spec_evaluate(b, ctx) == Ok::<EvaluationResult, EvaluationError>(y),
        x.number() == y.number(),
    ensures
        spec_evaluate(Expression::Operation(Operator::Less, Box::new(a), Some(Box::new(b))), ctx) == Ok::<
            EvaluationResult,
            EvaluationError,
        >(EvaluationResult::Bool(false)),
        spec_evaluate(Expression::Operation(Operator::Greater, Box::new(a), Some(Box::new(b))), ctx) == Ok::<
            EvaluationResult,
            EvaluationError,
        >(EvaluationResult::Bool(false)),
        spec_evaluate(Expression::Operation(Operator::LessEqual, Box::new(a), Some(Box::new(b))), ctx) == Ok::<
            EvaluationResult,
            EvaluationError,
        >(EvaluationResult::Bool(true)),
        spec_evaluate(Expression::Operation(Operator::GreaterEqual, Box::new(a), Some(Box::new(b))), ctx) == Ok::<
            EvaluationResult,
            EvaluationError,
        >(EvaluationResult::Bool(true)),
        spec_evaluate(Expression::Operation(Operator::Equal, Box::new(a), Some(Box::new(b))), ctx) == Ok::<
            EvaluationResult,
            EvaluationError,
        >(EvaluationResult::Bool(true)),
{
}

/// The functions of the language on number arguments `g` and `k`:
/// `IsInGroup(g)` is whether the member is in group `g`; `HasRole(g)` whether
/// the member has the role with id `g`; `GetRank(g)` the member's rank in group
/// `g`, 0 when not in it; `HasRank(g, k)` whether the member is in group `g`
/// with rank `k` (taken as a 32-bit rank). A member outside the group has no
/// rank there, not even rank 0.
pub proof fn lemma_functions_on_numbers(name: String, args: Vec<Expression>, ctx: EvaluationContext, g: u64, k: u64)
    ensures
        ({
            let r = spec_evaluate(Expression::Function(name, args), ctx);
            &&& (args@ == seq![Expression::Constant(Atom::Num(g))] && name@ == "IsInGroup"@) ==> r == Ok::<
                EvaluationResult,
                EvaluationError,
            >(EvaluationResult::Bool(ctx.ranks@.contains_key(g)))
            &&& (args@ == seq![Expression::Constant(Atom::Num(g))] && name@ == "HasRole"@) ==> r == Ok::<
                EvaluationResult,
                EvaluationError,
            >(EvaluationResult::Bool(ctx.roles@.contains(RoleId(g))))
            &&& (args@ == seq![Expression::Constant(Atom::Num(g))] && name@ == "GetRank"@) ==> r == Ok::<
                EvaluationResult,
                EvaluationError,
            >(
                EvaluationResult::Number(
                    if ctx.ranks@.contains_key(g) {
                        ctx.ranks@[g] as u64
                    } else {
                        0
                    },
                ),
            )
            &&& (args@ == seq![Expression::Constant(Atom::Num(g)), Expression::Constant(Atom::Num(k))] && name@
                == "HasRank"@) ==> r == Ok::<EvaluationResult, EvaluationError>(
                EvaluationResult::Bool(ctx.ranks@.contains_key(g) && ctx.ranks@[g] == k as u32),
            )
        }),
{
    reveal_strlit("IsInGroup");
    reveal_strlit("HasRank");
    reveal_strlit("HasRole");
    reveal_strlit("WithString");
    reveal_strlit("GetRank");
    lemma_function_names_differ();
    if args@.len() >= 1 && args@[0] == Expression::Constant(Atom::Num(g)) {
        assert(spec_number_argument(args@[0], "IsInGroup", 0, ctx) == Ok::<u64, EvaluationError>(g));
        assert(spec_number_argument(args@[0], "HasRole", 0, ctx) == Ok::<u64, EvaluationError>(g));
        assert(spec_number_argument(args@[0], "GetRank", 0, ctx) == Ok::<u64, EvaluationError>(g));
        assert(spec_number_argument(args@[0], "HasRank", 0, ctx) == Ok::<u64, EvaluationError>(g));
    }
    if args@.len() >= 2 && args@[1] == Expression::Constant(Atom::Num(k)) {
        assert(spec_number_argument(args@[1], "HasRank", 1, ctx) == Ok::<u64, EvaluationError>(k));
    }
}

/// `WithString("t")` is whether the member's Roblox username contains `t`.
pub proof fn lemma_with_string(name: String, args: Vec<Expression>, ctx: EvaluationContext, t: String)
    requires
        name@ == "WithString"@,
        args@ == seq![Expression::Constant(Atom::String(t))],
    ensures
        spec_evaluate(Expression::Function(name, args), ctx) == Ok::<EvaluationResult, EvaluationError>(
            EvaluationResult::Bool(exists|i: int| 0 <= i && i + t@.len() <= ctx.username@.len() && #[trigger] ctx.username@.subrange(i, i + t@.len()) == t@),
        ),
{
    reveal_strlit("IsInGroup");
    reveal_strlit("HasRank");
    reveal_strlit("HasRole");
    reveal_strlit("WithString");
    reveal_strlit("GetRank");
    lemma_function_names_differ();
    let u = ctx.username@;
    if contains_text(u, t@) {
        let i = choose|i: int| occurs_at(u, t@, i);
        assert(u.subrange(i, i + t@.len()) == t@);
    }
    if exists|i: int| 0 <= i && i + t@.len() <= u.len() && #[trigger] u.subrange(i, i + t@.len()) == t@ {
        let i = choose|i: int| 0 <= i && i + t@.len() <= u.len() && #[trigger] u.subrange(i, i + t@.len()) == t@;
        assert(occurs_at(u, t@, i));
    }
}

/// `!` flips a boolean and inverts the bits of a number; `!` is the only
/// operator that takes one operand. A number constant is that number and a
/// string constant on its own is true.
pub proof fn lemma_not_and_constants(op: Operator, a: Expression, ctx: EvaluationContext, x: EvaluationResult, n: u64, t: String)
    requires
        spec_evaluate(a, ctx) == Ok::<EvaluationResult, EvaluationError>(x),
    ensures
        ({
            let r = spec_evaluate(Expression::Operation(op, Box::new(a), None), ctx);
            &&& op == Operator::Not ==> r == Ok::<EvaluationResult, EvaluationError>(
                match x {
                    EvaluationResult::Bool(b) => EvaluationResult::Bool(!b),
                    EvaluationResult::Number(m) => EvaluationResult::Number(!m),
                },
            )
            &&& op != Operator::Not ==> r == Err::<EvaluationResult, EvaluationError>(
                EvaluationError::IncorrectOperator { op },
            )
        }),
        spec_evaluate(Expression::Constant(Atom::Num(n)), ctx) == Ok::<EvaluationResult, EvaluationError>(
            EvaluationResult::Number(n),
        ),
        spec_evaluate(Expression::Constant(Atom::String(t)), ctx) == Ok::<EvaluationResult, EvaluationError>(
            EvaluationResult::Bool(true),
        ),
{
}

/// The names of the language's functions are told apart.
proof fn lemma_function_names_differ()
    ensures
        "IsInGroup"@.len() == 9,
        "HasRank"@.len() == 7,
        "HasRole"@.len() == 7,
        "WithString"@.len() == 10,
        "GetRank"@.len() == 7,
        "HasRank"@[4] != "HasRole"@[4],
        "HasRank"@[0] != "GetRank"@[0],
        "HasRole"@[0] != "GetRank"@[0],
{
    reveal_strlit("IsInGroup");
    reveal_strlit("HasRank");
    reveal_strlit("HasRole");
    reveal_strlit("WithString");
    reveal_strlit("GetRank");
}

} // verus!
