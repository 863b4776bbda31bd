//! The grammar of custom bind code.
//!
//! ```text
//! operation  := ws expression (ws operator ws expression)*
//! expression := comparison | negation | brackets | function | constant
//! comparison := ws term ws cmp-op ws term
//! term       := negation | brackets | function | constant
//! negation   := "not" ws+ term
//! brackets   := "(" (operation | expression) ")"
//! function   := alphanumeric+ "(" atom ")"
//! constant   := atom
//! atom       := digit+ | '"' alpha+ '"'
//! ```
//!
//! Alternatives are tried in order and the first one that succeeds is kept
//! (ordered choice); a repetition stops at the first element that fails and
//! keeps what came before it. Binary operators of an operation associate to
//! the left. A whole input is accepted only when the operation consumes all
//! of it.
use vstd::prelude::*;

use crate::text::{chars_of, decimal, digit_char, string_from_chars};
use vstd::string::StrSliceExecFns;

verus! {

/// The operators of the custom bind language.
#[derive(Clone, Copy, Debug, PartialEq, Eq, Structural)]
pub enum Operator {
    Greater,
    GreaterEqual,
    Less,
    LessEqual,
    Equal,
    Not,
    And,
    Or,
}

impl Operator {
    /// How the operator is written (its `Display` form).
    pub open spec fn text(self) -> Seq<char> {
        match self {
            Operator::Greater => ">"@,
            Operator::GreaterEqual => ">="@,
            Operator::Less => "<"@,
            Operator::LessEqual => "<="@,
            Operator::Equal => "=="@,
            Operator::Not => "not"@,
            Operator::And => "and"@,
            Operator::Or => "or"@,
        }
    }

    pub fn as_str(&self) -> (s: &'static str)
        ensures
            s@ == self.text(),
    {
        match self {
            Operator::Greater => ">",
            Operator::GreaterEqual => ">=",
            Operator::Less => "<",
            Operator::LessEqual => "<=",
            Operator::Equal => "==",
            Operator::Not => "not",
            Operator::And => "and",
            Operator::Or => "or",
        }
    }
}

/// A literal: a number or a (purely alphabetic) string.
#[derive(Clone, Debug, PartialEq, Eq)]
pub enum Atom {
    Num(u64),
    String(String),
}

/// A parsed custom bind expression.
#[derive(Debug, PartialEq, Eq)]
pub enum Expression {
    Constant(Atom),
    Function(String, Vec<Expression>),
    Operation(Operator, Box<Expression>, Option<Box<Expression>>),
}

/// The mathematical value of an [`Atom`].
pub enum AtomModel {
    Num(u64),
    Str(Seq<char>),
}

/// The mathematical value of an [`Expression`].
pub enum ExpressionModel {
    Constant(AtomModel),
    Function(Seq<char>, Seq<ExpressionModel>),
    Operation(Operator, Box<ExpressionModel>, Option<Box<ExpressionModel>>),
}

/// Input that the grammar does not accept.
#[derive(Clone, Copy, Debug, PartialEq, Eq, Structural)]
pub enum ParseError {
    /// The input is not a sentence of the grammar.
    Invalid,
}

impl ParseError {
    /// A human-readable account of the error.
    pub fn description(&self) -> (s: &'static str)
        ensures
            s@ == "the code is not a valid custom bind expression"@,
    {
        "the code is not a valid custom bind expression"
    }
}

pub open spec fn atom_model(a: Atom) -> AtomModel {
    match a {
        Atom::Num(n) => AtomModel::Num(n),
        Atom::String(s) => AtomModel::Str(s@),
    }
}

pub open spec fn expression_model(e: Expression) -> ExpressionModel
    decreases e,
{
    match e {
        Expression::Constant(a) => ExpressionModel::Constant(atom_model(a)),
        Expression::Function(name, args) => ExpressionModel::Function(
            name@,
            expressions_model(args@),
        ),
        Expression::Operation(op, lhs, rhs) => ExpressionModel::Operation(
            op,
            Box::new(expression_model(*lhs)),
            match rhs {
                Some(r) => Some(Box::new(expression_model(*r))),
                None => None,
            },
        ),
    }
}

pub open spec fn expressions_model(es: Seq<Expression>) -> Seq<ExpressionModel>
    decreases es,
{
    if es.len() == 0 {
        Seq::empty()
    } else {
        expressions_model(es.drop_last()).push(expression_model(es.last()))
    }
}

impl View for Atom {
    type V = AtomModel;

    open spec fn view(&self) -> AtomModel {
        atom_model(*self)
    }
}

impl View for Expression {
    type V = ExpressionModel;

    open spec fn view(&self) -> ExpressionModel {
        expression_model(*self)
    }
}

// ---------------------------------------------------------------------------
// Character classes (ASCII, as the grammar defines them)
// ---------------------------------------------------------------------------

pub open spec fn is_space(c: char) -> bool {
    c == ' ' || c == '\t' || c == '\r' || c == '\n'
}

pub open spec fn is_digit(c: char) -> bool {
    '0' <= c <= '9'
}

pub open spec fn is_alpha(c: char) -> bool {
    ('a' <= c <= 'z') || ('A' <= c <= 'Z')
}

pub open spec fn is_alphanumeric(c: char) -> bool {
    is_alpha(c) || is_digit(c)
}

/// The end of the longest run of characters satisfying `class`, starting at `p`.
pub open spec fn run_end(s: Seq<char>, p: int, class: spec_fn(char) -> bool) -> int
    decreases s.len() - p,
{
    if p < 0 || p >= s.len() || !class(s[p]) {
        p
    } else {
        run_end(s, p + 1, class)
    }
}

pub proof fn lemma_run_end(s: Seq<char>, p: int, class: spec_fn(char) -> bool)
    requires
        0 <= p <= s.len(),
    ensures
        p <= run_end(s, p, class) <= s.len(),
        forall|i: int| p <= i < run_end(s, p, class) ==> class(#[trigger] s[i]),
        run_end(s, p, class) < s.len() ==> !class(s[run_end(s, p, class)]),
    decreases s.len() - p,
{
    if p < s.len() && class(s[p]) {
        lemma_run_end(s, p + 1, class);
    }
}

pub open spec fn ws_end(s: Seq<char>, p: int) -> int {
    run_end(s, p, |c: char| is_space(c))
}

pub open spec fn digits_end(s: Seq<char>, p: int) -> int {
    run_end(s, p, |c: char| is_digit(c))
}

pub open spec fn alpha_end(s: Seq<char>, p: int) -> int {
    run_end(s, p, |c: char| is_alpha(c))
}

pub open spec fn alphanumeric_end(s: Seq<char>, p: int) -> int {
    run_end(s, p, |c: char| is_alphanumeric(c))
}

/// Does `s` hold the literal `lit` at position `p`?
pub open spec fn has_at(s: Seq<char>, p: int, lit: Seq<char>) -> bool {
    &&& 0 <= p
    &&& p + lit.len() <= s.len()
    &&& forall|i: int| 0 <= i < lit.len() ==> s[p + i] == lit[i]
}

// ---------------------------------------------------------------------------
// Specification of the grammar: each rule maps a position to the value it
// parses there and the position after it, or to `None` when it fails.
// ---------------------------------------------------------------------------

pub open spec fn spec_operator(s: Seq<char>, p: int) -> Option<(Operator, int)> {
    if has_at(s, p, seq!['>', '=']) {
        Some((Operator::GreaterEqual, p + 2))
    } else if has_at(s, p, seq!['>']) {
        Some((Operator::Greater, p + 1))
    } else if has_at(s, p, seq!['<', '=']) {
        Some((Operator::LessEqual, p + 2))
    } else if has_at(s, p, seq!['<']) {
        Some((Operator::Less, p + 1))
    } else if has_at(s, p, seq!['=', '=']) {
        Some((Operator::Equal, p + 2))
    } else if has_at(s, p, seq!['a', 'n', 'd']) {
        Some((Operator::And, p + 3))
    } else if has_at(s, p, seq!['o', 'r']) {
        Some((Operator::Or, p + 2))
    } else {
        None
    }
}

/// The comparison operators accepted between the two terms of a comparison.
pub open spec fn spec_comparison_operator(s: Seq<char>, p: int) -> Option<(Operator, int)> {
    match spec_operator(s, p) {
        Some((op, q)) => if op == Operator::And || op == Operator::Or {
            None
        } else {
            Some((op, q))
        },
        None => None,
    }
}

/// The value of a string of decimal digits.
pub open spec fn digits_value(ds: Seq<char>) -> nat
    decreases ds.len(),
{
    if ds.len() == 0 {
        0
    } else {
        digits_value(ds.drop_last()) * 10 + ((ds.last() as int - '0' as int) as nat)
    }
}

pub open spec fn spec_number(s: Seq<char>, p: int) -> Option<(AtomModel, int)> {
    let e = digits_end(s, p);
    if 0 <= p < e && digits_value(s.subrange(p, e)) <= u64::MAX {
        Some((AtomModel::Num(digits_value(s.subrange(p, e)) as u64), e))
    } else {
        None
    }
}

pub open spec fn spec_string(s: Seq<char>, p: int) -> Option<(AtomModel, int)> {
    let e = alpha_end(s, p + 1);
    if has_at(s, p, seq!['"']) && p + 1 < e && has_at(s, e, seq!['"']) {
        Some((AtomModel::Str(s.subrange(p + 1, e)), e + 1))
    } else {
        None
    }
}

pub open spec fn spec_atom(s: Seq<char>, p: int) -> Option<(AtomModel, int)> {
    match spec_number(s, p) {
        Some(r) => Some(r),
        None => spec_string(s, p),
    }
}

pub open spec fn spec_constant(s: Seq<char>, p: int) -> Option<(ExpressionModel, int)> {
    match spec_atom(s, p) {
        Some((a, q)) => Some((ExpressionModel::Constant(a), q)),
        None => None,
    }
}

pub open spec fn spec_function(s: Seq<char>, p: int) -> Option<(ExpressionModel, int)> {
    let e = alphanumeric_end(s, p);
    if 0 <= p < e && has_at(s, e, seq!['(']) {
        match spec_atom(s, e + 1) {
            Some((a, q)) => if has_at(s, q, seq![')']) {
                Some(
                    (
                        ExpressionModel::Function(
                            s.subrange(p, e),
                            seq![ExpressionModel::Constant(a)],
                        ),
                        q + 1,
                    ),
                )
            } else {
                None
            },
            None => None,
        }
    } else {
        None
    }
}

/// `operation := ws expression (ws operator ws expression)*`
pub open spec fn spec_operation(s: Seq<char>, p: int) -> Option<(ExpressionModel, int)>
    decreases s.len() - p, 6int,
{
    if 0 <= p <= s.len() {
        proof {
            lemma_run_end(s, p, |c: char| is_space(c));
        }
        match spec_expression(s, ws_end(s, p)) {
            Some((first, q)) => if p <= q <= s.len() {
                Some(spec_operation_rest(s, q, first))
            } else {
                None
            },
            None => None,
        }
    } else {
        None
    }
}

/// The repetition `(ws operator ws expression)*`, folding each element onto
/// `acc` from the left.
pub open spec fn spec_operation_rest(s: Seq<char>, p: int, acc: ExpressionModel) -> (
    ExpressionModel,
    int,
)
    decreases s.len() - p, 0int,
{
    if 0 <= p <= s.len() {
        proof {
            lemma_run_end(s, p, |c: char| is_space(c));
        }
        match spec_operator(s, ws_end(s, p)) {
            Some((op, q)) => {
                proof {
                    lemma_run_end(s, q, |c: char| is_space(c));
                }
                match spec_expression(s, ws_end(s, q)) {
                    Some((e, r)) => if p < r <= s.len() {
                        spec_operation_rest(
                            s,
                            r,
                            ExpressionModel::Operation(op, Box::new(acc), Some(Box::new(e))),
                        )
                    } else {
                        (acc, p)
                    },
                    None => (acc, p),
                }
            },
            None => (acc, p),
        }
    } else {
        (acc, p)
    }
}

/// `expression := comparison | negation | brackets | function | constant`
pub open spec fn spec_expression(s: Seq<char>, p: int) -> Option<(ExpressionModel, int)>
    decreases s.len() - p, 5int,
{
    if 0 <= p <= s.len() {
        match spec_comparison(s, p) {
            Some(r) => Some(r),
            None => match spec_negation(s, p) {
                Some(r) => Some(r),
                None => match spec_brackets(s, p) {
                    Some(r) => Some(r),
                    None => match spec_function(s, p) {
                        Some(r) => Some(r),
                        None => spec_constant(s, p),
                    },
                },
            },
        }
    } else {
        None
    }
}

/// `comparison := ws term ws cmp-op ws term`
pub open spec fn spec_comparison(s: Seq<char>, p: int) -> Option<(ExpressionModel, int)>
    decreases s.len() - p, 4int,
{
    if 0 <= p <= s.len() {
        proof {
            lemma_run_end(s, p, |c: char| is_space(c));
        }
        match spec_term(s, ws_end(s, p)) {
            Some((lhs, q)) => if p <= q <= s.len() {
                proof {
                    lemma_run_end(s, q, |c: char| is_space(c));
                }
                match spec_comparison_operator(s, ws_end(s, q)) {
                    Some((op, r)) => {
                        proof {
                            lemma_run_end(s, r, |c: char| is_space(c));
                        }
                        match spec_term(s, ws_end(s, r)) {
                            Some((rhs, t)) => Some(
                                (
                                    ExpressionModel::Operation(
                                        op,
                                        Box::new(lhs),
                                        Some(Box::new(rhs)),
                                    ),
                                    t,
                                ),
                            ),
                            None => None,
                        }
                    },
                    None => None,
                }
            } else {
                None
            },
            None => None,
        }
    } else {
        None
    }
}

/// `term := negation | brackets | function | constant`
pub open spec fn spec_term(s: Seq<char>, p: int) -> Option<(ExpressionModel, int)>
    decreases s.len() - p, 3int,
{
    if 0 <= p <= s.len() {
        match spec_negation(s, p) {
            Some(r) => Some(r),
            None => match spec_brackets(s, p) {
                Some(r) => Some(r),
                None => match spec_function(s, p) {
                    Some(r) => Some(r),
                    None => spec_constant(s, p),
                },
            },
        }
    } else {
        None
    }
}

/// `negation := "not" ws+ term`
pub open spec fn spec_negation(s: Seq<char>, p: int) -> Option<(ExpressionModel, int)>
    decreases s.len() - p, 1int,
{
    if 0 <= p <= s.len() && has_at(s, p, seq!['n', 'o', 't']) {
        proof {
            lemma_run_end(s, p + 3, |c: char| is_space(c));
        }
        let q = ws_end(s, p + 3);
        if q > p + 3 {
            match spec_term(s, q) {
                Some((e, r)) => Some((ExpressionModel::Operation(Operator::Not, Box::new(e), None), r)),
                None => None,
            }
        } else {
            None
        }
    } else {
        None
    }
}

/// `brackets := "(" (operation | expression) ")"`
pub open spec fn spec_brackets(s: Seq<char>, p: int) -> Option<(ExpressionModel, int)>
    decreases s.len() - p, 1int,
{
    if 0 <= p <= s.len() && has_at(s, p, seq!['(']) {
        let inner = match spec_operation(s, p + 1) {
            Some(r) => Some(r),
            None => spec_expression(s, p + 1),
        };
        match inner {
            Some((e, q)) => if has_at(s, q, seq![')']) {
                Some((e, q + 1))
            } else {
                None
            },
            None => None,
        }
    } else {
        None
    }
}

/// The expression that the whole of `s` denotes, if the grammar accepts it.
pub open spec fn spec_parser(s: Seq<char>) -> Option<ExpressionModel> {
    match spec_operation(s, 0) {
        Some((e, q)) => if q == s.len() {
            Some(e)
        } else {
            None
        },
        None => None,
    }
}

// ---------------------------------------------------------------------------
// Executable parser: each `*_at` function parses one rule at a position of a
// character buffer and returns exactly what the rule's specification gives.
// ---------------------------------------------------------------------------

/// `r` is the executable counterpart of the specification result `m`.
pub open spec fn parsed_as(r: Option<(Expression, usize)>, m: Option<(ExpressionModel, int)>) -> bool {
    match r {
        Some((e, q)) => m == Some((e@, q as int)),
        None => m is None,
    }
}

pub open spec fn atom_parsed_as(r: Option<(Atom, usize)>, m: Option<(AtomModel, int)>) -> bool {
    match r {
        Some((a, q)) => m == Some((a@, q as int)),
        None => m is None,
    }
}

pub open spec fn operator_parsed_as(r: Option<(Operator, usize)>, m: Option<(Operator, int)>) -> bool {
    match r {
        Some((o, q)) => m == Some((o, q as int)),
        None => m is None,
    }
}

pub open spec fn ends_within<T>(r: Option<(T, usize)>, len: nat) -> bool {
    r matches Some((_, q)) ==> q <= len
}

fn is_space_char(c: char) -> (r: bool)
    ensures
        r == is_space(c),
{
    c == ' ' || c == '\t' || c == '\r' || c == '\n'
}

fn is_digit_char(c: char) -> (r: bool)
    ensures
        r == is_digit(c),
{
    '0' <= c && c <= '9'
}

fn is_alpha_char(c: char) -> (r: bool)
    ensures
        r == is_alpha(c),
{
    ('a' <= c && c <= 'z') || ('A' <= c && c <= 'Z')
}

fn is_alphanumeric_char(c: char) -> (r: bool)
    ensures
        r == is_alphanumeric(c),
{
    is_alpha_char(c) || is_digit_char(c)
}

fn ws_end_at(s: &[char], p: usize) -> (e: usize)
    requires
        p <= s@.len(),
    ensures
        e == ws_end(s@, p as int),
        p <= e <= s@.len(),
{
    let mut i = p;
    while i < s.len() && is_space_char(s[i])
        invariant
            p <= i <= s@.len(),
            ws_end(s@, i as int) == ws_end(s@, p as int),
        decreases s@.len() - i,
    {
        i = i + 1;
    }
    i
}

fn digits_end_at(s: &[char], p: usize) -> (e: usize)
    requires
        p <= s@.len(),
    ensures
        e == digits_end(s@, p as int),
        p <= e <= s@.len(),
{
    let mut i = p;
    while i < s.len() && is_digit_char(s[i])
        invariant
            p <= i <= s@.len(),
            digits_end(s@, i as int) == digits_end(s@, p as int),
        decreases s@.len() - i,
    {
        i = i + 1;
    }
    i
}

fn alpha_end_at(s: &[char], p: usize) -> (e: usize)
    requires
        p <= s@.len(),
    ensures
        e == alpha_end(s@, p as int),
        p <= e <= s@.len(),
{
    let mut i = p;
    while i < s.len() && is_alpha_char(s[i])
        invariant
            p <= i <= s@.len(),
            alpha_end(s@, i as int) == alpha_end(s@, p as int),
        decreases s@.len() - i,
    {
        i = i + 1;
    }
    i
}

fn alphanumeric_end_at(s: &[char], p: usize) -> (e: usize)
    requires
        p <= s@.len(),
    ensures
        e == alphanumeric_end(s@, p as int),
        p <= e <= s@.len(),
{
    let mut i = p;
    while i < s.len() && is_alphanumeric_char(s[i])
        invariant
            p <= i <= s@.len(),
            alphanumeric_end(s@, i as int) == alphanumeric_end(s@, p as int),
        decreases s@.len() - i,
    {
        i = i + 1;
    }
    i
}

/// Does `s` hold the character `a` at position `p`?
fn char_at(s: &[char], p: usize, a: char) -> (r: bool)
    ensures
        r == has_at(s@, p as int, seq![a]),
        r ==> p < s.len(),
{
    let r = p < s.len() && s[p] == a;
    proof {
        if !r && p < s@.len() {
            assert(s@[p + 0] != seq![a][0]);
        }
    }
    r
}

/// Does `s` hold the two characters `a b` at position `p`?
fn chars2_at(s: &[char], p: usize, a: char, b: char) -> (r: bool)
    ensures
        r == has_at(s@, p as int, seq![a, b]),
        r ==> p + 2 <= s.len(),
{
    let r = p < s.len() && s.len() - p >= 2 && s[p] == a && s[p + 1] == b;
    proof {
        if !r && p + 2 <= s@.len() {
            if s@[p as int] != a {
                assert(s@[p + 0] != seq![a, b][0]);
            } else {
                assert(s@[p + 1] != seq![a, b][1]);
            }
        }
    }
    r
}

/// Does `s` hold the three characters `a b c` at position `p`?
fn chars3_at(s: &[char], p: usize, a: char, b: char, c: char) -> (r: bool)
    ensures
        r == has_at(s@, p as int, seq![a, b, c]),
        r ==> p + 3 <= s.len(),
{
    let r = p < s.len() && s.len() - p >= 3 && s[p] == a && s[p + 1] == b && s[p + 2] == c;
    proof {
        if !r && p + 3 <= s@.len() {
            if s@[p as int] != a {
                assert(s@[p + 0] != seq![a, b, c][0]);
            } else if s@[p + 1] != b {
                assert(s@[p + 1] != seq![a, b, c][1]);
            } else {
                assert(s@[p + 2] != seq![a, b, c][2]);
            }
        }
    }
    r
}

fn operator_at(s: &[char], p: usize) -> (r: Option<(Operator, usize)>)
    ensures
        operator_parsed_as(r, spec_operator(s@, p as int)),
        ends_within(r, s@.len()),
{
    if chars2_at(s, p, '>', '=') {
        Some((Operator::GreaterEqual, p + 2))
    } else if char_at(s, p, '>') {
        Some((Operator::Greater, p + 1))
    } else if chars2_at(s, p, '<', '=') {
        Some((Operator::LessEqual, p + 2))
    } else if char_at(s, p, '<') {
        Some((Operator::Less, p + 1))
    } else if chars2_at(s, p, '=', '=') {
        Some((Operator::Equal, p + 2))
    } else if chars3_at(s, p, 'a', 'n', 'd') {
        Some((Operator::And, p + 3))
    } else if chars2_at(s, p, 'o', 'r') {
        Some((Operator::Or, p + 2))
    } else {
        None
    }
}

pub proof fn lemma_digits_value_prefix(t: Seq<char>, k: int)
    requires
        0 <= k <= t.len(),
    ensures
        digits_value(t.take(k)) <= digits_value(t),
    decreases t.len() - k,
{
    if k < t.len() {
        lemma_digits_value_prefix(t, k + 1);
        assert(t.take(k + 1).drop_last() =~= t.take(k));
    } else {
        assert(t.take(k) =~= t);
    }
}

pub proof fn lemma_expressions_model_single(e: Expression)
    ensures
        expressions_model(seq![e]) == seq![e@],
{
    assert(seq![e].drop_last() =~= Seq::<Expression>::empty());
    assert(expressions_model(Seq::<Expression>::empty()) =~= Seq::<ExpressionModel>::empty());
    assert(expressions_model(seq![e]) =~= seq![e@]);
}

fn number_at(s: &[char], p: usize) -> (r: Option<(Atom, usize)>)
    ensures
        atom_parsed_as(r, spec_number(s@, p as int)),
        ends_within(r, s@.len()),
{
    if p > s.len() {
        return None;
    }
    let e = digits_end_at(s, p);
    if e == p {
        return None;
    }
    let ghost t = s@.subrange(p as int, e as int);
    proof {
        lemma_run_end(s@, p as int, |c: char| is_digit(c));
    }
    let mut v: u64 = 0;
    let mut i = p;
    while i < e
        invariant
            p <= i <= e <= s@.len(),
            e == digits_end(s@, p as int),
            t == s@.subrange(p as int, e as int),
            forall|j: int| p <= j < e ==> is_digit(#[trigger] s@[j]),
            v == digits_value(s@.subrange(p as int, i as int)),
        decreases e - i,
    {
        let c = s[i];
        assert(is_digit(s@[i as int]));
        let d: u64 = (c as u32 - '0' as u32) as u64;
        assert(s@.subrange(p as int, i + 1).drop_last() =~= s@.subrange(p as int, i as int));
        assert(s@.subrange(p as int, i + 1).last() == c);
        assert(s@.subrange(p as int, i + 1) =~= t.take(i + 1 - p));
        match v.checked_mul(10) {
            None => {
                proof {
                    lemma_digits_value_prefix(t, i + 1 - p);
                }
                return None;
            },
            Some(m) => match m.checked_add(d) {
                None => {
                    proof {
                        lemma_digits_value_prefix(t, i + 1 - p);
                    }
                    return None;
                },
                Some(n) => {
                    v = n;
                },
            },
        }
        i = i + 1;
    }
    Some((Atom::Num(v), e))
}

fn string_at(s: &[char], p: usize) -> (r: Option<(Atom, usize)>)
    ensures
        atom_parsed_as(r, spec_string(s@, p as int)),
        ends_within(r, s@.len()),
{
    if !char_at(s, p, '"') {
        return None;
    }
    let e = alpha_end_at(s, p + 1);
    if e == p + 1 {
        return None;
    }
    if !char_at(s, e, '"') {
        return None;
    }
    let text = string_from_chars(s, p + 1, e);
    Some((Atom::String(text), e + 1))
}

fn atom_at(s: &[char], p: usize) -> (r: Option<(Atom, usize)>)
    ensures
        atom_parsed_as(r, spec_atom(s@, p as int)),
        ends_within(r, s@.len()),
{
    match number_at(s, p) {
        Some(r) => Some(r),
        None => string_at(s, p),
    }
}

fn constant_at(s: &[char], p: usize) -> (r: Option<(Expression, usize)>)
    ensures
        parsed_as(r, spec_constant(s@, p as int)),
        ends_within(r, s@.len()),
{
    match atom_at(s, p) {
        Some((a, q)) => Some((Expression::Constant(a), q)),
        None => None,
    }
}

fn function_at(s: &[char], p: usize) -> (r: Option<(Expression, usize)>)
    ensures
        parsed_as(r, spec_function(s@, p as int)),
        ends_within(r, s@.len()),
{
    if p > s.len() {
        return None;
    }
    let e = alphanumeric_end_at(s, p);
    if e == p || !char_at(s, e, '(') {
        return None;
    }
    match atom_at(s, e + 1) {
        Some((a, q)) => if char_at(s, q, ')') {
            let name = string_from_chars(s, p, e);
            let arg = Expression::Constant(a);
            let ghost arg_model = arg;
            let mut args: Vec<Expression> = Vec::new();
            args.push(arg);
            proof {
                assert(args@ =~= seq![arg_model]);
                lemma_expressions_model_single(arg_model);
            }
            Some((Expression::Function(name, args), q + 1))
        } else {
            None
        },
        None => None,
    }
}

fn comparison_operator_at(s: &[char], p: usize) -> (r: Option<(Operator, usize)>)
    ensures
        operator_parsed_as(r, spec_comparison_operator(s@, p as int)),
        ends_within(r, s@.len()),
{
    match operator_at(s, p) {
        Some((op, q)) => match op {
            Operator::And | Operator::Or => None,
            _ => Some((op, q)),
        },
        None => None,
    }
}

fn operation_at(s: &[char], p: usize) -> (r: Option<(Expression, usize)>)
    requires
        p <= s@.len(),
    ensures
        parsed_as(r, spec_operation(s@, p as int)),
        ends_within(r, s@.len()),
    decreases s@.len() - p, 6int,
{
    let w = ws_end_at(s, p);
    match expression_at(s, w) {
        None => None,
        Some((first, q)) => {
            if q < p || q > s.len() {
                return None;
            }
            let ghost first_model = first@;
            let mut acc = first;
            let mut pos = q;
            loop
                invariant
                    p <= q <= pos <= s@.len(),
                    spec_operation(s@, p as int) == Some(
                        spec_operation_rest(s@, q as int, first_model),
                    ),
                    spec_operation_rest(s@, pos as int, acc@) == spec_operation_rest(
                        s@,
                        q as int,
                        first_model,
                    ),
                decreases s@.len() - pos,
            {
                let w1 = ws_end_at(s, pos);
                match operator_at(s, w1) {
                    None => {
                        return Some((acc, pos));
                    },
                    Some((op, q1)) => {
                        let w2 = ws_end_at(s, q1);
                        match expression_at(s, w2) {
                            None => {
                                return Some((acc, pos));
                            },
                            Some((e, r)) => {
                                if r <= pos || r > s.len() {
                                    return Some((acc, pos));
                                }
                                acc = Expression::Operation(op, Box::new(acc), Some(Box::new(e)));
                                pos = r;
                            },
                        }
                    },
                }
            }
        },
    }
}

fn expression_at(s: &[char], p: usize) -> (r: Option<(Expression, usize)>)
    requires
        p <= s@.len(),
    ensures
        parsed_as(r, spec_expression(s@, p as int)),
        ends_within(r, s@.len()),
    decreases s@.len() - p, 5int,
{
    if let Some(r) = comparison_at(s, p) {
        return Some(r);
    }
    if let Some(r) = negation_at(s, p) {
        return Some(r);
    }
    if let Some(r) = brackets_at(s, p) {
        return Some(r);
    }
    if let Some(r) = function_at(s, p) {
        return Some(r);
    }
    constant_at(s, p)
}

fn comparison_at(s: &[char], p: usize) -> (r: Option<(Expression, usize)>)
    requires
        p <= s@.len(),
    ensures
        parsed_as(r, spec_comparison(s@, p as int)),
        ends_within(r, s@.len()),
    decreases s@.len() - p, 4int,
{
    let w = ws_end_at(s, p);
    let (lhs, q) = match term_at(s, w) {
        Some(r) => r,
        None => {
            return None;
        },
    };
    if q < p || q > s.len() {
        return None;
    }
    let w1 = ws_end_at(s, q);
    let (op, r) = match comparison_operator_at(s, w1) {
        Some(x) => x,
        None => {
            return None;
        },
    };
    let w2 = ws_end_at(s, r);
    match term_at(s, w2) {
        Some((rhs, t)) => Some((Expression::Operation(op, Box::new(lhs), Some(Box::new(rhs))), t)),
        None => None,
    }
}

fn term_at(s: &[char], p: usize) -> (r: Option<(Expression, usize)>)
    requires
        p <= s@.len(),
    ensures
        parsed_as(r, spec_term(s@, p as int)),
        ends_within(r, s@.len()),
    decreases s@.len() - p, 3int,
{
    if let Some(r) = negation_at(s, p) {
        return Some(r);
    }
    if let Some(r) = brackets_at(s, p) {
        return Some(r);
    }
    if let Some(r) = function_at(s, p) {
        return Some(r);
    }
    constant_at(s, p)
}

fn negation_at(s: &[char], p: usize) -> (r: Option<(Expression, usize)>)
    requires
        p <= s@.len(),
    ensures
        parsed_as(r, spec_negation(s@, p as int)),
        ends_within(r, s@.len()),
    decreases s@.len() - p, 1int,
{
    if !chars3_at(s, p, 'n', 'o', 't') {
        return None;
    }
    let q = ws_end_at(s, p + 3);
    if q == p + 3 {
        return None;
    }
    match term_at(s, q) {
        Some((e, r)) => Some((Expression::Operation(Operator::Not, Box::new(e), None), r)),
        None => None,
    }
}

fn brackets_at(s: &[char], p: usize) -> (r: Option<(Expression, usize)>)
    requires
        p <= s@.len(),
    ensures
        parsed_as(r, spec_brackets(s@, p as int)),
        ends_within(r, s@.len()),
    decreases s@.len() - p, 1int,
{
    if !char_at(s, p, '(') {
        return None;
    }
    let inner = match operation_at(s, p + 1) {
        Some(r) => Some(r),
        None => expression_at(s, p + 1),
    };
    match inner {
        Some((e, q)) => if char_at(s, q, ')') {
            Some((e, q + 1))
        } else {
            None
        },
        None => None,
    }
}

// ---------------------------------------------------------------------------
// Public entry points on text: each parses one rule at the start of `i` and
// returns the rest of the input together with the value.
// ---------------------------------------------------------------------------

/// `r` is what parsing a rule whose specification gives `m` at the start of
/// `i` returns: the unconsumed rest of `i` and the expression, or an error.
pub open spec fn text_parsed_as<'a>(
    i: Seq<char>,
    r: Result<(&'a str, Expression), ParseError>,
    m: Option<(ExpressionModel, int)>,
) -> bool {
    match m {
        Some((em, q)) => r matches Ok((rest, e)) && e@ == em && rest@ == i.subrange(q, i.len() as int),
        None => r is Err,
    }
}

pub open spec fn text_atom_parsed_as<'a>(
    i: Seq<char>,
    r: Result<(&'a str, Atom), ParseError>,
    m: Option<(AtomModel, int)>,
) -> bool {
    match m {
        Some((am, q)) => r matches Ok((rest, a)) && a@ == am && rest@ == i.subrange(q, i.len() as int),
        None => r is Err,
    }
}

fn finish_expression<'a>(i: &'a str, len: usize, r: Option<(Expression, usize)>) -> (res: Result<
    (&'a str, Expression),
    ParseError,
>)
    requires
        len == i@.len(),
        ends_within(r, i@.len()),
    ensures
        r matches Some((e, q)) ==> res matches Ok((rest, e2)) && e2 == e && rest@ == i@.subrange(
            q as int,
            i@.len() as int,
        ),
        r is None ==> res is Err,
{
    match r {
        Some((e, q)) => Ok((i.substring_char(q, len), e)),
        None => Err(ParseError::Invalid),
    }
}

fn finish_atom<'a>(i: &'a str, len: usize, r: Option<(Atom, usize)>) -> (res: Result<
    (&'a str, Atom),
    ParseError,
>)
    requires
        len == i@.len(),
        ends_within(r, i@.len()),
    ensures
        r matches Some((a, q)) ==> res matches Ok((rest, a2)) && a2 == a && rest@ == i@.subrange(
            q as int,
            i@.len() as int,
        ),
        r is None ==> res is Err,
{
    match r {
        Some((a, q)) => Ok((i.substring_char(q, len), a)),
        None => Err(ParseError::Invalid),
    }
}

/// Parses one binary operator (`>=`, `>`, `<=`, `<`, `==`, `and`, `or`).
pub fn parse_operator(i: &str) -> (r: Result<(&str, Operator), ParseError>)
    ensures
        match spec_operator(i@, 0) {
            Some((op, q)) => r matches Ok((rest, o)) && o == op && rest@ == i@.subrange(
                q,
                i@.len() as int,
            ),
            None => r is Err,
        },
{
    let cs = chars_of(i);
    match operator_at(cs.as_slice(), 0) {
        Some((op, q)) => Ok((i.substring_char(q, cs.len()), op)),
        None => Err(ParseError::Invalid),
    }
}

/// Parses a decimal number that fits in a `u64`.
pub fn parse_number(i: &str) -> (r: Result<(&str, Atom), ParseError>)
    ensures
        text_atom_parsed_as(i@, r, spec_number(i@, 0)),
{
    let cs = chars_of(i);
    let r = number_at(cs.as_slice(), 0);
    finish_atom(i, cs.len(), r)
}

/// Parses a double-quoted, purely alphabetic string.
pub fn parse_string(i: &str) -> (r: Result<(&str, Atom), ParseError>)
    ensures
        text_atom_parsed_as(i@, r, spec_string(i@, 0)),
{
    let cs = chars_of(i);
    let r = string_at(cs.as_slice(), 0);
    finish_atom(i, cs.len(), r)
}

/// Parses a number or, failing that, a string.
pub fn parse_atom(i: &str) -> (r: Result<(&str, Atom), ParseError>)
    ensures
        text_atom_parsed_as(i@, r, spec_atom(i@, 0)),
{
    let cs = chars_of(i);
    let r = atom_at(cs.as_slice(), 0);
    finish_atom(i, cs.len(), r)
}

/// Parses an atom as a constant expression.
pub fn parse_constant(i: &str) -> (r: Result<(&str, Expression), ParseError>)
    ensures
        text_parsed_as(i@, r, spec_constant(i@, 0)),
{
    let cs = chars_of(i);
    let r = constant_at(cs.as_slice(), 0);
    finish_expression(i, cs.len(), r)
}

/// Parses a function call with a single atom argument, such as `IsInGroup(1)`.
pub fn parse_function(i: &str) -> (r: Result<(&str, Expression), ParseError>)
    ensures
        text_parsed_as(i@, r, spec_function(i@, 0)),
{
    let cs = chars_of(i);
    let r = function_at(cs.as_slice(), 0);
    finish_expression(i, cs.len(), r)
}

/// Parses a parenthesised operation or expression.
pub fn parse_brackets(i: &str) -> (r: Result<(&str, Expression), ParseError>)
    ensures
        text_parsed_as(i@, r, spec_brackets(i@, 0)),
{
    let cs = chars_of(i);
    let r = brackets_at(cs.as_slice(), 0);
    finish_expression(i, cs.len(), r)
}

/// Parses a comparison of two terms.
pub fn parse_comparison(i: &str) -> (r: Result<(&str, Expression), ParseError>)
    ensures
        text_parsed_as(i@, r, spec_comparison(i@, 0)),
{
    let cs = chars_of(i);
    let r = comparison_at(cs.as_slice(), 0);
    finish_expression(i, cs.len(), r)
}

/// Parses a negation, brackets, function call or constant.
pub fn parse_term(i: &str) -> (r: Result<(&str, Expression), ParseError>)
    ensures
        text_parsed_as(i@, r, spec_term(i@, 0)),
{
    let cs = chars_of(i);
    let r = term_at(cs.as_slice(), 0);
    finish_expression(i, cs.len(), r)
}

/// Parses `not` followed by whitespace and a term.
pub fn parse_negation(i: &str) -> (r: Result<(&str, Expression), ParseError>)
    ensures
        text_parsed_as(i@, r, spec_negation(i@, 0)),
{
    let cs = chars_of(i);
    let r = negation_at(cs.as_slice(), 0);
    finish_expression(i, cs.len(), r)
}

/// Parses a sequence of expressions joined by operators, left to right.
pub fn parse_operation(i: &str) -> (r: Result<(&str, Expression), ParseError>)
    ensures
        text_parsed_as(i@, r, spec_operation(i@, 0)),
{
    let cs = chars_of(i);
    let r = operation_at(cs.as_slice(), 0);
    finish_expression(i, cs.len(), r)
}

/// Parses one expression.
pub fn parse_expression(i: &str) -> (r: Result<(&str, Expression), ParseError>)
    ensures
        text_parsed_as(i@, r, spec_expression(i@, 0)),
{
    let cs = chars_of(i);
    let r = expression_at(cs.as_slice(), 0);
    finish_expression(i, cs.len(), r)
}

/// Parses a whole piece of custom bind code.
pub fn parser(code: &str) -> (r: Result<Expression, ParseError>)
    ensures
        match spec_parser(code@) {
            Some(m) => r matches Ok(e) && e@ == m,
            None => r is Err,
        },
{
    let cs = chars_of(code);
    match operation_at(cs.as_slice(), 0) {
        Some((e, q)) => if q == cs.len() {
            Ok(e)
        } else {
            Err(ParseError::Invalid)
        },
        None => Err(ParseError::Invalid),
    }
}

proof fn lemma_decimal_digits(n: nat)
    ensures
        decimal(n).len() >= 1,
        forall|i: int| 0 <= i < decimal(n).len() ==> is_digit(#[trigger] decimal(n)[i]),
        digits_value(decimal(n)) == n,
    decreases n,
{
    assert(digit_char(n % 10) as int == '0' as int + n % 10);
    assert(decimal(n).last() == digit_char(n % 10));
    assert(digits_value(decimal(n)) == digits_value(decimal(n).drop_last()) * 10 + ((decimal(n).last() as int
        - '0' as int) as nat));
    if n < 10 {
        assert(decimal(n).drop_last() =~= Seq::<char>::empty());
        assert(digits_value(Seq::<char>::empty()) == 0);
    } else {
        lemma_decimal_digits(n / 10);
        let d = decimal(n / 10);
        assert(decimal(n).drop_last() =~= d);
        assert((n / 10) * 10 + n % 10 == n);
        assert forall|i: int| 0 <= i < decimal(n).len() implies is_digit(#[trigger] decimal(n)[i]) by {
            if i < d.len() {
                assert(decimal(n)[i] == d[i]);
            }
        }
    }
}

proof fn lemma_run_end_all(s: Seq<char>, p: int)
    requires
        0 <= p <= s.len(),
        forall|i: int| p <= i < s.len() ==> is_digit(#[trigger] s[i]),
    ensures
        digits_end(s, p) == s.len(),
    decreases s.len() - p,
{
    if p < s.len() {
        lemma_run_end_all(s, p + 1);
    }
}

/// A number written in decimal is read back as itself, taking the whole text.
pub proof fn lemma_number_round_trip(n: u64)
    ensures
        spec_number(decimal(n as nat), 0) == Some((AtomModel::Num(n), decimal(n as nat).len() as int)),
{
    let s = decimal(n as nat);
    lemma_decimal_digits(n as nat);
    lemma_run_end_all(s, 0);
    assert(s.subrange(0, s.len() as int) =~= s);
}

} // verus!
