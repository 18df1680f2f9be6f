//! Evaluation: what an expression is worth once its variables are resolved.
//!
//! The meaning of evaluation is the spec function [`eval`], a function of the
//! tree and of the answers to the names of its variables.  Both operands of a
//! binary expression are always evaluated, the left one first, also under
//! `and` and `or`; the first failure is the result.
//!
//! A [`VariableLookup`] is the host's code, and nothing is assumed of it.
//! The relation [`may_evaluate`] therefore says what an evaluation through a
//! lookup can return, in terms of what the lookup can return; where the
//! lookup answers each name in one way only, that is `eval` under those
//! answers ([`lemma_single_answers`]).

use crate::ast::{EmptyLookup, Expr, ExprView, Kind, Operator, Value, ValueView, VariableLookup};
use crate::ast::{answer_view, lemma_list_view, views_of};
use crate::error::{Error, ErrorView};
use crate::text::{chars_of, compare_chars, contains_chars, is_substring, lex_order, Order};
use vstd::prelude::*;

verus! {

/// Answers to names: for each name a value, or the reason why there is none.
pub type Env = spec_fn(Seq<char>) -> Result<ValueView, Seq<char>>;

/// The result of an evaluation, by the views of the value or of the error.
pub open spec fn outcome(r: Result<Value, Error>) -> Result<ValueView, ErrorView> {
    match r {
        Ok(value) => Ok(value@),
        Err(error) => Err(error@),
    }
}

/// The reason given when a lookup answers with a variable instead of a value.
pub open spec fn unresolved_reason() -> Seq<char> {
    "Variable resolved to another variable."@
}

/// What the answer of a lookup is worth.  A value is itself and a failure is
/// a `LookupError` with the host's reason.  An answer that is itself a
/// variable is rejected: variables are resolved once, never chased.
pub open spec fn settle(answer: Result<ValueView, Seq<char>>) -> Result<ValueView, ErrorView> {
    match answer {
        Ok(found) => if found is Variable {
            Err(ErrorView::LookupError(unresolved_reason()))
        } else {
            Ok(found)
        },
        Err(reason) => Err(ErrorView::LookupError(reason)),
    }
}

/// What a leaf is worth: a variable is what its name is answered with, every
/// other value is itself.
pub open spec fn resolve(v: ValueView, env: Env) -> Result<ValueView, ErrorView> {
    match v {
        ValueView::Variable(name) => settle(env(name)),
        _ => Ok(v),
    }
}

/// The order of two values, where they have one: two booleans (`false` before
/// `true`), two strings (lexicographic) or two integers (numeric).
pub open spec fn order_of(a: ValueView, b: ValueView) -> Option<Order> {
    match (a, b) {
        (ValueView::Bool(x), ValueView::Bool(y)) => Some(
            if x == y {
                Order::Equal
            } else if y {
                Order::Less
            } else {
                Order::Greater
            },
        ),
        (ValueView::Str(x), ValueView::Str(y)) => Some(lex_order(x, y)),
        (ValueView::Int(x), ValueView::Int(y)) => Some(
            if x < y {
                Order::Less
            } else if x == y {
                Order::Equal
            } else {
                Order::Greater
            },
        ),
        _ => None,
    }
}

/// Whether the ordering operator `op` holds of two values that stand in
/// order `o`.
pub open spec fn holds(op: Operator, o: Order) -> bool {
    match op {
        Operator::Lt => o is Less,
        Operator::Le => o is Less || o is Equal,
        Operator::Gt => o is Greater,
        Operator::Ge => o is Greater || o is Equal,
        _ => false,
    }
}

/// The boolean that a value holds, or the mismatch.
pub open spec fn bool_of(v: ValueView) -> Result<bool, ErrorView> {
    match v {
        ValueView::Bool(b) => Ok(b),
        _ => Err(ErrorView::TypeMismatch { expected: Kind::Bool, actual: v.kind() }),
    }
}

/// The string that a value holds, or the mismatch.
pub open spec fn string_of(v: ValueView) -> Result<Seq<char>, ErrorView> {
    match v {
        ValueView::Str(s) => Ok(s),
        _ => Err(ErrorView::TypeMismatch { expected: Kind::Str, actual: v.kind() }),
    }
}

/// The integer that a value holds, or the mismatch.
pub open spec fn int_of(v: ValueView) -> Result<int, ErrorView> {
    match v {
        ValueView::Int(n) => Ok(n),
        _ => Err(ErrorView::TypeMismatch { expected: Kind::Int, actual: v.kind() }),
    }
}

/// `a contains b`: membership in a list, or a substring of a string.
pub open spec fn contains_of(a: ValueView, b: ValueView) -> Result<bool, ErrorView> {
    match (a, b) {
        (ValueView::List(items), _) => Ok(items.contains(b)),
        (ValueView::Str(hay), ValueView::Str(needle)) => Ok(is_substring(needle, hay)),
        _ => Err(ErrorView::InvalidOperands { left: a.kind(), right: b.kind() }),
    }
}

/// The conjunction or disjunction of two values; the left operand is checked
/// first, and both are checked whatever the left one holds.
pub open spec fn connect(op: Operator, a: ValueView, b: ValueView) -> Result<bool, ErrorView> {
    match bool_of(a) {
        Err(error) => Err(error),
        Ok(x) => match bool_of(b) {
            Err(error) => Err(error),
            Ok(y) => Ok(if op == Operator::And { x && y } else { x || y }),
        },
    }
}

/// The result of `op` on two resolved values.
pub open spec fn apply_operator(op: Operator, a: ValueView, b: ValueView) -> Result<
    ValueView,
    ErrorView,
> {
    match op {
        Operator::Eq => Ok(ValueView::Bool(a == b)),
        Operator::Ne => Ok(ValueView::Bool(a != b)),
        Operator::Lt | Operator::Le | Operator::Gt | Operator::Ge => match order_of(a, b) {
            Some(o) => Ok(ValueView::Bool(holds(op, o))),
            None => Err(ErrorView::Incomparable { left: a.kind(), right: b.kind() }),
        },
        Operator::Contains => match contains_of(a, b) {
            Ok(found) => Ok(ValueView::Bool(found)),
            Err(error) => Err(error),
        },
        Operator::And | Operator::Or => match connect(op, a, b) {
            Ok(both) => Ok(ValueView::Bool(both)),
            Err(error) => Err(error),
        },
    }
}

/// The result of a binary expression from the results of its operands: the
/// failure of the left one, else the failure of the right one, else the
/// operator applied to the two values.
pub open spec fn combine(
    op: Operator,
    a: Result<ValueView, ErrorView>,
    b: Result<ValueView, ErrorView>,
) -> Result<ValueView, ErrorView> {
    match a {
        Err(error) => Err(error),
        Ok(x) => match b {
            Err(error) => Err(error),
            Ok(y) => apply_operator(op, x, y),
        },
    }
}

/// What an expression is worth under the answers `env`.
pub open spec fn eval(e: ExprView, env: Env) -> Result<ValueView, ErrorView>
    decreases e,
{
    match e {
        ExprView::Value(v) => resolve(v, env),
        ExprView::BinaryExpr(op, left, right) => combine(op, eval(*left, env), eval(*right, env)),
    }
}

/// Whether `lookup` can answer `name` with `answer`.
pub open spec fn may_answer<T: VariableLookup + ?Sized>(
    lookup: &T,
    name: Seq<char>,
    answer: Result<ValueView, Seq<char>>,
) -> bool {
    exists|asked: &str, given: Result<Value, String>|
        asked@ == name && #[trigger] call_ensures(T::get_variable, (lookup, asked), given)
            && answer_view(given) == answer
}

/// Whether resolving the leaf `v` through `lookup` can give `out`.
pub open spec fn may_resolve<T: VariableLookup + ?Sized>(
    v: ValueView,
    lookup: &T,
    out: Result<ValueView, ErrorView>,
) -> bool {
    match v {
        ValueView::Variable(name) => exists|answer: Result<ValueView, Seq<char>>|
            #[trigger] may_answer(lookup, name, answer) && out == settle(answer),
        _ => out == Ok::<ValueView, ErrorView>(v),
    }
}

/// Whether evaluating `e` through `lookup` can give `out`.  The left operand
/// of a binary expression is evaluated first; the right one is evaluated if
/// and only if the left one gave a value.
pub open spec fn may_evaluate<T: VariableLookup + ?Sized>(
    e: ExprView,
    lookup: &T,
    out: Result<ValueView, ErrorView>,
) -> bool
    decreases e,
{
    match e {
        ExprView::Value(v) => may_resolve(v, lookup, out),
        ExprView::BinaryExpr(op, left, right) => exists|
            a: Result<ValueView, ErrorView>,
            b: Result<ValueView, ErrorView>,
        |
            out == #[trigger] combine(op, a, b) && may_evaluate(*left, lookup, a) && (a is Ok
                ==> may_evaluate(*right, lookup, b)),
    }
}

/// Whether the variable `name` occurs in `e`.
pub open spec fn occurs(e: ExprView, name: Seq<char>) -> bool
    decreases e,
{
    match e {
        ExprView::Value(v) => v == ValueView::Variable(name),
        ExprView::BinaryExpr(_, left, right) => occurs(*left, name) || occurs(*right, name),
    }
}

/// Whether `lookup` answers each variable of `e` in one way only, the one
/// that `env` gives.
pub open spec fn answers_as<T: VariableLookup + ?Sized>(lookup: &T, e: ExprView, env: Env) -> bool {
    forall|name: Seq<char>, answer: Result<ValueView, Seq<char>>|
        occurs(e, name) && #[trigger] may_answer(lookup, name, answer) ==> answer == env(name)
}

/// Evaluation is a function of the tree and of the answers of the lookup:
/// where the lookup answers every variable of `e` as `env` does, whatever an
/// evaluation of `e` through it returns is `eval(e, env)`, the same value or
/// the same error each time.
pub proof fn lemma_single_answers<T: VariableLookup + ?Sized>(
    e: ExprView,
    lookup: &T,
    env: Env,
    out: Result<ValueView, ErrorView>,
)
    requires
        answers_as(lookup, e, env),
        may_evaluate(e, lookup, out),
    ensures
        out == eval(e, env),
    decreases e,
{
    match e {
        ExprView::Value(v) => {},
        ExprView::BinaryExpr(op, left, right) => {
            let (a, b) = choose|a: Result<ValueView, ErrorView>, b: Result<ValueView, ErrorView>|
                out == #[trigger] combine(op, a, b) && may_evaluate(*left, lookup, a) && (a is Ok
                    ==> may_evaluate(*right, lookup, b));
            assert(answers_as(lookup, *left, env));
            lemma_single_answers(*left, lookup, env, a);
            if a is Ok {
                assert(answers_as(lookup, *right, env));
                lemma_single_answers(*right, lookup, env, b);
            }
        },
    }
}

/// Whether no variable occurs in `e`, so that no lookup has a say in what it
/// is worth.
pub open spec fn is_closed(e: ExprView) -> bool {
    forall|name: Seq<char>| !#[trigger] occurs(e, name)
}

/// The answers of a lookup that knows no variable.
pub open spec fn no_answers() -> Env {
    |name: Seq<char>| Err::<ValueView, Seq<char>>("Variable not found."@)
}

/// What a lookup has answered, made into the result of the leaf: see
/// [`settle`].
pub fn settle_answer(answer: Result<Value, String>) -> (r: Result<Value, Error>)
    ensures
        outcome(r) == settle(answer_view(answer)),
{
    match answer {
        Ok(found) => match found {
            Value::Variable(_) => Err(
                Error::LookupError("Variable resolved to another variable.".to_string()),
            ),
            _ => Ok(found),
        },
        Err(reason) => Err(Error::LookupError(reason)),
    }
}

impl Value {
    /// Resolves this value: a variable through `lookup`, any other value to
    /// a copy of itself.
    pub fn evaluate<T: VariableLookup + ?Sized>(&self, lookup: &T) -> (r: Result<Value, Error>)
        ensures
            may_resolve(self@, lookup, outcome(r)),
    {
        match self {
            Value::Variable(name) => {
                let answer = lookup.get_variable(name.as_str());
                let ghost given = answer_view(answer);
                let r = settle_answer(answer);
                proof {
                    assert(self@->Variable_0 == name@);
                    assert(may_answer(lookup, name@, given));
                }
                r
            },
            _ => Ok(self.clone()),
        }
    }

    /// The boolean in this value.
    pub fn as_bool(&self) -> (r: Result<bool, Error>)
        ensures
            match r {
                Ok(b) => bool_of(self@) == Ok::<bool, ErrorView>(b),
                Err(error) => bool_of(self@) == Err::<bool, ErrorView>(error@),
            },
    {
        match self {
            Value::Bool(b) => Ok(*b),
            _ => Err(Error::TypeMismatch { expected: Kind::Bool, actual: self.kind() }),
        }
    }

    /// The string in this value.
    pub fn as_string(&self) -> (r: Result<String, Error>)
        ensures
            match r {
                Ok(s) => string_of(self@) == Ok::<Seq<char>, ErrorView>(s@),
                Err(error) => string_of(self@) == Err::<Seq<char>, ErrorView>(error@),
            },
    {
        match self {
            Value::Str(s) => Ok(s.clone()),
            _ => Err(Error::TypeMismatch { expected: Kind::Str, actual: self.kind() }),
        }
    }

    /// The integer in this value.
    pub fn as_int(&self) -> (r: Result<i64, Error>)
        ensures
            match r {
                Ok(n) => int_of(self@) == Ok::<int, ErrorView>(n as int),
                Err(error) => int_of(self@) == Err::<int, ErrorView>(error@),
            },
    {
        match self {
            Value::Int(n) => Ok(*n),
            _ => Err(Error::TypeMismatch { expected: Kind::Int, actual: self.kind() }),
        }
    }

    /// The order in which this value stands to `other`, if they have one.
    pub fn order(&self, other: &Value) -> (o: Option<Order>)
        ensures
            o == order_of(self@, other@),
    {
        match self {
            Value::Bool(x) => match other {
                Value::Bool(y) => Some(
                    if *x == *y {
                        Order::Equal
                    } else if *y {
                        Order::Less
                    } else {
                        Order::Greater
                    },
                ),
                _ => None,
            },
            Value::Str(x) => match other {
                Value::Str(y) => {
                    let a = chars_of(x.as_str());
                    let b = chars_of(y.as_str());
                    Some(compare_chars(&a, &b))
                },
                _ => None,
            },
            Value::Int(x) => match other {
                Value::Int(y) => Some(
                    if *x < *y {
                        Order::Less
                    } else if *x == *y {
                        Order::Equal
                    } else {
                        Order::Greater
                    },
                ),
                _ => None,
            },
            _ => None,
        }
    }

    /// Decides the ordering operator `op` between this value and `other`.
    fn try_order(&self, op: Operator, other: &Value) -> (r: Result<bool, Error>)
        requires
            op == Operator::Lt || op == Operator::Le || op == Operator::Gt || op == Operator::Ge,
        ensures
            match r {
                Ok(b) => order_of(self@, other@) matches Some(o) && b == holds(op, o),
                Err(error) => order_of(self@, other@) is None && error@ == (
                ErrorView::Incomparable { left: self@.kind(), right: other@.kind() }),
            },
    {
        match self.order(other) {
            Some(o) => Ok(
                match op {
                    Operator::Lt => o == Order::Less,
                    Operator::Le => o == Order::Less || o == Order::Equal,
                    Operator::Gt => o == Order::Greater,
                    _ => o == Order::Greater || o == Order::Equal,
                },
            ),
            None => Err(Error::Incomparable { left: self.kind(), right: other.kind() }),
        }
    }

    /// Whether this value comes before `other`.
    pub fn try_lt(&self, other: &Value) -> (r: Result<bool, Error>)
        ensures
            match r {
                Ok(b) => order_of(self@, other@) matches Some(o) && b == (o is Less),
                Err(error) => order_of(self@, other@) is None && error@ == (
                ErrorView::Incomparable { left: self@.kind(), right: other@.kind() }),
            },
    {
        self.try_order(Operator::Lt, other)
    }

    /// Whether this value comes before `other` or equals it.
    pub fn try_le(&self, other: &Value) -> (r: Result<bool, Error>)
        ensures
            match r {
                Ok(b) => order_of(self@, other@) matches Some(o) && b == (o is Less || o is Equal),
                Err(error) => order_of(self@, other@) is None && error@ == (
                ErrorView::Incomparable { left: self@.kind(), right: other@.kind() }),
            },
    {
        self.try_order(Operator::Le, other)
    }

    /// Whether this value comes after `other`.
    pub fn try_gt(&self, other: &Value) -> (r: Result<bool, Error>)
        ensures
            match r {
                Ok(b) => order_of(self@, other@) matches Some(o) && b == (o is Greater),
                Err(error) => order_of(self@, other@) is None && error@ == (
                ErrorView::Incomparable { left: self@.kind(), right: other@.kind() }),
            },
    {
        self.try_order(Operator::Gt, other)
    }

    /// Whether this value comes after `other` or equals it.
    pub fn try_ge(&self, other: &Value) -> (r: Result<bool, Error>)
        ensures
            match r {
                Ok(b) => order_of(self@, other@) matches Some(o) && b == (o is Greater
                    || o is Equal),
                Err(error) => order_of(self@, other@) is None && error@ == (
                ErrorView::Incomparable { left: self@.kind(), right: other@.kind() }),
            },
    {
        self.try_order(Operator::Ge, other)
    }

    /// `self contains other`: whether a list has `other` among its items, or
    /// a string has the string `other` as a substring.
    pub fn try_contains(&self, other: &Value) -> (r: Result<bool, Error>)
        ensures
            match r {
                Ok(b) => contains_of(self@, other@) == Ok::<bool, ErrorView>(b),
                Err(error) => contains_of(self@, other@) == Err::<bool, ErrorView>(error@),
            },
    {
        match self {
            Value::List(items) => {
                proof {
                    lemma_list_view(*items);
                }
                let mut i: usize = 0;
                while i < items.len()
                    invariant
                        i <= items.len(),
                        self@ == ValueView::List(views_of(items@)),
                        forall|j: int| 0 <= j < i ==> items@[j]@ != other@,
                    decreases items.len() - i,
                {
                    if items[i].same_as(other) {
                        assert(views_of(items@)[i as int] == other@);
                        return Ok(true);
                    }
                    i += 1;
                }
                assert(!views_of(items@).contains(other@));
                Ok(false)
            },
            Value::Str(hay) => match other {
                Value::Str(needle) => {
                    let h = chars_of(hay.as_str());
                    let n = chars_of(needle.as_str());
                    Ok(contains_chars(&h, &n))
                },
                _ => Err(Error::InvalidOperands { left: self.kind(), right: other.kind() }),
            },
            _ => Err(Error::InvalidOperands { left: self.kind(), right: other.kind() }),
        }
    }
}

impl Operator {
    /// Applies this operator to two resolved values.
    pub fn apply(self, left: &Value, right: &Value) -> (r: Result<Value, Error>)
        ensures
            outcome(r) == apply_operator(self, left@, right@),
    {
        match self {
            Operator::Eq => Ok(Value::Bool(left.same_as(right))),
            Operator::Ne => Ok(Value::Bool(!left.same_as(right))),
            Operator::Lt | Operator::Le | Operator::Gt | Operator::Ge => {
                match left.try_order(self, right) {
                    Ok(b) => Ok(Value::Bool(b)),
                    Err(error) => Err(error),
                }
            },
            Operator::Contains => match left.try_contains(right) {
                Ok(b) => Ok(Value::Bool(b)),
                Err(error) => Err(error),
            },
            Operator::And => match left.as_bool() {
                Err(error) => Err(error),
                Ok(x) => match right.as_bool() {
                    Err(error) => Err(error),
                    Ok(y) => Ok(Value::Bool(x && y)),
                },
            },
            Operator::Or => match left.as_bool() {
                Err(error) => Err(error),
                Ok(x) => match right.as_bool() {
                    Err(error) => Err(error),
                    Ok(y) => Ok(Value::Bool(x || y)),
                },
            },
        }
    }
}

/// An expression without variables has none in its operands.
proof fn lemma_closed_operands(op: Operator, left: ExprView, right: ExprView)
    requires
        is_closed(ExprView::BinaryExpr(op, Box::new(left), Box::new(right))),
    ensures
        is_closed(left),
        is_closed(right),
{
    let e = ExprView::BinaryExpr(op, Box::new(left), Box::new(right));
    assert forall|name: Seq<char>| !#[trigger] occurs(left, name) by {
        assert(!occurs(e, name));
    }
    assert forall|name: Seq<char>| !#[trigger] occurs(right, name) by {
        assert(!occurs(e, name));
    }
}

impl Expr {
    /// Evaluates this expression, resolving its variables through `lookup`:
    /// the left operand of a binary expression, then the right one, then the
    /// operator on the two values.
    ///
    /// What comes back is a result that the answers of `lookup` allow.  Of an
    /// expression without variables it is the one result that the expression
    /// has.
    pub fn evaluate<T: VariableLookup + ?Sized>(&self, lookup: &T) -> (r: Result<Value, Error>)
        ensures
            may_evaluate(self@, lookup, outcome(r)),
            is_closed(self@) ==> outcome(r) == eval(self@, no_answers()),
        decreases self,
    {
        match self {
            Expr::BinaryExpr(op, left, right) => {
                proof {
                    if is_closed(self@) {
                        lemma_closed_operands(*op, left@, right@);
                    }
                }
                let a = match left.evaluate(lookup) {
                    Ok(value) => value,
                    Err(error) => {
                        let ghost failed = Err::<ValueView, ErrorView>(error@);
                        assert(failed == combine(*op, failed, failed));
                        return Err(error);
                    },
                };
                let b = match right.evaluate(lookup) {
                    Ok(value) => value,
                    Err(error) => {
                        let ghost failed = Err::<ValueView, ErrorView>(error@);
                        assert(failed == combine(*op, Ok(a@), failed));
                        return Err(error);
                    },
                };
                let r = op.apply(&a, &b);
                assert(outcome(r) == combine(*op, Ok(a@), Ok(b@)));
                r
            },
            Expr::Value(value) => {
                proof {
                    if is_closed(self@) && value@ is Variable {
                        assert(occurs(self@, value@->Variable_0));
                    }
                }
                value.evaluate(lookup)
            },
        }
    }

    /// Evaluates this expression where no variable is bound: every variable
    /// in it fails to resolve.
    pub fn evaluate_without_lookup(&self) -> (r: Result<Value, Error>)
        ensures
            outcome(r) == eval(self@, no_answers()),
    {
        let lookup = EmptyLookup {  };
        let r = self.evaluate(&lookup);
        proof {
            lemma_single_answers(self@, &lookup, no_answers(), outcome(r));
        }
        r
    }
}

} // verus!
