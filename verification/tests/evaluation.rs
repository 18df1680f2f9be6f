use parser::ast::{EmptyLookup, Expr, Kind, Operator, Value, VariableLookup};
use parser::eval::settle_answer;
use parser::text::Order;
use parser::{parse, Error};

fn number(n: i64) -> Value {
    Value::Int(n)
}

fn text(s: &str) -> Value {
    Value::Str(s.to_string())
}

fn variable(s: &str) -> Value {
    Value::Variable(s.to_string())
}

fn binary(op: Operator, left: Value, right: Value) -> Expr {
    Expr::BinaryExpr(op, Box::new(Expr::Value(left)), Box::new(Expr::Value(right)))
}

fn run(op: Operator, left: Value, right: Value) -> Result<Value, Error> {
    binary(op, left, right).evaluate_without_lookup()
}

fn every_kind() -> Vec<Value> {
    vec![
        Value::Null,
        Value::Bool(false),
        Value::Bool(true),
        text("a"),
        text("b"),
        number(1),
        number(2),
        variable("a"),
        Value::List(vec![]),
        Value::List(vec![number(1), text("a")]),
    ]
}

const ORDERINGS: [Operator; 4] = [Operator::Lt, Operator::Le, Operator::Gt, Operator::Ge];

/// Answers each name with what the tests below expect of it.
struct Host;

impl VariableLookup for Host {
    fn get_variable(&self, name: &str) -> Result<Value, String> {
        match name {
            "name" => Ok(text("John")),
            "age" => Ok(number(42)),
            "tags" => Ok(Value::List(vec![text("a"), text("b")])),
            "alias" => Ok(variable("name")),
            _ => Err(format!("no {}", name)),
        }
    }
}

#[test]
fn end_to_end_examples() {
    assert_eq!(parse("name == 'John'").unwrap().evaluate(&Host), Ok(Value::Bool(true)));
    assert_eq!(parse("100 <= 200").unwrap().evaluate_without_lookup(), Ok(Value::Bool(true)));
    assert!(matches!(parse("'unterminated"), Err(Error::ParseError(_))));
    assert!(matches!(parse("a == 'b' c"), Err(Error::ParseError(_))));
}

#[test]
fn leaves_resolve_to_themselves_or_through_the_lookup() {
    for value in every_kind() {
        if value.kind() != Kind::Variable {
            assert_eq!(value.evaluate(&Host), Ok(value.clone()));
            assert_eq!(Expr::Value(value.clone()).evaluate(&EmptyLookup {}), Ok(value));
        }
    }
    assert_eq!(variable("age").evaluate(&Host), Ok(number(42)));
    assert_eq!(parse("age").unwrap().evaluate(&Host), Ok(number(42)));
    assert_eq!(
        variable("missing").evaluate(&Host),
        Err(Error::LookupError("no missing".to_string()))
    );
    assert_eq!(
        variable("age").evaluate(&EmptyLookup {}),
        Err(Error::LookupError("Variable not found.".to_string()))
    );
    assert_eq!(
        parse("age").unwrap().evaluate_without_lookup(),
        Err(Error::LookupError("Variable not found.".to_string()))
    );
}

#[test]
fn an_answer_that_is_a_variable_is_rejected() {
    let rejected = Err(Error::LookupError("Variable resolved to another variable.".to_string()));
    assert_eq!(variable("alias").evaluate(&Host), rejected);
    assert_eq!(parse("alias == 'John'").unwrap().evaluate(&Host), rejected);
    assert_eq!(settle_answer(Ok(variable("x"))), rejected);
    assert_eq!(settle_answer(Ok(number(1))), Ok(number(1)));
    assert_eq!(
        settle_answer(Err("why".to_string())),
        Err(Error::LookupError("why".to_string()))
    );
}

#[test]
fn a_lookup_may_be_a_trait_object() {
    let host: &dyn VariableLookup = &Host;
    assert_eq!(variable("age").evaluate(host), Ok(number(42)));
    assert_eq!(parse("age == 42").unwrap().evaluate(host), Ok(Value::Bool(true)));
    let boxed: Box<dyn VariableLookup> = Box::new(EmptyLookup {});
    assert_eq!(
        parse("age == 42").unwrap().evaluate(boxed.as_ref()),
        Err(Error::LookupError("Variable not found.".to_string()))
    );
}

#[test]
fn the_first_failure_is_the_result() {
    assert_eq!(
        parse("x == y").unwrap().evaluate(&Host),
        Err(Error::LookupError("no x".to_string()))
    );
    assert_eq!(
        parse("age == y").unwrap().evaluate(&Host),
        Err(Error::LookupError("no y".to_string()))
    );
    assert_eq!(
        parse("age < name < y").unwrap().evaluate(&Host),
        Err(Error::LookupError("no y".to_string()))
    );
    assert_eq!(
        parse("x < 'a' < 1").unwrap().evaluate(&Host),
        Err(Error::LookupError("no x".to_string()))
    );
    assert_eq!(
        parse("1 < 'a' < 2").unwrap().evaluate(&Host),
        Err(Error::Incomparable { left: Kind::Str, right: Kind::Int })
    );
}

#[test]
fn equality_is_total() {
    for a in every_kind() {
        for b in every_kind() {
            let same = a == b;
            assert_eq!(Operator::Eq.apply(&a, &b), Ok(Value::Bool(same)));
            assert_eq!(Operator::Ne.apply(&a, &b), Ok(Value::Bool(!same)));
            if a.kind() != b.kind() {
                assert!(!same);
            }
        }
    }
    assert_eq!(run(Operator::Eq, text("hello"), number(200)), Ok(Value::Bool(false)));
    assert_eq!(run(Operator::Ne, text("hello"), number(200)), Ok(Value::Bool(true)));
    assert_eq!(run(Operator::Eq, Value::Null, Value::Null), Ok(Value::Bool(true)));
    assert_eq!(
        run(
            Operator::Eq,
            Value::List(vec![number(1), Value::List(vec![text("a")])]),
            Value::List(vec![number(1), Value::List(vec![text("a")])]),
        ),
        Ok(Value::Bool(true))
    );
    assert_eq!(
        run(Operator::Eq, Value::List(vec![number(1)]), Value::List(vec![number(1), number(1)])),
        Ok(Value::Bool(false))
    );
}

#[test]
fn ordering_is_partial() {
    for a in every_kind() {
        for b in every_kind() {
            let ordered = a.kind() == b.kind()
                && matches!(a.kind(), Kind::Bool | Kind::Str | Kind::Int);
            for op in ORDERINGS {
                let result = op.apply(&a, &b);
                if ordered {
                    assert!(matches!(result, Ok(Value::Bool(_))));
                } else {
                    assert_eq!(
                        result,
                        Err(Error::Incomparable { left: a.kind(), right: b.kind() })
                    );
                }
            }
        }
    }
    assert_eq!(
        run(Operator::Lt, number(1), text("1")),
        Err(Error::Incomparable { left: Kind::Int, right: Kind::Str })
    );
    assert_eq!(
        run(Operator::Ge, Value::List(vec![]), Value::List(vec![])),
        Err(Error::Incomparable { left: Kind::List, right: Kind::List })
    );
    assert_eq!(
        run(Operator::Le, Value::Null, Value::Null),
        Err(Error::Incomparable { left: Kind::Null, right: Kind::Null })
    );
}

#[test]
fn orderings_are_the_native_ones() {
    let numbers = [i64::MIN, -5, 0, 7, i64::MAX];
    for x in numbers {
        for y in numbers {
            assert_eq!(run(Operator::Lt, number(x), number(y)), Ok(Value::Bool(x < y)));
            assert_eq!(run(Operator::Le, number(x), number(y)), Ok(Value::Bool(x <= y)));
            assert_eq!(run(Operator::Gt, number(x), number(y)), Ok(Value::Bool(x > y)));
            assert_eq!(run(Operator::Ge, number(x), number(y)), Ok(Value::Bool(x >= y)));
        }
    }
    let words = ["", "a", "ab", "abc", "abd", "b", "B", "\u{e9}", "z\u{10348}", "z\u{ffff}"];
    for x in words {
        for y in words {
            assert_eq!(run(Operator::Lt, text(x), text(y)), Ok(Value::Bool(x < y)));
            assert_eq!(run(Operator::Le, text(x), text(y)), Ok(Value::Bool(x <= y)));
            assert_eq!(run(Operator::Gt, text(x), text(y)), Ok(Value::Bool(x > y)));
            assert_eq!(run(Operator::Ge, text(x), text(y)), Ok(Value::Bool(x >= y)));
        }
    }
    for x in [false, true] {
        for y in [false, true] {
            let (a, b) = (Value::Bool(x), Value::Bool(y));
            assert_eq!(Operator::Lt.apply(&a, &b), Ok(Value::Bool(x < y)));
            assert_eq!(Operator::Le.apply(&a, &b), Ok(Value::Bool(x <= y)));
            assert_eq!(Operator::Gt.apply(&a, &b), Ok(Value::Bool(x > y)));
            assert_eq!(Operator::Ge.apply(&a, &b), Ok(Value::Bool(x >= y)));
        }
    }
}

#[test]
fn order_and_try_methods_agree() {
    assert_eq!(number(1).order(&number(2)), Some(Order::Less));
    assert_eq!(number(2).order(&number(2)), Some(Order::Equal));
    assert_eq!(text("b").order(&text("a")), Some(Order::Greater));
    assert_eq!(Value::Bool(false).order(&Value::Bool(true)), Some(Order::Less));
    assert_eq!(number(1).order(&text("a")), None);
    assert_eq!(number(1).try_lt(&number(2)), Ok(true));
    assert_eq!(number(2).try_lt(&number(2)), Ok(false));
    assert_eq!(number(2).try_le(&number(2)), Ok(true));
    assert_eq!(number(3).try_le(&number(2)), Ok(false));
    assert_eq!(number(3).try_gt(&number(2)), Ok(true));
    assert_eq!(number(2).try_gt(&number(2)), Ok(false));
    assert_eq!(number(2).try_ge(&number(2)), Ok(true));
    assert_eq!(number(1).try_ge(&number(2)), Ok(false));
    assert_eq!(
        number(1).try_lt(&Value::Null),
        Err(Error::Incomparable { left: Kind::Int, right: Kind::Null })
    );
    assert_eq!(
        Value::Null.try_ge(&number(1)),
        Err(Error::Incomparable { left: Kind::Null, right: Kind::Int })
    );
}

#[test]
fn contains_is_membership_or_substring() {
    let list = || Value::List(vec![number(1), number(2), number(3)]);
    assert_eq!(run(Operator::Contains, list(), number(2)), Ok(Value::Bool(true)));
    assert_eq!(run(Operator::Contains, text("hello"), text("ell")), Ok(Value::Bool(true)));
    assert_eq!(
        run(Operator::Contains, Value::List(vec![number(1), number(2)]), text("x")),
        Ok(Value::Bool(false))
    );
    assert_eq!(
        run(Operator::Contains, number(1), number(2)),
        Err(Error::InvalidOperands { left: Kind::Int, right: Kind::Int })
    );
    assert_eq!(run(Operator::Contains, list(), number(4)), Ok(Value::Bool(false)));
    assert_eq!(run(Operator::Contains, Value::List(vec![]), number(4)), Ok(Value::Bool(false)));
    assert_eq!(
        run(Operator::Contains, Value::List(vec![list()]), list()),
        Ok(Value::Bool(true))
    );
    assert_eq!(run(Operator::Contains, text("hello"), text("")), Ok(Value::Bool(true)));
    assert_eq!(run(Operator::Contains, text(""), text("")), Ok(Value::Bool(true)));
    assert_eq!(run(Operator::Contains, text("hello"), text("hello")), Ok(Value::Bool(true)));
    assert_eq!(run(Operator::Contains, text("hello"), text("llo")), Ok(Value::Bool(true)));
    assert_eq!(run(Operator::Contains, text("hello"), text("lo!")), Ok(Value::Bool(false)));
    assert_eq!(run(Operator::Contains, text("ell"), text("hello")), Ok(Value::Bool(false)));
    assert_eq!(
        run(Operator::Contains, text("hello"), number(1)),
        Err(Error::InvalidOperands { left: Kind::Str, right: Kind::Int })
    );
    assert_eq!(
        run(Operator::Contains, Value::Null, text("a")),
        Err(Error::InvalidOperands { left: Kind::Null, right: Kind::Str })
    );
    assert_eq!(text("hello").try_contains(&text("ell")), Ok(true));
    assert_eq!(
        binary(Operator::Contains, variable("tags"), text("b")).evaluate(&Host),
        Ok(Value::Bool(true))
    );
}

#[test]
fn boolean_operators_check_both_operands() {
    let t = || Value::Bool(true);
    let f = || Value::Bool(false);
    assert_eq!(run(Operator::And, t(), f()), Ok(Value::Bool(false)));
    assert_eq!(run(Operator::Or, t(), f()), Ok(Value::Bool(true)));
    assert_eq!(
        run(Operator::And, t(), number(1)),
        Err(Error::TypeMismatch { expected: Kind::Bool, actual: Kind::Int })
    );
    assert_eq!(run(Operator::And, t(), t()), Ok(Value::Bool(true)));
    assert_eq!(run(Operator::And, f(), t()), Ok(Value::Bool(false)));
    assert_eq!(run(Operator::And, f(), f()), Ok(Value::Bool(false)));
    assert_eq!(run(Operator::Or, f(), t()), Ok(Value::Bool(true)));
    assert_eq!(run(Operator::Or, t(), t()), Ok(Value::Bool(true)));
    assert_eq!(run(Operator::Or, f(), f()), Ok(Value::Bool(false)));
    assert_eq!(
        run(Operator::And, f(), number(1)),
        Err(Error::TypeMismatch { expected: Kind::Bool, actual: Kind::Int })
    );
    assert_eq!(
        run(Operator::Or, t(), text("x")),
        Err(Error::TypeMismatch { expected: Kind::Bool, actual: Kind::Str })
    );
    assert_eq!(
        run(Operator::Or, Value::Null, text("x")),
        Err(Error::TypeMismatch { expected: Kind::Bool, actual: Kind::Null })
    );
    assert_eq!(
        binary(Operator::Or, t(), variable("missing")).evaluate(&Host),
        Err(Error::LookupError("no missing".to_string()))
    );
}

#[test]
fn evaluation_is_repeatable() {
    let tree = parse("name == 'John' == age").unwrap();
    let first = tree.evaluate(&Host);
    let second = tree.evaluate(&Host);
    assert_eq!(first, second);
    assert_eq!(first, Ok(Value::Bool(false)));
    let failing = parse("age < name").unwrap();
    assert_eq!(failing.evaluate(&Host), failing.evaluate(&Host));
}

#[test]
fn coercions_give_what_a_value_holds() {
    assert_eq!(Value::Bool(true).as_bool(), Ok(true));
    assert_eq!(text("a").as_string(), Ok("a".to_string()));
    assert_eq!(number(-3).as_int(), Ok(-3));
    assert_eq!(
        number(1).as_bool(),
        Err(Error::TypeMismatch { expected: Kind::Bool, actual: Kind::Int })
    );
    assert_eq!(
        Value::Null.as_string(),
        Err(Error::TypeMismatch { expected: Kind::Str, actual: Kind::Null })
    );
    assert_eq!(
        variable("a").as_int(),
        Err(Error::TypeMismatch { expected: Kind::Int, actual: Kind::Variable })
    );
    assert_eq!(bool::try_from(&Value::Bool(false)), Ok(false));
    assert_eq!(String::try_from(&text("b")), Ok("b".to_string()));
    assert_eq!(i64::try_from(number(9)), Ok(9));
    assert_eq!(
        bool::try_from(&Value::List(vec![])),
        Err(Error::TypeMismatch { expected: Kind::Bool, actual: Kind::List })
    );
    assert_eq!(
        String::try_from(&number(1)),
        Err(Error::TypeMismatch { expected: Kind::Str, actual: Kind::Int })
    );
    assert_eq!(
        i64::try_from(text("1")),
        Err(Error::TypeMismatch { expected: Kind::Int, actual: Kind::Str })
    );
}

#[test]
fn values_compare_and_copy_by_their_contents() {
    let all = every_kind();
    for (i, a) in all.iter().enumerate() {
        for (j, b) in all.iter().enumerate() {
            assert_eq!(a == b, i == j);
            assert_eq!(a.same_as(b), i == j);
        }
        assert_eq!(&a.clone(), a);
        assert_eq!(&a.duplicate(), a);
    }
    let tree = parse("a == 1 < 'x'").unwrap();
    assert_eq!(tree.clone(), tree);
    assert!(tree.same_as(&tree.clone()));
    assert_ne!(tree, parse("a == 1 < 'y'").unwrap());
    assert_ne!(tree, parse("a == 1 > 'x'").unwrap());
    assert_ne!(tree, parse("a").unwrap());
    assert_eq!(Value::Null.kind(), Kind::Null);
    assert_eq!(Value::Bool(true).kind(), Kind::Bool);
    assert_eq!(text("").kind(), Kind::Str);
    assert_eq!(number(0).kind(), Kind::Int);
    assert_eq!(variable("v").kind(), Kind::Variable);
    assert_eq!(Value::List(vec![]).kind(), Kind::List);
}
