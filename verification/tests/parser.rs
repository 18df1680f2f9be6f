use parser::ast::{Expr, Operator, Value, VariableLookup};
use parser::grammar::MAX_NESTING;
use parser::parsing::{
    binary_expression, decimal, double_quoted_string, expression, identifier, operator,
    quoted_string, single_quoted_string, value, value_expression,
};
use parser::{parse, Error, ParseFailure};
use std::collections::HashMap;

fn name_equals_john() -> Expr {
    Expr::BinaryExpr(
        Operator::Eq,
        Box::new(Expr::Value(Value::Variable("name".to_string()))),
        Box::new(Expr::Value(Value::Str("John".to_string()))),
    )
}

fn leaf(value: Value) -> Box<Expr> {
    Box::new(Expr::Value(value))
}

fn unwrap_bool(value: Value) -> bool {
    value.as_bool().unwrap()
}

fn unwrap_string(value: Value) -> String {
    match value {
        Value::Str(s) => s.clone(),
        _ => panic!("Expected str"),
    }
}

fn test(s: &str) -> bool {
    unwrap_bool(parse(s).unwrap().evaluate_without_lookup().unwrap())
}

fn no_expression() -> Error {
    Error::ParseError(ParseFailure::NoExpression)
}

fn trailing(at: usize) -> Error {
    Error::ParseError(ParseFailure::TrailingInput { at })
}

struct Context {
    variables: HashMap<String, Value>,
}

impl VariableLookup for Context {
    fn get_variable(&self, name: &str) -> Result<Value, String> {
        match self.variables.get(name) {
            Some(value) => Ok(value.clone()),
            None => Err(format!("Variable '{}' not found.", name)),
        }
    }
}

#[test]
fn basic_test() {
    assert_eq!(identifier("input").unwrap().1, "input");
    assert_eq!(quoted_string("'input'").unwrap().1, "input");
    assert_eq!(quoted_string("\"input\"").unwrap().1, "input");
    assert_eq!(quoted_string("'input'").unwrap().1, "input");
    assert_eq!(operator("==").unwrap().1, Operator::Eq);
    assert_eq!(operator(" ==").unwrap().1, Operator::Eq);
    assert_eq!(operator("== ").unwrap().1, Operator::Eq);
    assert_eq!(operator(" == ").unwrap().1, Operator::Eq);
}

#[test]
fn expressions_tests() {
    assert_eq!(binary_expression("name=='John'").unwrap().1, name_equals_john());

    assert_eq!(expression("name=='John'").unwrap().1, name_equals_john());
}

#[test]
fn parse_test() {
    assert_eq!(parse("name == 'John'").unwrap(), name_equals_john());
}

#[test]
fn single_values() {
    assert_eq!(
        unwrap_bool(parse("true").unwrap().evaluate_without_lookup().unwrap()),
        true
    );
    assert_eq!(
        unwrap_bool(parse("false").unwrap().evaluate_without_lookup().unwrap()),
        false
    );
    assert_eq!(
        unwrap_string(parse("'hello'").unwrap().evaluate_without_lookup().unwrap()),
        "hello"
    );
}

#[test]
fn evaluation_tests() {
    assert_eq!(test("true == true"), true);
    assert_eq!(test("true == false"), false);
    assert_eq!(test("'hello' == 200"), false);
    assert_eq!(test("100 == 200"), false);
    assert_eq!(test("100 != 200"), true);
    assert_eq!(test("100 > 200"), false);
    assert_eq!(test("100 < 200"), true);
    assert_eq!(test("100 >= 200"), false);
    assert_eq!(test("100 <= 200"), true);
}

#[test]
fn complex_test() {
    let name = "John";
    let context = Context {
        variables: vec![("name".to_string(), Value::Str(name.to_string()))]
            .into_iter()
            .collect(),
    };
    let f = format!("name == '{}'", name);
    let ast = parse(&f).unwrap();
    let result = ast.evaluate(&context);
    assert_eq!(unwrap_bool(result.unwrap()), true);
}

#[test]
fn rules_hand_back_the_rest_of_the_text() {
    assert_eq!(identifier("input == 1"), Some((" == 1", "input")));
    assert_eq!(identifier("_a1 b"), Some((" b", "_a1")));
    assert_eq!(identifier("1a"), None);
    assert_eq!(identifier(""), None);
    assert_eq!(decimal("42 < 7"), Some((" < 7", 42)));
    assert_eq!(decimal("x"), None);
    assert_eq!(operator(" <= x"), Some(("x", Operator::Le)));
    assert_eq!(operator("x"), None);
    assert_eq!(single_quoted_string("'a' b"), Some((" b", "a")));
    assert_eq!(single_quoted_string("\"a\""), None);
    assert_eq!(double_quoted_string("\"a\" b"), Some((" b", "a")));
    assert_eq!(double_quoted_string("'a'"), None);
    assert_eq!(value("true!"), Some(("!", Value::Bool(true))));
    assert_eq!(value_expression("7 "), Some((" ", Expr::Value(Value::Int(7)))));
    assert_eq!(value_expression("=="), None);
    assert_eq!(binary_expression("7"), None);
    assert_eq!(expression("7 == "), Some((" == ", Expr::Value(Value::Int(7)))));
    assert_eq!(expression(""), None);
}

#[test]
fn every_operator_symbol_is_read() {
    assert_eq!(operator("==").unwrap().1, Operator::Eq);
    assert_eq!(operator("!=").unwrap().1, Operator::Ne);
    assert_eq!(operator("<=").unwrap().1, Operator::Le);
    assert_eq!(operator("<").unwrap().1, Operator::Lt);
    assert_eq!(operator(">=").unwrap().1, Operator::Ge);
    assert_eq!(operator(">").unwrap().1, Operator::Gt);
    assert_eq!(operator("\t\r\n <= \n"), Some(("", Operator::Le)));
    assert_eq!(operator("<=="), Some(("=", Operator::Le)));
    assert_eq!(operator("="), None);
    assert_eq!(operator("!"), None);
    assert_eq!(operator("and"), None);
}

#[test]
fn keywords_are_read_before_names() {
    assert_eq!(parse("null"), Ok(Expr::Value(Value::Null)));
    assert_eq!(parse("true"), Ok(Expr::Value(Value::Bool(true))));
    assert_eq!(parse("false"), Ok(Expr::Value(Value::Bool(false))));
    assert_eq!(parse("nul"), Ok(Expr::Value(Value::Variable("nul".to_string()))));
    assert_eq!(parse("True"), Ok(Expr::Value(Value::Variable("True".to_string()))));
    assert_eq!(parse("truex"), Err(trailing(4)));
    assert_eq!(parse("nullable"), Err(trailing(4)));
    assert_eq!(parse("falsehood == 1"), Err(trailing(5)));
}

#[test]
fn quoted_strings_keep_their_body_as_written() {
    assert_eq!(parse("'hello world'"), Ok(Expr::Value(Value::Str("hello world".to_string()))));
    assert_eq!(parse("\"it's\""), Ok(Expr::Value(Value::Str("it's".to_string()))));
    assert_eq!(parse("'say \"hi\"'"), Ok(Expr::Value(Value::Str("say \"hi\"".to_string()))));
    assert_eq!(parse("'it\\'s'"), Ok(Expr::Value(Value::Str("it\\'s".to_string()))));
    assert_eq!(parse("\"a\\\"b\""), Ok(Expr::Value(Value::Str("a\\\"b".to_string()))));
    assert_eq!(parse("'a\\\\'"), Ok(Expr::Value(Value::Str("a\\\\".to_string()))));
    assert_eq!(parse("'a\\nb'"), Ok(Expr::Value(Value::Str("a\\nb".to_string()))));
    assert_eq!(parse("'h\u{e9}llo'"), Ok(Expr::Value(Value::Str("h\u{e9}llo".to_string()))));
}

#[test]
fn malformed_strings_are_no_expression() {
    assert_eq!(parse("'unterminated"), Err(no_expression()));
    assert_eq!(parse("\"unterminated"), Err(no_expression()));
    assert_eq!(parse("''"), Err(no_expression()));
    assert_eq!(parse("\"\""), Err(no_expression()));
    assert_eq!(parse("'a\\b'"), Err(no_expression()));
    assert_eq!(parse("'a\\\"b'"), Err(no_expression()));
    assert_eq!(parse("'a\\"), Err(no_expression()));
    assert_eq!(parse("'a\\'"), Err(no_expression()));
    assert_eq!(parse("'a'b'"), Err(trailing(3)));
}

#[test]
fn integers_are_unsigned_and_bounded() {
    assert_eq!(parse("0"), Ok(Expr::Value(Value::Int(0))));
    assert_eq!(parse("007"), Ok(Expr::Value(Value::Int(7))));
    assert_eq!(parse("9223372036854775807"), Ok(Expr::Value(Value::Int(i64::MAX))));
    assert_eq!(parse("9223372036854775808"), Err(no_expression()));
    assert_eq!(parse("99999999999999999999999"), Err(no_expression()));
    assert_eq!(parse("-1"), Err(no_expression()));
    assert_eq!(parse("1 == 9223372036854775808"), Err(trailing(1)));
    assert_eq!(parse("12ab"), Err(trailing(2)));
}

#[test]
fn the_whole_text_must_be_one_expression() {
    assert_eq!(parse(""), Err(no_expression()));
    assert_eq!(parse(" "), Err(no_expression()));
    assert_eq!(parse(" a"), Err(no_expression()));
    assert_eq!(parse("== 1"), Err(no_expression()));
    assert_eq!(parse("(1 == 1)"), Err(no_expression()));
    assert_eq!(parse("a "), Err(trailing(1)));
    assert_eq!(parse("a == 'b' c"), Err(trailing(8)));
    assert_eq!(parse("a == "), Err(trailing(1)));
    assert_eq!(parse("a = b"), Err(trailing(1)));
    assert_eq!(parse("a and b"), Err(trailing(1)));
    assert_eq!(parse("'\u{e9}' x"), Err(trailing(3)));
    assert_eq!(parse("\u{e9} == 1"), Err(no_expression()));
    assert_eq!(parse("a\u{e9} == 1"), Err(trailing(1)));
    assert_eq!(parse("a\u{a0}== 1"), Err(trailing(1)));
}

#[test]
fn chains_associate_to_the_right() {
    let one = || leaf(Value::Int(1));
    assert_eq!(
        parse("1 == 1 == 1"),
        Ok(Expr::BinaryExpr(
            Operator::Eq,
            one(),
            Box::new(Expr::BinaryExpr(Operator::Eq, one(), one())),
        ))
    );
    assert_eq!(
        parse("a<b>=c"),
        Ok(Expr::BinaryExpr(
            Operator::Lt,
            leaf(Value::Variable("a".to_string())),
            Box::new(Expr::BinaryExpr(
                Operator::Ge,
                leaf(Value::Variable("b".to_string())),
                leaf(Value::Variable("c".to_string())),
            )),
        ))
    );
    assert_eq!(
        parse("1 == 1 == 1").unwrap().evaluate_without_lookup(),
        Ok(Value::Bool(false))
    );
}

#[test]
fn nesting_is_limited() {
    let mut text = "1".to_string();
    for _ in 0..MAX_NESTING {
        text.push_str("==1");
    }
    let mut depth = 0;
    let mut tree = parse(&text).unwrap();
    while let Expr::BinaryExpr(_, _, right) = tree {
        depth += 1;
        tree = *right;
    }
    assert_eq!(depth, MAX_NESTING);

    text.push_str("==1");
    assert_eq!(parse(&text), Err(trailing(1 + 3 * MAX_NESTING)));
}
