//! The parser: executable functions that match the rules of [`grammar`] on a
//! text, each proved to give what the rule of its name gives.
//!
//! The public functions take the text to match from its beginning and hand
//! back the rest of the text beside what they matched.

use crate::ast::{Expr, ExprView, Operator, Value, ValueView};
use crate::error::{Error, ParseFailure};
use crate::grammar;
use crate::grammar::{CharClass, MAX_NESTING};
use crate::text::chars_of;
use vstd::prelude::*;

verus! {

/// Whether `c` belongs to `class`.
fn belongs(class: CharClass, c: char) -> (r: bool)
    ensures
        r == grammar::in_class(class, c),
{
    let digit = '0' <= c && c <= '9';
    let letter = ('a' <= c && c <= 'z') || ('A' <= c && c <= 'Z');
    match class {
        CharClass::Digit => digit,
        CharClass::NamePart => letter || c == '_' || digit,
        CharClass::Space => c == ' ' || c == '\t' || c == '\r' || c == '\n',
    }
}

/// Skips the characters of `class` from index `i` on.
fn scan(chars: &Vec<char>, i: usize, class: CharClass) -> (j: usize)
    requires
        i <= chars.len(),
    ensures
        j == grammar::run_end(chars@, i as int, class),
        i <= j <= chars.len(),
{
    let mut j: usize = i;
    while j < chars.len() && belongs(class, chars[j])
        invariant
            i <= j <= chars.len(),
            grammar::run_end(chars@, i as int, class) == grammar::run_end(chars@, j as int, class),
        decreases chars.len() - j,
    {
        j += 1;
    }
    j
}

/// Whether `word` stands in `chars` at index `i`.
fn stands(chars: &Vec<char>, i: usize, word: &str) -> (r: bool)
    requires
        i <= chars.len(),
    ensures
        r == grammar::starts_with(chars@, i as int, word@),
{
    let n = word.unicode_len();
    if n > chars.len() - i {
        return false;
    }
    let mut k: usize = 0;
    while k < n
        invariant
            k <= n,
            n == word@.len(),
            i + n <= chars.len(),
            forall|m: int| 0 <= m < k ==> chars@[i + m] == word@[m],
        decreases n - k,
    {
        if chars[i + k] != word.get_char(k) {
            assert(chars@.subrange(i as int, i + n)[k as int] != word@[k as int]);
            return false;
        }
        k += 1;
    }
    assert(chars@.subrange(i as int, i + n) =~= word@);
    true
}

/// A value that was matched and the index after it, by their views.
pub open spec fn value_found(r: Option<(Value, usize)>) -> Option<(ValueView, int)> {
    match r {
        Some((v, j)) => Some((v@, j as int)),
        None => None,
    }
}

/// An operator that was matched and the index after it.
pub open spec fn operator_found(r: Option<(Operator, usize)>) -> Option<(Operator, int)> {
    match r {
        Some((op, j)) => Some((op, j as int)),
        None => None,
    }
}

/// An expression that was matched and the index after it, by their views.
pub open spec fn expr_found(r: Option<(Expr, usize)>) -> Option<(ExprView, int)> {
    match r {
        Some((e, j)) => Some((e@, j as int)),
        None => None,
    }
}

fn keyword_at(chars: &Vec<char>, i: usize) -> (r: Option<(Value, usize)>)
    requires
        i <= chars.len(),
    ensures
        value_found(r) == grammar::keyword(chars@, i as int),
{
    proof {
        reveal_strlit("null");
        reveal_strlit("true");
        reveal_strlit("false");
        assert("null"@ =~= seq!['n', 'u', 'l', 'l']);
        assert("true"@ =~= seq!['t', 'r', 'u', 'e']);
        assert("false"@ =~= seq!['f', 'a', 'l', 's', 'e']);
    }
    if stands(chars, i, "null") {
        Some((Value::Null, i + 4))
    } else if stands(chars, i, "true") {
        Some((Value::Bool(true), i + 4))
    } else if stands(chars, i, "false") {
        Some((Value::Bool(false), i + 5))
    } else {
        None
    }
}

fn identifier_at(chars: &Vec<char>, i: usize) -> (r: Option<usize>)
    requires
        i <= chars.len(),
    ensures
        match r {
            Some(j) => grammar::identifier(chars@, i as int) == Some(j as int) && i < j
                <= chars.len(),
            None => grammar::identifier(chars@, i as int) is None,
        },
{
    if i < chars.len() {
        let c = chars[i];
        if ('a' <= c && c <= 'z') || ('A' <= c && c <= 'Z') || c == '_' {
            return Some(scan(chars, i + 1, CharClass::NamePart));
        }
    }
    None
}

/// Finds the delimiter that ends the body of a string which begins at `i`.
fn body_end_at(chars: &Vec<char>, i: usize, quote: char) -> (r: Option<usize>)
    requires
        i <= chars.len(),
    ensures
        match r {
            Some(j) => grammar::body_end(chars@, i as int, quote) == Some(j as int) && i <= j
                < chars.len(),
            None => grammar::body_end(chars@, i as int, quote) is None,
        },
{
    let mut k: usize = i;
    while k < chars.len()
        invariant
            i <= k <= chars.len(),
            grammar::body_end(chars@, i as int, quote) == grammar::body_end(
                chars@,
                k as int,
                quote,
            ),
        decreases chars.len() - k,
    {
        let c = chars[k];
        if c == quote {
            return Some(k);
        } else if c == '\\' {
            if k + 1 < chars.len() {
                let e = chars[k + 1];
                if e == quote || e == '\\' || e == 'n' {
                    k += 2;
                } else {
                    return None;
                }
            } else {
                return None;
            }
        } else {
            k += 1;
        }
    }
    None
}

/// Matches a string between two `quote`s at `i`: the index of the closing
/// delimiter, the body lying between `i + 1` and it.
fn quoted_at(chars: &Vec<char>, i: usize, quote: char) -> (r: Option<usize>)
    requires
        i <= chars.len(),
    ensures
        match r {
            Some(j) => grammar::quoted_with(chars@, i as int, quote) == Some(
                (chars@.subrange(i + 1, j as int), j + 1),
            ) && i + 1 < j < chars.len(),
            None => grammar::quoted_with(chars@, i as int, quote) is None,
        },
{
    if i < chars.len() && chars[i] == quote {
        match body_end_at(chars, i + 1, quote) {
            Some(j) => if j > i + 1 {
                Some(j)
            } else {
                None
            },
            None => None,
        }
    } else {
        None
    }
}

fn quoted_string_at(chars: &Vec<char>, i: usize) -> (r: Option<usize>)
    requires
        i <= chars.len(),
    ensures
        match r {
            Some(j) => grammar::quoted_string(chars@, i as int) == Some(
                (chars@.subrange(i + 1, j as int), j + 1),
            ) && i + 1 < j < chars.len(),
            None => grammar::quoted_string(chars@, i as int) is None,
        },
{
    match quoted_at(chars, i, '\'') {
        Some(j) => Some(j),
        None => quoted_at(chars, i, '"'),
    }
}

fn decimal_at(chars: &Vec<char>, i: usize) -> (r: Option<(i64, usize)>)
    requires
        i <= chars.len(),
    ensures
        match r {
            Some((n, j)) => grammar::decimal(chars@, i as int) == Some((n as int, j as int)) && i
                < j <= chars.len(),
            None => grammar::decimal(chars@, i as int) is None,
        },
{
    let j = scan(chars, i, CharClass::Digit);
    if j == i {
        return None;
    }
    proof {
        grammar::lemma_run(chars@, i as int, CharClass::Digit);
    }
    let mut n: i64 = 0;
    let mut k: usize = i;
    while k < j
        invariant
            i <= k <= j <= chars.len(),
            0 <= n,
            n == grammar::number(chars@.subrange(i as int, k as int)),
            forall|m: int| i <= m < j ==> grammar::is_digit(#[trigger] chars@[m]),
            j == grammar::run_end(chars@, i as int, CharClass::Digit),
        decreases j - k,
    {
        assert(grammar::is_digit(chars@[k as int]));
        let d: i64 = (chars[k] as u32 - 48) as i64;
        proof {
            grammar::lemma_number_step(chars@, i as int, k as int);
        }
        if n > (i64::MAX - d) / 10 {
            proof {
                grammar::lemma_number_grows(chars@, i as int, k + 1, j as int);
            }
            return None;
        }
        n = n * 10 + d;
        k += 1;
    }
    Some((n, j))
}

fn value_at(src: &str, chars: &Vec<char>, i: usize) -> (r: Option<(Value, usize)>)
    requires
        chars@ == src@,
        i <= chars.len(),
    ensures
        value_found(r) == grammar::value(chars@, i as int),
        r matches Some((_, j)) ==> i < j <= chars.len(),
{
    if let Some(found) = keyword_at(chars, i) {
        return Some(found);
    }
    if let Some(j) = identifier_at(chars, i) {
        return Some((Value::Variable(src.substring_char(i, j).to_string()), j));
    }
    if let Some(j) = quoted_string_at(chars, i) {
        return Some((Value::Str(src.substring_char(i + 1, j).to_string()), j + 1));
    }
    match decimal_at(chars, i) {
        Some((n, j)) => Some((Value::Int(n), j)),
        None => None,
    }
}

fn symbol_at(chars: &Vec<char>, i: usize) -> (r: Option<(Operator, usize)>)
    requires
        i <= chars.len(),
    ensures
        operator_found(r) == grammar::symbol(chars@, i as int),
        r matches Some((_, j)) ==> i < j <= chars.len(),
{
    proof {
        reveal_strlit("==");
        reveal_strlit("!=");
        reveal_strlit("<=");
        reveal_strlit("<");
        reveal_strlit(">=");
        reveal_strlit(">");
        assert("=="@ =~= seq!['=', '=']);
        assert("!="@ =~= seq!['!', '=']);
        assert("<="@ =~= seq!['<', '=']);
        assert("<"@ =~= seq!['<']);
        assert(">="@ =~= seq!['>', '=']);
        assert(">"@ =~= seq!['>']);
    }
    if stands(chars, i, "==") {
        Some((Operator::Eq, i + 2))
    } else if stands(chars, i, "!=") {
        Some((Operator::Ne, i + 2))
    } else if stands(chars, i, "<=") {
        Some((Operator::Le, i + 2))
    } else if stands(chars, i, "<") {
        Some((Operator::Lt, i + 1))
    } else if stands(chars, i, ">=") {
        Some((Operator::Ge, i + 2))
    } else if stands(chars, i, ">") {
        Some((Operator::Gt, i + 1))
    } else {
        None
    }
}

fn operator_at(chars: &Vec<char>, i: usize) -> (r: Option<(Operator, usize)>)
    requires
        i <= chars.len(),
    ensures
        operator_found(r) == grammar::operator(chars@, i as int),
        r matches Some((_, j)) ==> i < j <= chars.len(),
{
    let start = scan(chars, i, CharClass::Space);
    match symbol_at(chars, start) {
        Some((op, j)) => Some((op, scan(chars, j, CharClass::Space))),
        None => None,
    }
}

fn value_expression_at(src: &str, chars: &Vec<char>, i: usize) -> (r: Option<(Expr, usize)>)
    requires
        chars@ == src@,
        i <= chars.len(),
    ensures
        expr_found(r) == grammar::value_expression(chars@, i as int),
        r matches Some((_, j)) ==> i < j <= chars.len(),
{
    match value_at(src, chars, i) {
        Some((v, j)) => Some((Expr::Value(v), j)),
        None => None,
    }
}

fn binary_expression_at(src: &str, chars: &Vec<char>, i: usize, depth: usize) -> (r: Option<
    (Expr, usize),
>)
    requires
        chars@ == src@,
        i <= chars.len(),
    ensures
        expr_found(r) == grammar::binary_expression(chars@, i as int, depth as nat),
        r matches Some((_, j)) ==> i < j <= chars.len(),
    decreases depth, 0int,
{
    if depth == 0 {
        return None;
    }
    let (left, j) = match value_expression_at(src, chars, i) {
        Some(found) => found,
        None => {
            return None;
        },
    };
    let (op, k) = match operator_at(chars, j) {
        Some(found) => found,
        None => {
            return None;
        },
    };
    match expression_at(src, chars, k, depth - 1) {
        Some((right, m)) => Some((Expr::BinaryExpr(op, Box::new(left), Box::new(right)), m)),
        None => None,
    }
}

fn expression_at(src: &str, chars: &Vec<char>, i: usize, depth: usize) -> (r: Option<
    (Expr, usize),
>)
    requires
        chars@ == src@,
        i <= chars.len(),
    ensures
        expr_found(r) == grammar::expression(chars@, i as int, depth as nat),
        r matches Some((_, j)) ==> i < j <= chars.len(),
    decreases depth, 1int,
{
    match binary_expression_at(src, chars, i, depth) {
        Some(found) => Some(found),
        None => value_expression_at(src, chars, i),
    }
}

/// The text from index `j` on.
pub open spec fn rest_from(s: Seq<char>, j: int) -> Seq<char> {
    s.subrange(j, s.len() as int)
}

/// Matches a number at the beginning of `s`: the rest of the text and the
/// number.
pub fn decimal<'a>(s: &'a str) -> (r: Option<(&'a str, i64)>)
    ensures
        match r {
            Some((rest, n)) => grammar::decimal(s@, 0) matches Some((m, j)) && n == m && rest@
                == rest_from(s@, j),
            None => grammar::decimal(s@, 0) is None,
        },
{
    let chars = chars_of(s);
    match decimal_at(&chars, 0) {
        Some((n, j)) => Some((s.substring_char(j, chars.len()), n)),
        None => None,
    }
}

/// Matches a name at the beginning of `s`: the rest of the text and the
/// name.
pub fn identifier<'a>(s: &'a str) -> (r: Option<(&'a str, &'a str)>)
    ensures
        match r {
            Some((rest, name)) => grammar::identifier(s@, 0) matches Some(j) && name@
                == s@.subrange(0, j) && rest@ == rest_from(s@, j),
            None => grammar::identifier(s@, 0) is None,
        },
{
    let chars = chars_of(s);
    match identifier_at(&chars, 0) {
        Some(j) => Some((s.substring_char(j, chars.len()), s.substring_char(0, j))),
        None => None,
    }
}

/// Matches a string between single quotes at the beginning of `s`: the rest
/// of the text and the body of the string.
pub fn single_quoted_string<'a>(s: &'a str) -> (r: Option<(&'a str, &'a str)>)
    ensures
        match r {
            Some((rest, body)) => grammar::single_quoted_string(s@, 0) matches Some((b, j))
                && body@ == b && rest@ == rest_from(s@, j),
            None => grammar::single_quoted_string(s@, 0) is None,
        },
{
    let chars = chars_of(s);
    match quoted_at(&chars, 0, '\'') {
        Some(j) => Some((s.substring_char(j + 1, chars.len()), s.substring_char(1, j))),
        None => None,
    }
}

/// Matches a string between double quotes at the beginning of `s`: the rest
/// of the text and the body of the string.
pub fn double_quoted_string<'a>(s: &'a str) -> (r: Option<(&'a str, &'a str)>)
    ensures
        match r {
            Some((rest, body)) => grammar::double_quoted_string(s@, 0) matches Some((b, j))
                && body@ == b && rest@ == rest_from(s@, j),
            None => grammar::double_quoted_string(s@, 0) is None,
        },
{
    let chars = chars_of(s);
    match quoted_at(&chars, 0, '"') {
        Some(j) => Some((s.substring_char(j + 1, chars.len()), s.substring_char(1, j))),
        None => None,
    }
}

/// Matches a quoted string of either kind at the beginning of `s`: the rest
/// of the text and the body of the string.
pub fn quoted_string<'a>(s: &'a str) -> (r: Option<(&'a str, &'a str)>)
    ensures
        match r {
            Some((rest, body)) => grammar::quoted_string(s@, 0) matches Some((b, j)) && body@
                == b && rest@ == rest_from(s@, j),
            None => grammar::quoted_string(s@, 0) is None,
        },
{
    let chars = chars_of(s);
    match quoted_string_at(&chars, 0) {
        Some(j) => Some((s.substring_char(j + 1, chars.len()), s.substring_char(1, j))),
        None => None,
    }
}

/// Matches an operator, with the white space around it, at the beginning of
/// `s`: the rest of the text and the operator.
pub fn operator<'a>(s: &'a str) -> (r: Option<(&'a str, Operator)>)
    ensures
        match r {
            Some((rest, op)) => grammar::operator(s@, 0) matches Some((o, j)) && op == o && rest@
                == rest_from(s@, j),
            None => grammar::operator(s@, 0) is None,
        },
{
    let chars = chars_of(s);
    match operator_at(&chars, 0) {
        Some((op, j)) => Some((s.substring_char(j, chars.len()), op)),
        None => None,
    }
}

/// Matches a value at the beginning of `s`: the rest of the text and the
/// value.
pub fn value<'a>(s: &'a str) -> (r: Option<(&'a str, Value)>)
    ensures
        match r {
            Some((rest, v)) => grammar::value(s@, 0) matches Some((w, j)) && v@ == w && rest@
                == rest_from(s@, j),
            None => grammar::value(s@, 0) is None,
        },
{
    let chars = chars_of(s);
    match value_at(s, &chars, 0) {
        Some((v, j)) => Some((s.substring_char(j, chars.len()), v)),
        None => None,
    }
}

/// Matches a value at the beginning of `s`, as an expression: the rest of
/// the text and the leaf.
pub fn value_expression<'a>(s: &'a str) -> (r: Option<(&'a str, Expr)>)
    ensures
        match r {
            Some((rest, e)) => grammar::value_expression(s@, 0) matches Some((f, j)) && e@ == f
                && rest@ == rest_from(s@, j),
            None => grammar::value_expression(s@, 0) is None,
        },
{
    let chars = chars_of(s);
    match value_expression_at(s, &chars, 0) {
        Some((e, j)) => Some((s.substring_char(j, chars.len()), e)),
        None => None,
    }
}

/// Matches a binary expression at the beginning of `s`: the rest of the text
/// and the expression.
pub fn binary_expression<'a>(s: &'a str) -> (r: Option<(&'a str, Expr)>)
    ensures
        match r {
            Some((rest, e)) => grammar::binary_expression(s@, 0, MAX_NESTING as nat) matches Some(
                (f, j),
            ) && e@ == f && rest@ == rest_from(s@, j),
            None => grammar::binary_expression(s@, 0, MAX_NESTING as nat) is None,
        },
{
    let chars = chars_of(s);
    match binary_expression_at(s, &chars, 0, MAX_NESTING) {
        Some((e, j)) => Some((s.substring_char(j, chars.len()), e)),
        None => None,
    }
}

/// Matches an expression at the beginning of `s`: the rest of the text and
/// the expression.
pub fn expression<'a>(s: &'a str) -> (r: Option<(&'a str, Expr)>)
    ensures
        match r {
            Some((rest, e)) => grammar::expression(s@, 0, MAX_NESTING as nat) matches Some((f, j))
                && e@ == f && rest@ == rest_from(s@, j),
            None => grammar::expression(s@, 0, MAX_NESTING as nat) is None,
        },
{
    let chars = chars_of(s);
    match expression_at(s, &chars, 0, MAX_NESTING) {
        Some((e, j)) => Some((s.substring_char(j, chars.len()), e)),
        None => None,
    }
}

/// Parses `s`, the whole of which must be one expression.
pub fn parse(s: &str) -> (r: Result<Expr, Error>)
    ensures
        match r {
            Ok(e) => grammar::parse_text(s@) == Ok::<ExprView, ParseFailure>(e@),
            Err(error) => error matches Error::ParseError(failure) && grammar::parse_text(s@)
                == Err::<ExprView, ParseFailure>(failure),
        },
{
    let chars = chars_of(s);
    match expression_at(s, &chars, 0, MAX_NESTING) {
        Some((e, j)) => if j == chars.len() {
            Ok(e)
        } else {
            Err(Error::ParseError(ParseFailure::TrailingInput { at: j }))
        },
        None => Err(Error::ParseError(ParseFailure::NoExpression)),
    }
}

} // verus!
