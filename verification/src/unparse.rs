//! From trees back to text: `unparse` writes an expression in the syntax of
//! the language, every binary expression in parentheses and every string
//! between double quotes.

use crate::ast::{Expr, ExprView, Operator, Value, ValueView};
use crate::ast::{lemma_list_view, views_of};
use vstd::prelude::*;
use vstd::string::StringExecFns;

verus! {

/// The character that writes the digit `d`.
pub open spec fn digit_char(d: int) -> char {
    (d + 48) as char
}

/// The digits that write `n` in base ten, without leading zeros.
pub open spec fn digits_of(n: nat) -> Seq<char>
    decreases n,
{
    if n < 10 {
        seq![digit_char(n as int)]
    } else {
        digits_of(n / 10).push(digit_char((n % 10) as int))
    }
}

/// An integer in base ten, with `-` before a negative one.
pub open spec fn decimal_of(n: int) -> Seq<char> {
    if n < 0 {
        seq!['-'] + digits_of((-n) as nat)
    } else {
        digits_of(n as nat)
    }
}

/// How an operator is written.
pub open spec fn symbol_of(op: Operator) -> Seq<char> {
    match op {
        Operator::Eq => seq!['=', '='],
        Operator::Ne => seq!['!', '='],
        Operator::Lt => seq!['<'],
        Operator::Le => seq!['<', '='],
        Operator::Gt => seq!['>'],
        Operator::Ge => seq!['>', '='],
        Operator::Contains => seq!['c', 'o', 'n', 't', 'a', 'i', 'n', 's'],
        Operator::And => seq!['a', 'n', 'd'],
        Operator::Or => seq!['o', 'r'],
    }
}

/// How a value is written.  A string stands between double quotes as it is,
/// and the items of a list between brackets.
pub open spec fn unparse_value(v: ValueView) -> Seq<char>
    decreases v, 0int,
{
    match v {
        ValueView::Null => seq!['n', 'u', 'l', 'l'],
        ValueView::Bool(b) => if b {
            seq!['t', 'r', 'u', 'e']
        } else {
            seq!['f', 'a', 'l', 's', 'e']
        },
        ValueView::Str(s) => seq!['"'] + s + seq!['"'],
        ValueView::Int(n) => decimal_of(n),
        ValueView::Variable(name) => name,
        ValueView::List(items) => seq!['['] + unparse_items(items, items.len()) + seq![']'],
    }
}

/// The first `n` of `items` as they are written, with `, ` between them.
pub open spec fn unparse_items(items: Seq<ValueView>, n: nat) -> Seq<char>
    decreases items, n,
{
    if n == 0 || n > items.len() {
        Seq::empty()
    } else if n == 1 {
        unparse_value(items[0])
    } else {
        unparse_items(items, (n - 1) as nat) + seq![',', ' '] + unparse_value(items[n - 1])
    }
}

/// How an expression is written: a leaf as its value, a binary expression as
/// `(left operator right)`.
pub open spec fn unparse_expr(e: ExprView) -> Seq<char>
    decreases e,
{
    match e {
        ExprView::Value(v) => unparse_value(v),
        ExprView::BinaryExpr(op, left, right) => seq!['('] + unparse_expr(*left) + seq![' ']
            + symbol_of(op) + seq![' '] + unparse_expr(*right) + seq![')'],
    }
}

/// The text of one digit.
fn digit_text(d: u64) -> (r: &'static str)
    requires
        d < 10,
    ensures
        r@ == seq![digit_char(d as int)],
{
    proof {
        reveal_strlit("0");
        reveal_strlit("1");
        reveal_strlit("2");
        reveal_strlit("3");
        reveal_strlit("4");
        reveal_strlit("5");
        reveal_strlit("6");
        reveal_strlit("7");
        reveal_strlit("8");
        reveal_strlit("9");
    }
    let r = if d == 0 {
        "0"
    } else if d == 1 {
        "1"
    } else if d == 2 {
        "2"
    } else if d == 3 {
        "3"
    } else if d == 4 {
        "4"
    } else if d == 5 {
        "5"
    } else if d == 6 {
        "6"
    } else if d == 7 {
        "7"
    } else if d == 8 {
        "8"
    } else {
        "9"
    };
    assert(r@ =~= seq![digit_char(d as int)]);
    r
}

/// Writes `n` in base ten.
fn digits_text(n: u64) -> (r: String)
    ensures
        r@ == digits_of(n as nat),
    decreases n,
{
    if n < 10 {
        digit_text(n).to_string()
    } else {
        let mut r = digits_text(n / 10);
        r.append(digit_text(n % 10));
        assert(r@ =~= digits_of((n / 10) as nat).push(digit_char((n % 10) as int)));
        r
    }
}

/// Writes `n` in base ten, with its sign if it is negative.
pub fn decimal_text(n: i64) -> (r: String)
    ensures
        r@ == decimal_of(n as int),
{
    if n < 0 {
        let magnitude: u64 = (-(n + 1)) as u64 + 1;
        let mut r = "-".to_string();
        proof {
            reveal_strlit("-");
            assert("-"@ =~= seq!['-']);
        }
        let digits = digits_text(magnitude);
        r.append(digits.as_str());
        r
    } else {
        digits_text(n as u64)
    }
}

/// The text of an operator.
fn symbol_text(op: Operator) -> (r: &'static str)
    ensures
        r@ == symbol_of(op),
{
    proof {
        reveal_strlit("==");
        reveal_strlit("!=");
        reveal_strlit("<");
        reveal_strlit("<=");
        reveal_strlit(">");
        reveal_strlit(">=");
        reveal_strlit("contains");
        reveal_strlit("and");
        reveal_strlit("or");
    }
    let r = match op {
        Operator::Eq => "==",
        Operator::Ne => "!=",
        Operator::Lt => "<",
        Operator::Le => "<=",
        Operator::Gt => ">",
        Operator::Ge => ">=",
        Operator::Contains => "contains",
        Operator::And => "and",
        Operator::Or => "or",
    };
    assert(r@ =~= symbol_of(op));
    r
}

impl Value {
    /// Writes this value in the syntax of the language.
    pub fn unparse(&self) -> (r: String)
        ensures
            r@ == unparse_value(self@),
        decreases self,
    {
        proof {
            reveal_strlit("null");
            reveal_strlit("true");
            reveal_strlit("false");
            reveal_strlit("\"");
            reveal_strlit("[");
            reveal_strlit("]");
            reveal_strlit(", ");
        }
        match self {
            Value::Null => {
                let r = "null".to_string();
                assert(r@ =~= unparse_value(self@));
                r
            },
            Value::Bool(b) => {
                let r = if *b {
                    "true".to_string()
                } else {
                    "false".to_string()
                };
                assert(r@ =~= unparse_value(self@));
                r
            },
            Value::Str(s) => {
                let mut r = "\"".to_string();
                r.append(s.as_str());
                r.append("\"");
                assert(r@ =~= unparse_value(self@));
                r
            },
            Value::Int(n) => decimal_text(*n),
            Value::Variable(name) => name.clone(),
            Value::List(items) => {
                proof {
                    lemma_list_view(*items);
                }
                let ghost views = views_of(items@);
                let mut r = "[".to_string();
                let mut i: usize = 0;
                while i < items.len()
                    invariant
                        i <= items.len(),
                        *self == Value::List(*items),
                        views == views_of(items@),
                        r@ == seq!['['] + unparse_items(views, i as nat),
                    decreases items.len() - i,
                {
                    proof {
                        vstd::std_specs::vec::axiom_vec_index_decreases(*items, i as int);
                        assert(self->List_0 == *items);
                    }
                    if i > 0 {
                        r.append(", ");
                    }
                    let item = items[i].unparse();
                    r.append(item.as_str());
                    proof {
                        reveal_strlit(", ");
                        assert(", "@ =~= seq![',', ' ']);
                        assert(views[i as int] == items@[i as int]@);
                        assert(r@ =~= seq!['['] + unparse_items(views, (i + 1) as nat));
                    }
                    i += 1;
                }
                r.append("]");
                assert(r@ =~= unparse_value(self@));
                r
            },
        }
    }
}

impl Expr {
    /// Writes this expression in the syntax of the language, every binary
    /// expression in parentheses.
    pub fn unparse(&self) -> (r: String)
        ensures
            r@ == unparse_expr(self@),
        decreases self,
    {
        match self {
            Expr::BinaryExpr(op, left, right) => {
                proof {
                    reveal_strlit("(");
                    reveal_strlit(")");
                    reveal_strlit(" ");
                }
                let left = left.unparse();
                let right = right.unparse();
                let mut r = "(".to_string();
                r.append(left.as_str());
                r.append(" ");
                r.append(symbol_text(*op));
                r.append(" ");
                r.append(right.as_str());
                r.append(")");
                assert(r@ =~= unparse_expr(self@));
                r
            },
            Expr::Value(value) => value.unparse(),
        }
    }
}

} // verus!
