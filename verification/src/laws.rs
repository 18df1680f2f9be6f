//! What holds of the language as a whole, proved from the definitions of the
//! other modules.

use crate::ast::{ExprView, Kind, Operator, ValueView, VariableLookup};
use crate::error::{ErrorView, ParseFailure};
use crate::eval::{answers_as, apply_operator, eval, lemma_single_answers, may_evaluate, Env};
use crate::grammar::{
    binary_expression, body_end, expression, in_class, is_digit, keyword,
    lemma_number_not_negative, lemma_run, number, operator, parse_text, run_end, starts_with,
    symbol, value, value_expression, CharClass, MAX_NESTING,
};
use crate::text::lex_order;
use crate::unparse::{digit_char, digits_of, unparse_expr};
use vstd::prelude::*;

verus! {

/// Evaluation is deterministic where the lookup is: if the lookup answers
/// each variable of `e` in one way only, any two evaluations of `e` through
/// it give the same value or the same error.
pub proof fn lemma_evaluation_is_deterministic<T: VariableLookup + ?Sized>(
    e: ExprView,
    lookup: &T,
    env: Env,
    first: Result<ValueView, ErrorView>,
    second: Result<ValueView, ErrorView>,
)
    requires
        answers_as(lookup, e, env),
        may_evaluate(e, lookup, first),
        may_evaluate(e, lookup, second),
    ensures
        first == second,
        first == eval(e, env),
{
    lemma_single_answers(e, lookup, env, first);
    lemma_single_answers(e, lookup, env, second);
}

/// `==` and `!=` are defined on every two values, of one kind or of two:
/// they never fail, and each is the negation of the other.
pub proof fn lemma_equality_is_total(a: ValueView, b: ValueView)
    ensures
        apply_operator(Operator::Eq, a, b) == Ok::<ValueView, ErrorView>(ValueView::Bool(a == b)),
        apply_operator(Operator::Ne, a, b) == Ok::<ValueView, ErrorView>(ValueView::Bool(a != b)),
        a.kind() != b.kind() ==> a != b,
{
}

/// Whether `op` is one of `<`, `<=`, `>` and `>=`.
pub open spec fn is_ordering(op: Operator) -> bool {
    op == Operator::Lt || op == Operator::Le || op == Operator::Gt || op == Operator::Ge
}

/// Whether values of kind `kind` are ordered among themselves.
pub open spec fn is_ordered(kind: Kind) -> bool {
    kind == Kind::Bool || kind == Kind::Str || kind == Kind::Int
}

/// The ordering operators are partial: between two values of different
/// kinds, or of one kind that has no order, they fail with `Incomparable`;
/// between two values of one ordered kind they succeed.
pub proof fn lemma_ordering_is_partial(op: Operator, a: ValueView, b: ValueView)
    requires
        is_ordering(op),
    ensures
        a.kind() != b.kind() || !is_ordered(a.kind()) ==> apply_operator(op, a, b) == Err::<
            ValueView,
            ErrorView,
        >(ErrorView::Incomparable { left: a.kind(), right: b.kind() }),
        a.kind() == b.kind() && is_ordered(a.kind()) ==> apply_operator(op, a, b) is Ok,
{
}

/// Integers are ordered as numbers.
pub proof fn lemma_ordering_of_integers(x: int, y: int)
    ensures
        apply_operator(Operator::Lt, ValueView::Int(x), ValueView::Int(y)) == Ok::<
            ValueView,
            ErrorView,
        >(ValueView::Bool(x < y)),
        apply_operator(Operator::Le, ValueView::Int(x), ValueView::Int(y)) == Ok::<
            ValueView,
            ErrorView,
        >(ValueView::Bool(x <= y)),
        apply_operator(Operator::Gt, ValueView::Int(x), ValueView::Int(y)) == Ok::<
            ValueView,
            ErrorView,
        >(ValueView::Bool(x > y)),
        apply_operator(Operator::Ge, ValueView::Int(x), ValueView::Int(y)) == Ok::<
            ValueView,
            ErrorView,
        >(ValueView::Bool(x >= y)),
{
}

/// Booleans are ordered with `false` before `true`.
pub proof fn lemma_ordering_of_booleans(x: bool, y: bool)
    ensures
        apply_operator(Operator::Lt, ValueView::Bool(x), ValueView::Bool(y)) == Ok::<
            ValueView,
            ErrorView,
        >(ValueView::Bool(!x && y)),
        apply_operator(Operator::Le, ValueView::Bool(x), ValueView::Bool(y)) == Ok::<
            ValueView,
            ErrorView,
        >(ValueView::Bool(!x || y)),
        apply_operator(Operator::Gt, ValueView::Bool(x), ValueView::Bool(y)) == Ok::<
            ValueView,
            ErrorView,
        >(ValueView::Bool(x && !y)),
        apply_operator(Operator::Ge, ValueView::Bool(x), ValueView::Bool(y)) == Ok::<
            ValueView,
            ErrorView,
        >(ValueView::Bool(x || !y)),
{
}

/// Whether `a` comes before `b` because of index `k`: the two agree before
/// `k`, and there `a` ends while `b` goes on, or `a` has the character with
/// the smaller code point.
pub open spec fn decided_at(a: Seq<char>, b: Seq<char>, k: int) -> bool {
    &&& 0 <= k <= a.len()
    &&& k <= b.len()
    &&& a.subrange(0, k) == b.subrange(0, k)
    &&& if k == a.len() {
        k < b.len()
    } else {
        k < b.len() && a[k] < b[k]
    }
}

/// Strings are ordered lexicographically: `a < b` holds if and only if, at
/// the first index where the two differ, `a` has ended or has the smaller
/// character; `a <= b` adds the case that they are equal, and `>` and `>=`
/// are the same with the operands exchanged.
pub proof fn lemma_ordering_of_strings(a: Seq<char>, b: Seq<char>)
    ensures
        apply_operator(Operator::Lt, ValueView::Str(a), ValueView::Str(b)) == Ok::<
            ValueView,
            ErrorView,
        >(ValueView::Bool(exists|k: int| decided_at(a, b, k))),
        apply_operator(Operator::Le, ValueView::Str(a), ValueView::Str(b)) == Ok::<
            ValueView,
            ErrorView,
        >(ValueView::Bool(a == b || exists|k: int| decided_at(a, b, k))),
        apply_operator(Operator::Gt, ValueView::Str(a), ValueView::Str(b)) == Ok::<
            ValueView,
            ErrorView,
        >(ValueView::Bool(exists|k: int| decided_at(b, a, k))),
        apply_operator(Operator::Ge, ValueView::Str(a), ValueView::Str(b)) == Ok::<
            ValueView,
            ErrorView,
        >(ValueView::Bool(a == b || exists|k: int| decided_at(b, a, k))),
{
    lemma_lex_order(a, b);
}

/// What each outcome of `lex_order` means.
pub proof fn lemma_lex_order(a: Seq<char>, b: Seq<char>)
    ensures
        lex_order(a, b) is Less <==> exists|k: int| decided_at(a, b, k),
        lex_order(a, b) is Equal <==> a == b,
        lex_order(a, b) is Greater <==> exists|k: int| decided_at(b, a, k),
    decreases a.len(),
{
    assert(a.subrange(0, 0) =~= b.subrange(0, 0));
    if a.len() == 0 {
        if b.len() == 0 {
            assert(a =~= b);
            assert forall|k: int| !decided_at(a, b, k) && !decided_at(b, a, k) by {}
        } else {
            assert(decided_at(a, b, 0));
            assert forall|k: int| !decided_at(b, a, k) by {}
        }
    } else if b.len() == 0 {
        assert(decided_at(b, a, 0));
        assert forall|k: int| !decided_at(a, b, k) by {}
    } else if a[0] == b[0] {
        let x = a.drop_first();
        let y = b.drop_first();
        lemma_lex_order(x, y);
        assert forall|k: int| decided_at(x, y, k) implies decided_at(a, b, k + 1) by {
            assert(a.subrange(0, k + 1) =~= seq![a[0]] + x.subrange(0, k));
            assert(b.subrange(0, k + 1) =~= seq![b[0]] + y.subrange(0, k));
        }
        assert forall|k: int| decided_at(y, x, k) implies decided_at(b, a, k + 1) by {
            assert(a.subrange(0, k + 1) =~= seq![a[0]] + x.subrange(0, k));
            assert(b.subrange(0, k + 1) =~= seq![b[0]] + y.subrange(0, k));
        }
        assert forall|k: int| decided_at(a, b, k) implies decided_at(x, y, k - 1) by {
            assert(k > 0);
            assert(x.subrange(0, k - 1) =~= a.subrange(0, k).drop_first());
            assert(y.subrange(0, k - 1) =~= b.subrange(0, k).drop_first());
        }
        assert forall|k: int| decided_at(b, a, k) implies decided_at(y, x, k - 1) by {
            assert(k > 0);
            assert(x.subrange(0, k - 1) =~= a.subrange(0, k).drop_first());
            assert(y.subrange(0, k - 1) =~= b.subrange(0, k).drop_first());
        }
        if x == y {
            assert(a =~= seq![a[0]] + x);
            assert(b =~= seq![b[0]] + y);
        }
        if a == b {
            assert(x =~= y);
        }
    } else {
        assert(a != b);
        assert forall|k: int| k > 0 implies !decided_at(a, b, k) && !decided_at(b, a, k) by {
            if k <= a.len() && k <= b.len() && a.subrange(0, k) == b.subrange(0, k) {
                assert(a.subrange(0, k)[0] == b.subrange(0, k)[0]);
            }
        }
        if a[0] < b[0] {
            assert(decided_at(a, b, 0));
            assert(!decided_at(b, a, 0));
        } else {
            assert(decided_at(b, a, 0));
            assert(!decided_at(a, b, 0));
        }
    }
}

/// Whether `e` nests to the right only and at most `depth` deep: it is a
/// leaf, or an operator over a leaf and such a tree of depth `depth - 1`.
pub open spec fn nests_to_the_right(e: ExprView, depth: nat) -> bool
    decreases e,
{
    match e {
        ExprView::Value(_) => true,
        ExprView::BinaryExpr(_, left, right) => depth > 0 && *left is Value && nests_to_the_right(
            *right,
            (depth - 1) as nat,
        ),
    }
}

/// A value that is matched is not empty and lies within the text.
pub proof fn lemma_value_advances(s: Seq<char>, i: int)
    ensures
        value(s, i) matches Some((_, j)) ==> 0 <= i < j <= s.len(),
{
    if 0 <= i <= s.len() {
        lemma_run(s, i, CharClass::Digit);
        if i < s.len() {
            lemma_run(s, i + 1, CharClass::NamePart);
            lemma_body_end_within(s, i + 1, '\'');
            lemma_body_end_within(s, i + 1, '"');
        }
    }
}

/// The body of a string ends within the text.
proof fn lemma_body_end_within(s: Seq<char>, i: int, quote: char)
    requires
        0 <= i,
    ensures
        body_end(s, i, quote) matches Some(j) ==> i <= j < s.len(),
    decreases s.len() - i,
{
    if i < s.len() && s[i] != quote {
        if s[i] == '\\' {
            if i + 1 < s.len() {
                lemma_body_end_within(s, i + 2, quote);
            }
        } else {
            lemma_body_end_within(s, i + 1, quote);
        }
    }
}

/// Chains of operators associate to the right: the left operand of every
/// binary expression that is parsed is a leaf, so `a == b == c` is
/// `a == (b == c)`.  And what is parsed is not empty, lies within the text and
/// nests no deeper than it may.
pub proof fn lemma_parsing_nests_to_the_right(s: Seq<char>, i: int, depth: nat)
    ensures
        expression(s, i, depth) matches Some((e, j)) ==> nests_to_the_right(e, depth) && 0 <= i
            < j <= s.len(),
        binary_expression(s, i, depth) matches Some((e, j)) ==> nests_to_the_right(e, depth) && 0
            <= i < j <= s.len(),
    decreases depth,
{
    lemma_value_advances(s, i);
    if depth > 0 {
        if let Some((left, j)) = value_expression(s, i) {
            if let Some((op, k)) = operator(s, j) {
                lemma_run(s, j, CharClass::Space);
                let after_symbol = symbol(s, run_end(s, j, CharClass::Space))->Some_0.1;
                lemma_run(s, after_symbol, CharClass::Space);
                lemma_parsing_nests_to_the_right(s, k, (depth - 1) as nat);
            }
        }
    }
}

/// Whether `c` can stand between two `quote`s as the body of a string: it
/// is not empty, no `quote` in it is without a backslash before it, and each
/// backslash in it escapes a `quote`, a backslash or `n`.
pub open spec fn is_body(c: Seq<char>, quote: char) -> bool {
    c.len() > 0 && body_end(c.push(quote), 0, quote) == Some(c.len() as int)
}

/// Whether writing the tree `t` and parsing what was written gives `t` again:
/// `t` is a leaf, since the parentheses that `unparse` puts around a binary
/// expression are not in the grammar, and if it is a string, its characters
/// can stand between double quotes.
pub open spec fn round_trips(t: ExprView) -> bool {
    t matches ExprView::Value(v) && (v matches ValueView::Str(c) ==> is_body(c, '"'))
}

/// The round trip through `unparse` and `parse`: a tree that was parsed from
/// some text is parsed again from what `unparse` writes of it, if and only if
/// it is a leaf whose string, if it is one, can stand between double quotes.
pub proof fn lemma_round_trip(s: Seq<char>, t: ExprView)
    requires
        parse_text(s) == Ok::<ExprView, ParseFailure>(t),
    ensures
        parse_text(unparse_expr(t)) == Ok::<ExprView, ParseFailure>(t) <==> round_trips(t),
{
    let u = unparse_expr(t);
    match t {
        ExprView::BinaryExpr(op, left, right) => {
            lemma_not_a_value(u);
        },
        ExprView::Value(v) => {
            lemma_leaf_is_a_value(s, 0, MAX_NESTING as nat, v, s.len() as int);
            assert(value(s, 0) == Some((v, s.len() as int)));
            match v {
                ValueView::Null => {
                    assert(s =~= s.subrange(0, 4));
                    assert(u =~= s);
                },
                ValueView::Bool(b) => {
                    if b {
                        assert(s =~= s.subrange(0, 4));
                    } else {
                        assert(s =~= s.subrange(0, 5));
                    }
                    assert(u =~= s);
                },
                ValueView::Variable(name) => {
                    assert(name =~= s);
                },
                ValueView::Int(n) => {
                    lemma_run(s, 0, CharClass::Digit);
                    lemma_number_not_negative(s, 0, s.len() as int);
                    lemma_digits(n as nat);
                    lemma_run_whole(u, 0, CharClass::Digit);
                    lemma_keyword_begins_with_letter(u);
                    assert(u.subrange(0, u.len() as int) =~= u);
                    assert(value(u, 0) == Some((v, u.len() as int)));
                    lemma_value_is_a_leaf(u, MAX_NESTING as nat, v);
                },
                ValueView::Str(c) => {
                    lemma_keyword_begins_with_letter(u);
                    lemma_body_end_shift(c.push('"'), 0, '"', seq!['"']);
                    assert(u =~= seq!['"'] + c.push('"'));
                    assert(u[0] == '"');
                    if is_body(c, '"') {
                        assert(u.subrange(1, 1 + c.len() as int) =~= c);
                        assert(value(u, 0) == Some((v, u.len() as int)));
                        lemma_value_is_a_leaf(u, MAX_NESTING as nat, v);
                    }
                    if parse_text(u) == Ok::<ExprView, ParseFailure>(t) {
                        lemma_leaf_is_a_value(u, 0, MAX_NESTING as nat, v, u.len() as int);
                        let j = body_end(u, 1, '"')->Some_0;
                        assert(u.subrange(1, j) == c);
                        assert(u.subrange(1, j).len() == c.len());
                    }
                },
                ValueView::List(items) => {},
            }
        },
    }
}

/// A leaf that the rule `expression` gives is what the rule `value` gives.
proof fn lemma_leaf_is_a_value(s: Seq<char>, i: int, depth: nat, v: ValueView, j: int)
    requires
        expression(s, i, depth) == Some((ExprView::Value(v), j)),
    ensures
        value(s, i) == Some((v, j)),
{
    assert(binary_expression(s, i, depth) is None);
}

/// No operator stands at the end of a text.
proof fn lemma_no_operator_at_end(u: Seq<char>)
    ensures
        operator(u, u.len() as int) is None,
{
}

/// A value that is the whole of a text is the expression that the text is.
proof fn lemma_value_is_a_leaf(u: Seq<char>, depth: nat, v: ValueView)
    requires
        value(u, 0) == Some((v, u.len() as int)),
    ensures
        expression(u, 0, depth) == Some((ExprView::Value(v), u.len() as int)),
        depth == MAX_NESTING ==> parse_text(u) == Ok::<ExprView, ParseFailure>(ExprView::Value(v)),
{
    lemma_no_operator_at_end(u);
    assert(binary_expression(u, 0, depth) is None);
}

/// A keyword begins with `n`, `t` or `f`.
proof fn lemma_keyword_begins_with_letter(u: Seq<char>)
    ensures
        keyword(u, 0) is Some ==> u.len() > 0 && (u[0] == 'n' || u[0] == 't' || u[0] == 'f'),
{
    if starts_with(u, 0, seq!['n', 'u', 'l', 'l']) {
        assert(u.subrange(0, 4)[0] == 'n');
    }
    if starts_with(u, 0, seq!['t', 'r', 'u', 'e']) {
        assert(u.subrange(0, 4)[0] == 't');
    }
    if starts_with(u, 0, seq!['f', 'a', 'l', 's', 'e']) {
        assert(u.subrange(0, 5)[0] == 'f');
    }
}

/// No value begins with `(`, so what `unparse` writes of a binary expression
/// is not an expression.
proof fn lemma_not_a_value(u: Seq<char>)
    requires
        u.len() > 0,
        u[0] == '(',
    ensures
        parse_text(u) is Err,
{
    lemma_keyword_begins_with_letter(u);
    assert(value(u, 0) is None);
    assert(binary_expression(u, 0, MAX_NESTING as nat) is None);
}

/// A text of characters of one class is one run.
proof fn lemma_run_whole(u: Seq<char>, i: int, class: CharClass)
    requires
        0 <= i <= u.len(),
        forall|k: int| i <= k < u.len() ==> in_class(class, #[trigger] u[k]),
    ensures
        run_end(u, i, class) == u.len(),
    decreases u.len() - i,
{
    if i < u.len() {
        assert(in_class(class, u[i]));
        lemma_run_whole(u, i + 1, class);
    }
}

/// The digits that write a number are digits, at least one, and write that
/// number.
proof fn lemma_digits(n: nat)
    ensures
        digits_of(n).len() >= 1,
        forall|k: int| 0 <= k < digits_of(n).len() ==> is_digit(#[trigger] digits_of(n)[k]),
        number(digits_of(n)) == n,
    decreases n,
{
    let d = digits_of(n);
    if n < 10 {
        assert(d.drop_last() =~= Seq::<char>::empty());
        assert(number(d) == number(d.drop_last()) * 10 + (digit_char(n as int) as int - 48));
    } else {
        lemma_digits(n / 10);
        assert(d.drop_last() =~= digits_of(n / 10));
        assert(number(d) == number(d.drop_last()) * 10 + (digit_char((n % 10) as int) as int
            - 48));
    }
}

/// Where the body of a string ends does not depend on what stands before
/// the body.
proof fn lemma_body_end_shift(x: Seq<char>, i: int, quote: char, before: Seq<char>)
    requires
        0 <= i,
    ensures
        body_end(before + x, before.len() + i, quote) == match body_end(x, i, quote) {
            Some(j) => Some(before.len() + j),
            None => None,
        },
    decreases x.len() - i,
{
    let w = before + x;
    if i < x.len() {
        assert(w[before.len() + i] == x[i]);
        if x[i] == quote {
        } else if x[i] == '\\' {
            if i + 1 < x.len() {
                assert(w[before.len() + i + 1] == x[i + 1]);
                lemma_body_end_shift(x, i + 2, quote, before);
            }
        } else {
            lemma_body_end_shift(x, i + 1, quote, before);
        }
    }
}

} // verus!
