//! The grammar of the language, as spec functions on a text and a position.
//!
//! ```text
//! expression         := binary_expression | value_expression
//! binary_expression  := value_expression operator expression
//! value_expression   := value
//! value              := "null" | "true" | "false" | identifier | quoted_string | integer
//! identifier         := [A-Za-z_][A-Za-z0-9_]*
//! quoted_string      := "'" chars "'" | '"' chars '"'
//! integer            := digit+
//! operator           := "==" | "!=" | "<=" | "<" | ">=" | ">"
//! ```
//!
//! Alternatives are tried in the order written and the first that matches is
//! taken.  White space is allowed around an operator and nowhere else.  The
//! body of a quoted string is at least one character, and a backslash in it
//! escapes the delimiter, a backslash or `n`; the body is kept as it is
//! written, backslashes included.  An integer has no sign and is at most
//! `i64::MAX`.  Binary expressions nest to the right, at most [`MAX_NESTING`]
//! deep.
//!
//! Each function takes the text and the index at which to match, and gives
//! what was matched together with the index at which the rest begins, or
//! `None`.

use crate::ast::{ExprView, Operator, ValueView};
use crate::error::ParseFailure;
use vstd::prelude::*;

verus! {

/// How many binary expressions may be nested in one another.  A longer chain
/// of operators is not an expression: what follows the last operand within
/// the limit is left unconsumed.
pub const MAX_NESTING: usize = 256;

/// The classes of characters that the grammar scans runs of.
#[derive(Clone, Copy, Debug, PartialEq, Eq, Structural)]
pub enum CharClass {
    /// `0` to `9`.
    Digit,
    /// A letter of `A` to `Z` or `a` to `z`, a digit or `_`.
    NamePart,
    /// A space, a tab, a carriage return or a line feed.
    Space,
}

/// `0` to `9`.
pub open spec fn is_digit(c: char) -> bool {
    '0' <= c <= '9'
}

/// `a` to `z` and `A` to `Z`.
pub open spec fn is_letter(c: char) -> bool {
    ('a' <= c <= 'z') || ('A' <= c <= 'Z')
}

/// A space, a tab, a carriage return or a line feed.
pub open spec fn is_space(c: char) -> bool {
    c == ' ' || c == '\t' || c == '\r' || c == '\n'
}

/// What a name may begin with: a letter or `_`.
pub open spec fn is_name_start(c: char) -> bool {
    is_letter(c) || c == '_'
}

/// Whether `c` belongs to `class`.
pub open spec fn in_class(class: CharClass, c: char) -> bool {
    match class {
        CharClass::Digit => is_digit(c),
        CharClass::NamePart => is_name_start(c) || is_digit(c),
        CharClass::Space => is_space(c),
    }
}

/// Where the longest run of characters of `class` that starts at `i` ends.
pub open spec fn run_end(s: Seq<char>, i: int, class: CharClass) -> int
    decreases s.len() - i,
{
    if 0 <= i < s.len() && in_class(class, s[i]) {
        run_end(s, i + 1, class)
    } else {
        i
    }
}

/// Whether `word` stands in `s` at index `i`.
pub open spec fn starts_with(s: Seq<char>, i: int, word: Seq<char>) -> bool {
    &&& 0 <= i
    &&& i + word.len() <= s.len()
    &&& s.subrange(i, i + word.len()) == word
}

/// One of the words `null`, `true` and `false`.
pub open spec fn keyword(s: Seq<char>, i: int) -> Option<(ValueView, int)> {
    if starts_with(s, i, seq!['n', 'u', 'l', 'l']) {
        Some((ValueView::Null, i + 4))
    } else if starts_with(s, i, seq!['t', 'r', 'u', 'e']) {
        Some((ValueView::Bool(true), i + 4))
    } else if starts_with(s, i, seq!['f', 'a', 'l', 's', 'e']) {
        Some((ValueView::Bool(false), i + 5))
    } else {
        None
    }
}

/// A letter or `_`, then letters, digits and `_`: the index at which the
/// name ends.
pub open spec fn identifier(s: Seq<char>, i: int) -> Option<int> {
    if 0 <= i < s.len() && is_name_start(s[i]) {
        Some(run_end(s, i + 1, CharClass::NamePart))
    } else {
        None
    }
}

/// Whether a backslash before `c` is an escape within a string delimited by
/// `quote`.
pub open spec fn is_escapable(c: char, quote: char) -> bool {
    c == quote || c == '\\' || c == 'n'
}

/// Where the body of a string ends that begins at `i` and is delimited by
/// `quote`: the index of the first `quote` that no backslash escapes.  A
/// backslash must be followed by the delimiter, a backslash or `n`, and the
/// two characters belong to the body; `None` where a backslash is followed by
/// anything else or the text ends before the delimiter.
pub open spec fn body_end(s: Seq<char>, i: int, quote: char) -> Option<int>
    decreases s.len() - i,
{
    if i < 0 || i >= s.len() {
        None
    } else if s[i] == quote {
        Some(i)
    } else if s[i] == '\\' {
        if i + 1 < s.len() && is_escapable(s[i + 1], quote) {
            body_end(s, i + 2, quote)
        } else {
            None
        }
    } else {
        body_end(s, i + 1, quote)
    }
}

/// A string between two `quote`s: its body, which is not empty and keeps its
/// backslashes, and the index after the closing delimiter.
pub open spec fn quoted_with(s: Seq<char>, i: int, quote: char) -> Option<(Seq<char>, int)> {
    if 0 <= i < s.len() && s[i] == quote {
        match body_end(s, i + 1, quote) {
            Some(j) => if j > i + 1 {
                Some((s.subrange(i + 1, j), j + 1))
            } else {
                None
            },
            None => None,
        }
    } else {
        None
    }
}

/// A string between single quotes.
pub open spec fn single_quoted_string(s: Seq<char>, i: int) -> Option<(Seq<char>, int)> {
    quoted_with(s, i, '\'')
}

/// A string between double quotes.
pub open spec fn double_quoted_string(s: Seq<char>, i: int) -> Option<(Seq<char>, int)> {
    quoted_with(s, i, '"')
}

/// A string between single quotes, else one between double quotes.
pub open spec fn quoted_string(s: Seq<char>, i: int) -> Option<(Seq<char>, int)> {
    match single_quoted_string(s, i) {
        Some(found) => Some(found),
        None => double_quoted_string(s, i),
    }
}

/// The number that a digit stands for.
pub open spec fn digit_value(c: char) -> int {
    c as int - '0' as int
}

/// The number that a run of digits writes in base ten.
pub open spec fn number(digits: Seq<char>) -> int
    decreases digits.len(),
{
    if digits.len() == 0 {
        0
    } else {
        number(digits.drop_last()) * 10 + digit_value(digits.last())
    }
}

/// One or more digits that write a number of at most `i64::MAX`.
pub open spec fn decimal(s: Seq<char>, i: int) -> Option<(int, int)> {
    let j = run_end(s, i, CharClass::Digit);
    if 0 <= i < j && number(s.subrange(i, j)) <= i64::MAX {
        Some((number(s.subrange(i, j)), j))
    } else {
        None
    }
}

/// A value: a keyword, else a name, else a quoted string, else a number.
pub open spec fn value(s: Seq<char>, i: int) -> Option<(ValueView, int)> {
    match keyword(s, i) {
        Some(found) => Some(found),
        None => match identifier(s, i) {
            Some(j) => Some((ValueView::Variable(s.subrange(i, j)), j)),
            None => match quoted_string(s, i) {
                Some((body, j)) => Some((ValueView::Str(body), j)),
                None => match decimal(s, i) {
                    Some((n, j)) => Some((ValueView::Int(n), j)),
                    None => None,
                },
            },
        },
    }
}

/// The symbol of an operator, the longer ones before their prefixes.
pub open spec fn symbol(s: Seq<char>, i: int) -> Option<(Operator, int)> {
    if starts_with(s, i, seq!['=', '=']) {
        Some((Operator::Eq, i + 2))
    } else if starts_with(s, i, seq!['!', '=']) {
        Some((Operator::Ne, i + 2))
    } else if starts_with(s, i, seq!['<', '=']) {
        Some((Operator::Le, i + 2))
    } else if starts_with(s, i, seq!['<']) {
        Some((Operator::Lt, i + 1))
    } else if starts_with(s, i, seq!['>', '=']) {
        Some((Operator::Ge, i + 2))
    } else if starts_with(s, i, seq!['>']) {
        Some((Operator::Gt, i + 1))
    } else {
        None
    }
}

/// An operator with the white space around it.
pub open spec fn operator(s: Seq<char>, i: int) -> Option<(Operator, int)> {
    match symbol(s, run_end(s, i, CharClass::Space)) {
        Some((op, j)) => Some((op, run_end(s, j, CharClass::Space))),
        None => None,
    }
}

/// A value, as the leaf of a tree.
pub open spec fn value_expression(s: Seq<char>, i: int) -> Option<(ExprView, int)> {
    match value(s, i) {
        Some((v, j)) => Some((ExprView::Value(v), j)),
        None => None,
    }
}

/// A value, an operator and an expression, which may nest `depth - 1` binary
/// expressions more.
pub open spec fn binary_expression(s: Seq<char>, i: int, depth: nat) -> Option<(ExprView, int)>
    decreases depth, 0int,
{
    if depth == 0 {
        None
    } else {
        match value_expression(s, i) {
            Some((left, j)) => match operator(s, j) {
                Some((op, k)) => match expression(s, k, (depth - 1) as nat) {
                    Some((right, m)) => Some(
                        (ExprView::BinaryExpr(op, Box::new(left), Box::new(right)), m),
                    ),
                    None => None,
                },
                None => None,
            },
            None => None,
        }
    }
}

/// A binary expression, else a value: so a chain of operators associates to
/// the right.  `depth` is the number of binary expressions that may nest.
pub open spec fn expression(s: Seq<char>, i: int, depth: nat) -> Option<(ExprView, int)>
    decreases depth, 1int,
{
    match binary_expression(s, i, depth) {
        Some(found) => Some(found),
        None => value_expression(s, i),
    }
}

/// The expression that the whole of `s` is, or why it is none.
pub open spec fn parse_text(s: Seq<char>) -> Result<ExprView, ParseFailure> {
    match expression(s, 0, MAX_NESTING as nat) {
        Some((e, j)) => if j == s.len() {
            Ok(e)
        } else {
            Err(ParseFailure::TrailingInput { at: j as usize })
        },
        None => Err(ParseFailure::NoExpression),
    }
}

/// A run holds characters of its class only, and ends at the end of the text
/// or before a character that is not of the class.
pub proof fn lemma_run(s: Seq<char>, i: int, class: CharClass)
    requires
        0 <= i <= s.len(),
    ensures
        i <= run_end(s, i, class) <= s.len(),
        forall|k: int| i <= k < run_end(s, i, class) ==> in_class(class, #[trigger] s[k]),
        run_end(s, i, class) < s.len() ==> !in_class(class, s[run_end(s, i, class)]),
    decreases s.len() - i,
{
    if i < s.len() && in_class(class, s[i]) {
        lemma_run(s, i + 1, class);
    }
}

/// One digit more writes ten times the number and the digit.
pub proof fn lemma_number_step(s: Seq<char>, i: int, k: int)
    requires
        0 <= i <= k < s.len(),
    ensures
        number(s.subrange(i, k + 1)) == number(s.subrange(i, k)) * 10 + digit_value(s[k]),
{
    assert(s.subrange(i, k + 1).drop_last() == s.subrange(i, k));
}

/// Digits write a number that is not negative.
pub proof fn lemma_number_not_negative(s: Seq<char>, i: int, k: int)
    requires
        0 <= i <= k <= s.len(),
        forall|m: int| i <= m < k ==> is_digit(#[trigger] s[m]),
    ensures
        0 <= number(s.subrange(i, k)),
    decreases k - i,
{
    if i < k {
        lemma_number_not_negative(s, i, k - 1);
        lemma_number_step(s, i, k - 1);
        assert(is_digit(s[k - 1]));
    }
}

/// A run of digits writes no less than each of its prefixes.
pub proof fn lemma_number_grows(s: Seq<char>, i: int, k: int, j: int)
    requires
        0 <= i <= k <= j <= s.len(),
        forall|m: int| i <= m < j ==> is_digit(#[trigger] s[m]),
    ensures
        0 <= number(s.subrange(i, k)) <= number(s.subrange(i, j)),
    decreases j - k,
{
    lemma_number_not_negative(s, i, k);
    if k < j {
        lemma_number_step(s, i, k);
        assert(is_digit(s[k]));
        lemma_number_grows(s, i, k + 1, j);
    }
}

} // verus!
