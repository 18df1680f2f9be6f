//! The tree of an expression, written for reading: one line for each node,
//! a node before its operands and the operands two spaces further in.
//!
//! The line of a binary expression is the name of its operator, the line of
//! a leaf is its value with the name of its kind: `Null`, `Bool(true)`,
//! `Int(-5)`, `Str("John")`, `Variable("name")`, `List([Int(1), Int(2)])`.
//! Strings and names stand between double quotes with their backslashes,
//! double quotes and control characters escaped, so that no value can break
//! a line: a dump has as many line feeds as the tree has nodes.

use crate::ast::{Expr, ExprView, Operator, Value, ValueView};
use crate::ast::{lemma_list_view, views_of};
use crate::text::chars_of;
use crate::unparse::{decimal_of, decimal_text, digit_char, digits_of};
use vstd::prelude::*;
use vstd::string::StringExecFns;

verus! {

/// The control characters of ASCII.
pub open spec fn is_control(c: char) -> bool {
    c < ' ' || c == '\u{7f}'
}

/// The character that writes the hexadecimal digit `d`, in lower case.
pub open spec fn hex_digit(d: int) -> char {
    if d < 10 {
        digit_char(d)
    } else {
        (d + 87) as char
    }
}

/// A number below 256 in hexadecimal, without a leading zero.
pub open spec fn hex_of(n: int) -> Seq<char> {
    if n < 16 {
        seq![hex_digit(n)]
    } else {
        seq![hex_digit(n / 16), hex_digit(n % 16)]
    }
}

/// How a character is written between double quotes: a backslash before a
/// backslash and before a double quote; `\n`, `\r`, `\t` and `\0` for a line
/// feed, a carriage return, a tab and the character zero; `\u{..}` with the
/// code in hexadecimal for the other control characters; every other
/// character as it is.
pub open spec fn escape_of(c: char) -> Seq<char> {
    if c == '\\' {
        seq!['\\', '\\']
    } else if c == '"' {
        seq!['\\', '"']
    } else if c == '\n' {
        seq!['\\', 'n']
    } else if c == '\r' {
        seq!['\\', 'r']
    } else if c == '\t' {
        seq!['\\', 't']
    } else if c == '\0' {
        seq!['\\', '0']
    } else if is_control(c) {
        seq!['\\', 'u', '{'] + hex_of(c as int) + seq!['}']
    } else {
        seq![c]
    }
}

/// A text with each of its characters escaped.
pub open spec fn escaped(s: Seq<char>) -> Seq<char>
    decreases s.len(),
{
    if s.len() == 0 {
        Seq::empty()
    } else {
        escaped(s.drop_last()) + escape_of(s.last())
    }
}

/// A text between double quotes, escaped.
pub open spec fn quoted(s: Seq<char>) -> Seq<char> {
    seq!['"'] + escaped(s) + seq!['"']
}

/// The name of an operator.
pub open spec fn name_of(op: Operator) -> Seq<char> {
    match op {
        Operator::Eq => seq!['E', 'q'],
        Operator::Ne => seq!['N', 'e'],
        Operator::Lt => seq!['L', 't'],
        Operator::Le => seq!['L', 'e'],
        Operator::Gt => seq!['G', 't'],
        Operator::Ge => seq!['G', 'e'],
        Operator::Contains => seq!['C', 'o', 'n', 't', 'a', 'i', 'n', 's'],
        Operator::And => seq!['A', 'n', 'd'],
        Operator::Or => seq!['O', 'r'],
    }
}

/// The line of a leaf: the name of the kind of the value and, in
/// parentheses, what the value holds.
pub open spec fn label_of(v: ValueView) -> Seq<char>
    decreases v, 0int,
{
    match v {
        ValueView::Null => seq!['N', 'u', 'l', 'l'],
        ValueView::Bool(b) => if b {
            seq!['B', 'o', 'o', 'l', '(', 't', 'r', 'u', 'e', ')']
        } else {
            seq!['B', 'o', 'o', 'l', '(', 'f', 'a', 'l', 's', 'e', ')']
        },
        ValueView::Str(s) => seq!['S', 't', 'r', '('] + quoted(s) + seq![')'],
        ValueView::Int(n) => seq!['I', 'n', 't', '('] + decimal_of(n) + seq![')'],
        ValueView::Variable(name) => seq!['V', 'a', 'r', 'i', 'a', 'b', 'l', 'e', '('] + quoted(
            name,
        ) + seq![')'],
        ValueView::List(items) => seq!['L', 'i', 's', 't', '(', '['] + labels_of(
            items,
            items.len(),
        ) + seq![']', ')'],
    }
}

/// The labels of the first `n` of `items`, with `, ` between them.
pub open spec fn labels_of(items: Seq<ValueView>, n: nat) -> Seq<char>
    decreases items, n,
{
    if n == 0 || n > items.len() {
        Seq::empty()
    } else if n == 1 {
        label_of(items[0])
    } else {
        labels_of(items, (n - 1) as nat) + seq![',', ' '] + label_of(items[n - 1])
    }
}

/// The lines of the dump of `e`, without their line feeds, where the line of
/// the root begins with `indent`: the line of a node, then the lines of its
/// left operand, then those of its right operand, the operands two spaces
/// further in.
pub open spec fn lines_of(e: ExprView, indent: Seq<char>) -> Seq<Seq<char>>
    decreases e,
{
    match e {
        ExprView::Value(v) => seq![indent + label_of(v)],
        ExprView::BinaryExpr(op, left, right) => seq![indent + name_of(op)] + lines_of(
            *left,
            indent + seq![' ', ' '],
        ) + lines_of(*right, indent + seq![' ', ' ']),
    }
}

/// The text made of `lines`, a line feed after each.
pub open spec fn text_of(lines: Seq<Seq<char>>) -> Seq<char>
    decreases lines.len(),
{
    if lines.len() == 0 {
        Seq::empty()
    } else {
        text_of(lines.drop_last()) + lines.last() + seq!['\n']
    }
}

/// The dump of `e` where the line of the root begins with `indent`.
pub open spec fn dump_of(e: ExprView, indent: Seq<char>) -> Seq<char> {
    text_of(lines_of(e, indent))
}

/// `n` spaces.
pub open spec fn spaces(n: nat) -> Seq<char> {
    Seq::new(n, |i: int| ' ')
}

/// The number of nodes of a tree.
pub open spec fn node_count(e: ExprView) -> nat
    decreases e,
{
    match e {
        ExprView::Value(_) => 1,
        ExprView::BinaryExpr(_, left, right) => 1 + node_count(*left) + node_count(*right),
    }
}

/// The number of line feeds in a text.
pub open spec fn line_feeds(s: Seq<char>) -> nat
    decreases s.len(),
{
    if s.len() == 0 {
        0
    } else {
        line_feeds(s.drop_last()) + if s.last() == '\n' {
            1nat
        } else {
            0nat
        }
    }
}

/// The line feeds of two texts put together are those of the one and those
/// of the other.
pub proof fn lemma_line_feeds_add(a: Seq<char>, b: Seq<char>)
    ensures
        line_feeds(a + b) == line_feeds(a) + line_feeds(b),
    decreases b.len(),
{
    if b.len() == 0 {
        assert(a + b =~= a);
    } else {
        assert((a + b).drop_last() =~= a + b.drop_last());
        lemma_line_feeds_add(a, b.drop_last());
    }
}

/// A text has no line feed if and only if it counts none.
pub proof fn lemma_no_line_feed(s: Seq<char>)
    ensures
        line_feeds(s) == 0 <==> !s.contains('\n'),
    decreases s.len(),
{
    if s.len() > 0 {
        let head = s.drop_last();
        lemma_no_line_feed(head);
        if s.last() == '\n' {
            assert(s[s.len() - 1] == '\n');
        } else if head.contains('\n') {
            let i = choose|i: int| 0 <= i < head.len() && head[i] == '\n';
            assert(s[i] == '\n');
        } else if s.contains('\n') {
            let i = choose|i: int| 0 <= i < s.len() && s[i] == '\n';
            assert(head[i] == '\n');
        }
    }
}

/// An escaped text has no line feed.
pub proof fn lemma_escaped_is_one_line(s: Seq<char>)
    ensures
        line_feeds(escaped(s)) == 0,
    decreases s.len(),
{
    if s.len() > 0 {
        lemma_escaped_is_one_line(s.drop_last());
        lemma_line_feeds_add(escaped(s.drop_last()), escape_of(s.last()));
        lemma_escape_is_one_line(s.last());
    }
}

/// What is written for one character has no line feed.
proof fn lemma_escape_is_one_line(c: char)
    ensures
        line_feeds(escape_of(c)) == 0,
{
    let e = escape_of(c);
    assert forall|i: int| 0 <= i < e.len() implies e[i] != '\n' by {}
    lemma_no_line_feed(e);
}

/// A number written in base ten has no line feed.
proof fn lemma_decimal_is_one_line(n: int)
    ensures
        line_feeds(decimal_of(n)) == 0,
{
    if n < 0 {
        lemma_digits_are_one_line((-n) as nat);
        lemma_line_feeds_add(seq!['-'], digits_of((-n) as nat));
        lemma_short_text(seq!['-']);
    } else {
        lemma_digits_are_one_line(n as nat);
    }
}

/// Digits hold no line feed.
proof fn lemma_digits_are_one_line(n: nat)
    ensures
        line_feeds(digits_of(n)) == 0,
    decreases n,
{
    if n < 10 {
        lemma_short_text(digits_of(n));
    } else {
        let last = seq![digit_char((n % 10) as int)];
        lemma_digits_are_one_line(n / 10);
        lemma_short_text(last);
        lemma_line_feeds_add(digits_of(n / 10), last);
        assert(digits_of(n) =~= digits_of(n / 10) + last);
    }
}

/// A text without the character line feed counts no line feed.
proof fn lemma_short_text(s: Seq<char>)
    requires
        forall|i: int| 0 <= i < s.len() ==> s[i] != '\n',
    ensures
        line_feeds(s) == 0,
{
    if s.contains('\n') {
        let i = choose|i: int| 0 <= i < s.len() && s[i] == '\n';
        assert(s[i] != '\n');
    }
    lemma_no_line_feed(s);
}

/// A text between double quotes, escaped, has no line feed.
proof fn lemma_quoted_is_one_line(s: Seq<char>)
    ensures
        line_feeds(quoted(s)) == 0,
{
    lemma_escaped_is_one_line(s);
    lemma_short_text(seq!['"']);
    lemma_line_feeds_add(seq!['"'], escaped(s));
    lemma_line_feeds_add(seq!['"'] + escaped(s), seq!['"']);
}

/// The label of a value holds no line feed, whatever the value holds: a leaf
/// is written on one line.
pub proof fn lemma_label_is_one_line(v: ValueView)
    ensures
        line_feeds(label_of(v)) == 0,
        !label_of(v).contains('\n'),
    decreases v, 0int,
{
    match v {
        ValueView::Null => {
            lemma_short_text(label_of(v));
        },
        ValueView::Bool(b) => {
            lemma_short_text(label_of(v));
        },
        ValueView::Str(s) => {
            let head = seq!['S', 't', 'r', '('];
            lemma_short_text(head);
            lemma_short_text(seq![')']);
            lemma_quoted_is_one_line(s);
            lemma_line_feeds_add(head, quoted(s));
            lemma_line_feeds_add(head + quoted(s), seq![')']);
        },
        ValueView::Int(n) => {
            let head = seq!['I', 'n', 't', '('];
            lemma_short_text(head);
            lemma_short_text(seq![')']);
            lemma_decimal_is_one_line(n);
            lemma_line_feeds_add(head, decimal_of(n));
            lemma_line_feeds_add(head + decimal_of(n), seq![')']);
        },
        ValueView::Variable(name) => {
            let head = seq!['V', 'a', 'r', 'i', 'a', 'b', 'l', 'e', '('];
            lemma_short_text(head);
            lemma_short_text(seq![')']);
            lemma_quoted_is_one_line(name);
            lemma_line_feeds_add(head, quoted(name));
            lemma_line_feeds_add(head + quoted(name), seq![')']);
        },
        ValueView::List(items) => {
            let head = seq!['L', 'i', 's', 't', '(', '['];
            let tail = seq![']', ')'];
            lemma_short_text(head);
            lemma_short_text(tail);
            lemma_labels_are_one_line(items, items.len());
            lemma_line_feeds_add(head, labels_of(items, items.len()));
            lemma_line_feeds_add(head + labels_of(items, items.len()), tail);
        },
    }
    lemma_no_line_feed(label_of(v));
}

/// The labels of the items of a list hold no line feed.
proof fn lemma_labels_are_one_line(items: Seq<ValueView>, n: nat)
    ensures
        line_feeds(labels_of(items, n)) == 0,
    decreases items, n,
{
    if n == 0 || n > items.len() {
    } else if n == 1 {
        lemma_label_is_one_line(items[0]);
    } else {
        let before = labels_of(items, (n - 1) as nat);
        let comma = seq![',', ' '];
        lemma_labels_are_one_line(items, (n - 1) as nat);
        lemma_label_is_one_line(items[n - 1]);
        lemma_short_text(comma);
        lemma_line_feeds_add(before, comma);
        lemma_line_feeds_add(before + comma, label_of(items[n - 1]));
    }
}

/// The name of an operator holds no line feed.
proof fn lemma_name_is_one_line(op: Operator)
    ensures
        line_feeds(name_of(op)) == 0,
{
    lemma_short_text(name_of(op));
}

/// Lines put one after the other make the text of the one followed by the
/// text of the other.
pub proof fn lemma_text_of_add(a: Seq<Seq<char>>, b: Seq<Seq<char>>)
    ensures
        text_of(a + b) == text_of(a) + text_of(b),
    decreases b.len(),
{
    if b.len() == 0 {
        assert(a + b =~= a);
        assert(text_of(a) + text_of(b) =~= text_of(a));
    } else {
        assert((a + b).drop_last() =~= a + b.drop_last());
        lemma_text_of_add(a, b.drop_last());
        assert(text_of(a + b) =~= text_of(a) + text_of(b));
    }
}

/// The text of one line is the line and a line feed.
pub proof fn lemma_text_of_one(line: Seq<char>)
    ensures
        text_of(seq![line]) == line + seq!['\n'],
{
    assert(seq![line].drop_last() =~= Seq::<Seq<char>>::empty());
    assert(text_of(Seq::<Seq<char>>::empty()) =~= Seq::<char>::empty());
    assert(text_of(seq![line]) =~= line + seq!['\n']);
}

/// A text of lines without line feeds has one line feed for each line.
pub proof fn lemma_one_line_feed_a_line(lines: Seq<Seq<char>>)
    requires
        forall|k: int| 0 <= k < lines.len() ==> line_feeds(#[trigger] lines[k]) == 0,
    ensures
        line_feeds(text_of(lines)) == lines.len(),
    decreases lines.len(),
{
    if lines.len() > 0 {
        let head = lines.drop_last();
        assert forall|k: int| 0 <= k < head.len() implies line_feeds(#[trigger] head[k]) == 0 by {
            assert(head[k] == lines[k]);
        }
        lemma_one_line_feed_a_line(head);
        assert(line_feeds(lines.last()) == 0);
        lemma_line_feeds_add(text_of(head), lines.last());
        lemma_line_feeds_add(text_of(head) + lines.last(), seq!['\n']);
        assert(seq!['\n'].drop_last() =~= Seq::<char>::empty());
        assert(line_feeds(Seq::<char>::empty()) == 0);
        assert(line_feeds(seq!['\n']) == 1);
    }
}

/// A dump has one line for each node of the tree: where the indentation
/// holds no line feed, there are as many lines as nodes, no line holds a line
/// feed, and the text has as many line feeds as the tree has nodes, each at
/// the end of the line of one node.
pub proof fn lemma_dump_is_line_by_line(e: ExprView, indent: Seq<char>)
    requires
        line_feeds(indent) == 0,
    ensures
        lines_of(e, indent).len() == node_count(e),
        forall|k: int|
            0 <= k < lines_of(e, indent).len() ==> line_feeds(#[trigger] lines_of(e, indent)[k])
                == 0,
        line_feeds(dump_of(e, indent)) == node_count(e),
    decreases e,
{
    let lines = lines_of(e, indent);
    match e {
        ExprView::Value(v) => {
            lemma_label_is_one_line(v);
            lemma_line_feeds_add(indent, label_of(v));
        },
        ExprView::BinaryExpr(op, left, right) => {
            let inner = indent + seq![' ', ' '];
            lemma_short_text(seq![' ', ' ']);
            lemma_line_feeds_add(indent, seq![' ', ' ']);
            lemma_name_is_one_line(op);
            lemma_line_feeds_add(indent, name_of(op));
            lemma_dump_is_line_by_line(*left, inner);
            lemma_dump_is_line_by_line(*right, inner);
            let first = seq![indent + name_of(op)];
            let l = lines_of(*left, inner);
            let r = lines_of(*right, inner);
            assert(lines == first + l + r);
            assert forall|k: int| 0 <= k < lines.len() implies line_feeds(#[trigger] lines[k])
                == 0 by {
                if k < 1 {
                    assert(lines[k] == indent + name_of(op));
                } else if k < 1 + l.len() {
                    assert(lines[k] == l[k - 1]);
                } else {
                    assert(lines[k] == r[k - 1 - l.len()]);
                }
            }
        },
    }
    lemma_one_line_feed_a_line(lines);
}

/// Spaces hold no line feed.
pub proof fn lemma_spaces_are_one_line(n: nat)
    ensures
        line_feeds(spaces(n)) == 0,
{
    lemma_short_text(spaces(n));
}

/// The text of a hexadecimal digit.
fn hex_digit_text(d: u32) -> (r: &'static str)
    requires
        d < 16,
    ensures
        r@ == seq![hex_digit(d as int)],
{
    proof {
        reveal_strlit("0");
        reveal_strlit("1");
        reveal_strlit("2");
        reveal_strlit("3");
        reveal_strlit("4");
        reveal_strlit("5");
        reveal_strlit("6");
        reveal_strlit("7");
        reveal_strlit("8");
        reveal_strlit("9");
        reveal_strlit("a");
        reveal_strlit("b");
        reveal_strlit("c");
        reveal_strlit("d");
        reveal_strlit("e");
        reveal_strlit("f");
    }
    let r = if d == 0 {
        "0"
    } else if d == 1 {
        "1"
    } else if d == 2 {
        "2"
    } else if d == 3 {
        "3"
    } else if d == 4 {
        "4"
    } else if d == 5 {
        "5"
    } else if d == 6 {
        "6"
    } else if d == 7 {
        "7"
    } else if d == 8 {
        "8"
    } else if d == 9 {
        "9"
    } else if d == 10 {
        "a"
    } else if d == 11 {
        "b"
    } else if d == 12 {
        "c"
    } else if d == 13 {
        "d"
    } else if d == 14 {
        "e"
    } else {
        "f"
    };
    assert(r@ =~= seq![hex_digit(d as int)]);
    r
}

/// What is written for `c` between double quotes, if that is not `c` itself.
fn escape_text(c: char) -> (r: Option<String>)
    ensures
        match r {
            Some(t) => t@ == escape_of(c),
            None => escape_of(c) == seq![c],
        },
{
    proof {
        reveal_strlit("\\\\");
        reveal_strlit("\\\"");
        reveal_strlit("\\n");
        reveal_strlit("\\r");
        reveal_strlit("\\t");
        reveal_strlit("\\0");
        reveal_strlit("\\u{");
        reveal_strlit("}");
    }
    if c == '\\' {
        let t = "\\\\".to_string();
        assert(t@ =~= escape_of(c));
        Some(t)
    } else if c == '"' {
        let t = "\\\"".to_string();
        assert(t@ =~= escape_of(c));
        Some(t)
    } else if c == '\n' {
        let t = "\\n".to_string();
        assert(t@ =~= escape_of(c));
        Some(t)
    } else if c == '\r' {
        let t = "\\r".to_string();
        assert(t@ =~= escape_of(c));
        Some(t)
    } else if c == '\t' {
        let t = "\\t".to_string();
        assert(t@ =~= escape_of(c));
        Some(t)
    } else if c == '\0' {
        let t = "\\0".to_string();
        assert(t@ =~= escape_of(c));
        Some(t)
    } else if c < ' ' || c == '\u{7f}' {
        let code: u32 = c as u32;
        let mut t = "\\u{".to_string();
        if code >= 16 {
            t.append(hex_digit_text(code / 16));
        }
        t.append(hex_digit_text(code % 16));
        t.append("}");
        assert(t@ =~= escape_of(c));
        Some(t)
    } else {
        None
    }
}

/// Writes `s` between double quotes, escaped.
pub fn quoted_text(s: &str) -> (r: String)
    ensures
        r@ == quoted(s@),
{
    let chars = chars_of(s);
    let mut r = "\"".to_string();
    proof {
        reveal_strlit("\"");
        assert(s@.subrange(0, 0) =~= Seq::<char>::empty());
        assert(r@ + s@.subrange(0, 0) =~= seq!['"'] + escaped(s@.subrange(0, 0)));
    }
    let mut start: usize = 0;
    let mut i: usize = 0;
    while i < chars.len()
        invariant
            start <= i <= chars.len(),
            chars@ == s@,
            r@ + s@.subrange(start as int, i as int) == seq!['"'] + escaped(
                s@.subrange(0, i as int),
            ),
        decreases chars.len() - i,
    {
        let c = chars[i];
        let ghost before = s@.subrange(0, i as int);
        let ghost pending = s@.subrange(start as int, i as int);
        proof {
            assert(s@.subrange(0, i + 1).drop_last() =~= before);
            assert(escaped(s@.subrange(0, i + 1)) == escaped(before) + escape_of(c));
        }
        match escape_text(c) {
            Some(t) => {
                r.append(s.substring_char(start, i));
                r.append(t.as_str());
                start = i + 1;
                proof {
                    assert(s@.subrange(start as int, i + 1) =~= Seq::<char>::empty());
                    assert(r@ + s@.subrange(start as int, i + 1) =~= (seq!['"'] + escaped(before))
                        + escape_of(c));
                    assert(seq!['"'] + escaped(s@.subrange(0, i + 1)) =~= (seq!['"'] + escaped(
                        before,
                    )) + escape_of(c));
                }
            },
            None => {
                proof {
                    assert(s@.subrange(start as int, i + 1) =~= pending + seq![c]);
                    assert(r@ + s@.subrange(start as int, i + 1) =~= (r@ + pending) + seq![c]);
                    assert(seq!['"'] + escaped(s@.subrange(0, i + 1)) =~= (seq!['"'] + escaped(
                        before,
                    )) + seq![c]);
                }
            },
        }
        i += 1;
    }
    r.append(s.substring_char(start, chars.len()));
    r.append("\"");
    proof {
        reveal_strlit("\"");
        assert(s@.subrange(0, s@.len() as int) =~= s@);
        assert(r@ =~= quoted(s@));
    }
    r
}

/// The name of an operator.
fn name_text(op: Operator) -> (r: &'static str)
    ensures
        r@ == name_of(op),
{
    proof {
        reveal_strlit("Eq");
        reveal_strlit("Ne");
        reveal_strlit("Lt");
        reveal_strlit("Le");
        reveal_strlit("Gt");
        reveal_strlit("Ge");
        reveal_strlit("Contains");
        reveal_strlit("And");
        reveal_strlit("Or");
    }
    let r = match op {
        Operator::Eq => "Eq",
        Operator::Ne => "Ne",
        Operator::Lt => "Lt",
        Operator::Le => "Le",
        Operator::Gt => "Gt",
        Operator::Ge => "Ge",
        Operator::Contains => "Contains",
        Operator::And => "And",
        Operator::Or => "Or",
    };
    assert(r@ =~= name_of(op));
    r
}

impl Value {
    /// The line of this value in a dump: its kind and what it holds, on one
    /// line.
    pub fn label(&self) -> (r: String)
        ensures
            r@ == label_of(self@),
            !r@.contains('\n'),
        decreases self,
    {
        proof {
            lemma_label_is_one_line(self@);
            reveal_strlit("Null");
            reveal_strlit("Bool(true)");
            reveal_strlit("Bool(false)");
            reveal_strlit("Str(");
            reveal_strlit("Int(");
            reveal_strlit("Variable(");
            reveal_strlit("List([");
            reveal_strlit("])");
            reveal_strlit(")");
        }
        match self {
            Value::Null => {
                let r = "Null".to_string();
                assert(r@ =~= label_of(self@));
                r
            },
            Value::Bool(b) => {
                let r = if *b {
                    "Bool(true)".to_string()
                } else {
                    "Bool(false)".to_string()
                };
                assert(r@ =~= label_of(self@));
                r
            },
            Value::Str(s) => {
                let mut r = "Str(".to_string();
                let written = quoted_text(s.as_str());
                r.append(written.as_str());
                r.append(")");
                assert(r@ =~= label_of(self@));
                r
            },
            Value::Int(n) => {
                let mut r = "Int(".to_string();
                let written = decimal_text(*n);
                r.append(written.as_str());
                r.append(")");
                assert(r@ =~= label_of(self@));
                r
            },
            Value::Variable(name) => {
                let mut r = "Variable(".to_string();
                let written = quoted_text(name.as_str());
                r.append(written.as_str());
                r.append(")");
                assert(r@ =~= label_of(self@));
                r
            },
            Value::List(items) => {
                proof {
                    lemma_list_view(*items);
                }
                let ghost views = views_of(items@);
                let mut r = "List([".to_string();
                let ghost head = r@;
                assert(head =~= seq!['L', 'i', 's', 't', '(', '[']);
                let mut i: usize = 0;
                while i < items.len()
                    invariant
                        i <= items.len(),
                        *self == Value::List(*items),
                        views == views_of(items@),
                        r@ == head + labels_of(views, i as nat),
                    decreases items.len() - i,
                {
                    proof {
                        vstd::std_specs::vec::axiom_vec_index_decreases(*items, i as int);
                        assert(self->List_0 == *items);
                    }
                    if i > 0 {
                        r.append(", ");
                    }
                    let item = items[i].label();
                    r.append(item.as_str());
                    proof {
                        reveal_strlit(", ");
                        assert(", "@ =~= seq![',', ' ']);
                        assert(views[i as int] == items@[i as int]@);
                        assert(r@ =~= head + labels_of(views, (i + 1) as nat));
                    }
                    i += 1;
                }
                r.append("])");
                assert(r@ =~= label_of(self@));
                r
            },
        }
    }
}

impl Expr {
    /// Writes the dump of this expression, the line of its root after
    /// `indent`.
    fn dump_below(&self, indent: &str) -> (r: String)
        ensures
            r@ == dump_of(self@, indent@),
        decreases self,
    {
        proof {
            reveal_strlit("\n");
            reveal_strlit("  ");
        }
        let mut r = indent.to_string();
        match self {
            Expr::BinaryExpr(op, left, right) => {
                let mut inner = indent.to_string();
                inner.append("  ");
                assert(inner@ =~= indent@ + seq![' ', ' ']);
                r.append(name_text(*op));
                r.append("\n");
                let left = left.dump_below(inner.as_str());
                r.append(left.as_str());
                let right = right.dump_below(inner.as_str());
                r.append(right.as_str());
                proof {
                    let first = seq![indent@ + name_of(*op)];
                    let l = lines_of(*self@->BinaryExpr_1, inner@);
                    let rr = lines_of(*self@->BinaryExpr_2, inner@);
                    lemma_text_of_one(indent@ + name_of(*op));
                    lemma_text_of_add(first, l);
                    lemma_text_of_add(first + l, rr);
                    assert(r@ =~= text_of(first) + text_of(l) + text_of(rr));
                }
            },
            Expr::Value(v) => {
                let label = v.label();
                r.append(label.as_str());
                r.append("\n");
                proof {
                    lemma_text_of_one(indent@ + label_of(v@));
                    assert(r@ =~= (indent@ + label_of(v@)) + seq!['\n']);
                }
            },
        }
        r
    }

    /// The tree of this expression, for reading: one line for each node, a
    /// node before its operands.  The line of the root is indented by two
    /// spaces `depth` times, the lines of the operands of a binary expression
    /// by two spaces more than the line of its operator.  No line is broken,
    /// whatever the values hold: the text has as many line feeds as the tree
    /// has nodes.
    pub fn dump(&self, depth: usize) -> (r: String)
        ensures
            r@ == dump_of(self@, spaces(2 * depth as nat)),
            line_feeds(r@) == node_count(self@),
    {
        let mut indent = String::new();
        let mut i: usize = 0;
        while i < depth
            invariant
                i <= depth,
                indent@ == spaces(2 * i as nat),
            decreases depth - i,
        {
            proof {
                reveal_strlit("  ");
            }
            indent.append("  ");
            assert(indent@ =~= spaces(2 * (i + 1) as nat));
            i += 1;
        }
        proof {
            lemma_spaces_are_one_line(2 * depth as nat);
            lemma_dump_is_line_by_line(self@, indent@);
        }
        self.dump_below(indent.as_str())
    }
}

} // verus!
