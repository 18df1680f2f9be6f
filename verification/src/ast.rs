//! The data model: operators, values and expression trees, each with the
//! mathematical view that the contracts of this crate speak of.

use vstd::prelude::*;
use vstd::std_specs::cmp::PartialEqSpecImpl;

verus! {

/// A binary operator of the language.
#[derive(Clone, Copy, Debug, PartialEq, Eq, Structural)]
pub enum Operator {
    Eq,
    Ne,
    Lt,
    Le,
    Gt,
    Ge,
    Contains,
    And,
    Or,
}

/// Which variant a [`Value`] is.
#[derive(Clone, Copy, Debug, PartialEq, Eq, Structural)]
pub enum Kind {
    Null,
    Bool,
    Str,
    Int,
    Variable,
    List,
}

/// A datum of the language.
///
/// `Variable` stands for a value that a [`VariableLookup`] has yet to supply;
/// the other variants are values in their own right.
#[derive(Debug)]
pub enum Value {
    /// The absent value, written `null`.
    Null,
    Bool(bool),
    Str(String),
    Int(i64),
    Variable(String),
    List(Vec<Value>),
}

/// What a [`Value`] is, with strings as sequences of characters and lists as
/// sequences of values.
pub enum ValueView {
    Null,
    Bool(bool),
    Str(Seq<char>),
    Int(int),
    Variable(Seq<char>),
    List(Seq<ValueView>),
}

impl ValueView {
    /// The variant of this value.
    pub open spec fn kind(self) -> Kind {
        match self {
            ValueView::Null => Kind::Null,
            ValueView::Bool(_) => Kind::Bool,
            ValueView::Str(_) => Kind::Str,
            ValueView::Int(_) => Kind::Int,
            ValueView::Variable(_) => Kind::Variable,
            ValueView::List(_) => Kind::List,
        }
    }
}

impl View for Value {
    type V = ValueView;

    open spec fn view(&self) -> ValueView
        decreases self,
    {
        match self {
            Value::Null => ValueView::Null,
            Value::Bool(b) => ValueView::Bool(*b),
            Value::Str(s) => ValueView::Str(s@),
            Value::Int(n) => ValueView::Int(*n as int),
            Value::Variable(name) => ValueView::Variable(name@),
            Value::List(items) => ValueView::List(
                Seq::new(
                    items@.len(),
                    |i: int|
                        if 0 <= i < items@.len() {
                            items@[i].view()
                        } else {
                            ValueView::Null
                        },
                ),
            ),
        }
    }
}

/// The views of the values of a list, in order.
pub open spec fn views_of(items: Seq<Value>) -> Seq<ValueView> {
    Seq::new(items.len(), |i: int| items[i]@)
}

/// The view of a list is the list of its items' views.
pub proof fn lemma_list_view(items: Vec<Value>)
    ensures
        Value::List(items)@ == ValueView::List(views_of(items@)),
{
    assert(Value::List(items)@->List_0 =~= views_of(items@));
}

impl Value {
    /// The variant of this value.
    pub fn kind(&self) -> (k: Kind)
        ensures
            k == self@.kind(),
    {
        match self {
            Value::Null => Kind::Null,
            Value::Bool(_) => Kind::Bool,
            Value::Str(_) => Kind::Str,
            Value::Int(_) => Kind::Int,
            Value::Variable(_) => Kind::Variable,
            Value::List(_) => Kind::List,
        }
    }

    /// Whether two values are the same variant with the same contents,
    /// lists item by item.
    pub fn same_as(&self, other: &Value) -> (r: bool)
        ensures
            r == (self@ == other@),
        decreases self,
    {
        match self {
            Value::Null => match other {
                Value::Null => true,
                _ => false,
            },
            Value::Bool(a) => match other {
                Value::Bool(b) => *a == *b,
                _ => false,
            },
            Value::Str(a) => match other {
                Value::Str(b) => *a == *b,
                _ => false,
            },
            Value::Int(a) => match other {
                Value::Int(b) => *a == *b,
                _ => false,
            },
            Value::Variable(a) => match other {
                Value::Variable(b) => *a == *b,
                _ => false,
            },
            Value::List(a) => match other {
                Value::List(b) => {
                    proof {
                        lemma_list_view(*a);
                        lemma_list_view(*b);
                    }
                    if a.len() != b.len() {
                        assert(views_of(a@).len() != views_of(b@).len());
                        return false;
                    }
                    let mut i: usize = 0;
                    while i < a.len()
                        invariant
                            i <= a.len(),
                            a.len() == b.len(),
                            *self == Value::List(*a),
                            forall|j: int| 0 <= j < i ==> a@[j]@ == b@[j]@,
                            self@ == ValueView::List(views_of(a@)),
                            other@ == ValueView::List(views_of(b@)),
                        decreases a.len() - i,
                    {
                        proof {
                            vstd::std_specs::vec::axiom_vec_index_decreases(*a, i as int);
                        }
                        if !a[i].same_as(&b[i]) {
                            assert(views_of(a@)[i as int] != views_of(b@)[i as int]);
                            return false;
                        }
                        i += 1;
                    }
                    assert(views_of(a@) =~= views_of(b@));
                    true
                },
                _ => false,
            },
        }
    }

    /// A copy of this value.
    pub fn duplicate(&self) -> (r: Value)
        ensures
            r@ == self@,
        decreases self,
    {
        match self {
            Value::Null => Value::Null,
            Value::Bool(b) => Value::Bool(*b),
            Value::Str(s) => Value::Str(s.clone()),
            Value::Int(n) => Value::Int(*n),
            Value::Variable(name) => Value::Variable(name.clone()),
            Value::List(items) => {
                let mut copy: Vec<Value> = Vec::new();
                let mut i: usize = 0;
                while i < items.len()
                    invariant
                        i <= items.len(),
                        *self == Value::List(*items),
                        copy@.len() == i,
                        forall|j: int| 0 <= j < i ==> copy@[j]@ == items@[j]@,
                    decreases items.len() - i,
                {
                    proof {
                        vstd::std_specs::vec::axiom_vec_index_decreases(*items, i as int);
                        assert(self->List_0 == *items);
                    }
                    copy.push(items[i].duplicate());
                    i += 1;
                }
                proof {
                    lemma_list_view(*items);
                    lemma_list_view(copy);
                    assert(views_of(copy@) =~= views_of(items@));
                }
                Value::List(copy)
            },
        }
    }
}

impl Clone for Value {
    fn clone(&self) -> (r: Value)
        ensures
            r@ == self@,
    {
        self.duplicate()
    }
}

impl PartialEq for Value {
    fn eq(&self, other: &Value) -> (r: bool) {
        self.same_as(other)
    }
}

impl PartialEqSpecImpl for Value {
    open spec fn obeys_eq_spec() -> bool {
        true
    }

    open spec fn eq_spec(&self, other: &Value) -> bool {
        self@ == other@
    }
}

/// An expression: a value at a leaf, or an operator over two expressions.
#[derive(Debug)]
pub enum Expr {
    BinaryExpr(Operator, Box<Expr>, Box<Expr>),
    Value(Value),
}

/// What an [`Expr`] is: the same tree over the views of its values.
pub enum ExprView {
    BinaryExpr(Operator, Box<ExprView>, Box<ExprView>),
    Value(ValueView),
}

impl View for Expr {
    type V = ExprView;

    open spec fn view(&self) -> ExprView
        decreases self,
    {
        match self {
            Expr::BinaryExpr(op, left, right) => ExprView::BinaryExpr(
                *op,
                Box::new((**left).view()),
                Box::new((**right).view()),
            ),
            Expr::Value(v) => ExprView::Value(v@),
        }
    }
}

impl Expr {
    /// Whether two expressions are the same tree.
    pub fn same_as(&self, other: &Expr) -> (r: bool)
        ensures
            r == (self@ == other@),
        decreases self,
    {
        match (self, other) {
            (Expr::BinaryExpr(op, left, right), Expr::BinaryExpr(op2, left2, right2)) => {
                *op == *op2 && left.same_as(left2) && right.same_as(right2)
            },
            (Expr::Value(a), Expr::Value(b)) => a.same_as(b),
            _ => false,
        }
    }
}

impl Clone for Expr {
    fn clone(&self) -> (r: Expr)
        ensures
            r@ == self@,
        decreases self,
    {
        match self {
            Expr::BinaryExpr(op, left, right) => Expr::BinaryExpr(
                *op,
                Box::new((**left).clone()),
                Box::new((**right).clone()),
            ),
            Expr::Value(v) => Expr::Value(v.clone()),
        }
    }
}

impl PartialEq for Expr {
    fn eq(&self, other: &Expr) -> (r: bool) {
        self.same_as(other)
    }
}

impl PartialEqSpecImpl for Expr {
    open spec fn obeys_eq_spec() -> bool {
        true
    }

    open spec fn eq_spec(&self, other: &Expr) -> bool {
        self@ == other@
    }
}

/// What a lookup may answer: a value, or the reason why it has none.
pub open spec fn answer_view(answer: Result<Value, String>) -> Result<ValueView, Seq<char>> {
    match answer {
        Ok(value) => Ok(value@),
        Err(reason) => Err(reason@),
    }
}

/// The capability that resolves the name of a variable to a value.
///
/// The host supplies it.  Nothing is asked of an implementation: what the
/// evaluator promises is stated over whatever `get_variable` returns, and an
/// implementation that says more of its answers in an `ensures` of its own
/// lets its callers conclude more.
pub trait VariableLookup {
    /// Resolves `name`: the value bound to it, or the reason why there is
    /// none.
    fn get_variable(&self, name: &str) -> Result<Value, String>;
}

/// The lookup that knows no variable.
pub struct EmptyLookup {}

impl VariableLookup for EmptyLookup {
    fn get_variable(&self, _name: &str) -> (answer: Result<Value, String>)
        ensures
            answer_view(answer) == Err::<ValueView, Seq<char>>("Variable not found."@),
    {
        Err("Variable not found.".to_string())
    }
}

} // verus!
