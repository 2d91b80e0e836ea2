//! Expression trees: the single node type shared by parsed syntax and
//! run-time values, and its mathematical model.

use vstd::prelude::*;

verus! {

/// The eight primitive operators.
#[derive(Debug, Clone, Copy, PartialEq, Eq, Structural)]
pub enum Op {
    Add,
    Sub,
    Mul,
    Div,
    Eq,
    NotEq,
    Greater,
    Smaller,
}

/// A node of the expression tree.
///
/// A `Float` holds the bit pattern of an IEEE-754 double.
#[derive(Debug, PartialEq)]
pub enum Object {
    Void,
    Integer(i64),
    Float(u64),
    Bool(bool),
    Operator(Op),
    Lambda(Vec<String>, Vec<Object>),
    Condition,
    List(Vec<Object>),
    Keyword(String),
    Name(String),
}

/// The mathematical model of an [`Object`]: the same tree over sequences.
pub enum Expr {
    Void,
    Integer(i64),
    Float(u64),
    Bool(bool),
    Operator(Op),
    Lambda(Seq<Seq<char>>, Seq<Expr>),
    Condition,
    List(Seq<Expr>),
    Keyword(Seq<char>),
    Name(Seq<char>),
}

/// The models of a vector of names.
pub open spec fn names_view(names: Seq<String>) -> Seq<Seq<char>> {
    Seq::new(names.len(), |i: int| names[i]@)
}

/// The models of a vector of nodes.
pub open spec fn objects_view(items: Seq<Object>) -> Seq<Expr>
    decreases items,
{
    Seq::new(items.len(), |i: int| if 0 <= i < items.len() { items[i]@ } else { Expr::Void })
}

impl View for Object {
    type V = Expr;

    open spec fn view(&self) -> Expr
        decreases self,
    {
        match self {
            Object::Void => Expr::Void,
            Object::Integer(n) => Expr::Integer(*n),
            Object::Float(bits) => Expr::Float(*bits),
            Object::Bool(b) => Expr::Bool(*b),
            Object::Operator(op) => Expr::Operator(*op),
            Object::Lambda(params, body) => Expr::Lambda(names_view(params@), objects_view(body@)),
            Object::Condition => Expr::Condition,
            Object::List(items) => Expr::List(objects_view(items@)),
            Object::Keyword(s) => Expr::Keyword(s@),
            Object::Name(s) => Expr::Name(s@),
        }
    }
}

/// Copies a vector of names.
pub fn clone_names(names: &Vec<String>) -> (r: Vec<String>)
    ensures
        names_view(r@) == names_view(names@),
{
    let mut out: Vec<String> = Vec::new();
    let mut i: usize = 0;
    while i < names.len()
        invariant
            i <= names.len(),
            out.len() == i,
            forall|j: int| 0 <= j < i ==> out[j]@ == names[j]@,
        decreases names.len() - i,
    {
        out.push(names[i].clone());
        i += 1;
    }
    assert(names_view(out@) =~= names_view(names@));
    out
}

/// Copies a vector of nodes.
pub fn clone_objects(items: &Vec<Object>) -> (r: Vec<Object>)
    ensures
        objects_view(r@) == objects_view(items@),
    decreases items,
{
    let mut out: Vec<Object> = Vec::new();
    let mut i: usize = 0;
    while i < items.len()
        invariant
            i <= items.len(),
            out.len() == i,
            forall|j: int| 0 <= j < i ==> out[j]@ == items[j]@,
        decreases items.len() - i,
    {
        out.push(items[i].clone());
        i += 1;
    }
    assert(objects_view(out@) =~= objects_view(items@));
    out
}

impl Clone for Object {
    /// A deep copy: the result has the same model.
    fn clone(&self) -> (r: Self)
        ensures
            r@ == self@,
        decreases self,
    {
        match self {
            Object::Void => Object::Void,
            Object::Integer(n) => Object::Integer(*n),
            Object::Float(bits) => Object::Float(*bits),
            Object::Bool(b) => Object::Bool(*b),
            Object::Operator(op) => Object::Operator(*op),
            Object::Lambda(params, body) => Object::Lambda(clone_names(params), clone_objects(body)),
            Object::Condition => Object::Condition,
            Object::List(items) => Object::List(clone_objects(items)),
            Object::Keyword(s) => Object::Keyword(s.clone()),
            Object::Name(s) => Object::Name(s.clone()),
        }
    }
}

} // verus!
