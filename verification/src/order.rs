//! The order of expression trees that the comparison operators use.
//!
//! Trees are ordered first by variant, in declaration order, then by their
//! fields from left to right; sequences are ordered lexicographically. Two
//! floats are ordered as IEEE-754 doubles, so a tree that holds a NaN may be
//! unordered with respect to another.

use vstd::prelude::*;
use vstd::utf8::encode_utf8;
use vstd::string::StringSliceAdditionalSpecFns;
use crate::object::{names_view, objects_view, Expr, Object, Op};

verus! {

/// The outcome of comparing two ordered values.
#[derive(Debug, Clone, Copy, PartialEq, Eq, Structural)]
pub enum Order {
    Less,
    Equal,
    Greater,
}

/// The order of two integers.
pub open spec fn int_order(a: int, b: int) -> Order {
    if a < b {
        Order::Less
    } else if a == b {
        Order::Equal
    } else {
        Order::Greater
    }
}

/// Whether a bit pattern encodes a NaN: all exponent bits set, mantissa not zero.
pub open spec fn float_is_nan(bits: u64) -> bool {
    bits % 0x8000_0000_0000_0000 > 0x7ff0_0000_0000_0000
}

/// A number that orders non-NaN doubles as their values are ordered: the
/// magnitude bits, negated where the sign bit is set. Both zeros map to 0.
pub open spec fn float_key(bits: u64) -> int {
    if bits >= 0x8000_0000_0000_0000 {
        -(bits - 0x8000_0000_0000_0000)
    } else {
        bits as int
    }
}

/// The IEEE-754 order of two doubles given by their bits; `None` where
/// either is a NaN.
pub open spec fn float_order(a: u64, b: u64) -> Option<Order> {
    if float_is_nan(a) || float_is_nan(b) {
        None
    } else {
        Some(int_order(float_key(a), float_key(b)))
    }
}

/// The position of an operator in declaration order.
pub open spec fn op_rank(op: Op) -> int {
    match op {
        Op::Add => 0,
        Op::Sub => 1,
        Op::Mul => 2,
        Op::Div => 3,
        Op::Eq => 4,
        Op::NotEq => 5,
        Op::Greater => 6,
        Op::Smaller => 7,
    }
}

/// The position of a tree's variant in declaration order.
pub open spec fn tag_rank(e: Expr) -> int {
    match e {
        Expr::Void => 0,
        Expr::Integer(_) => 1,
        Expr::Float(_) => 2,
        Expr::Bool(_) => 3,
        Expr::Operator(_) => 4,
        Expr::Lambda(_, _) => 5,
        Expr::Condition => 6,
        Expr::List(_) => 7,
        Expr::Keyword(_) => 8,
        Expr::Name(_) => 9,
    }
}

/// Whether two trees have the same variant.
pub open spec fn same_tag(a: Expr, b: Expr) -> bool {
    tag_rank(a) == tag_rank(b)
}

/// The lexicographic order of two byte strings from position `i` on, given
/// that they agree before it.
pub open spec fn bytes_order_from(a: Seq<u8>, b: Seq<u8>, i: int) -> Order
    decreases a.len() - i,
{
    if i >= a.len() {
        if i >= b.len() {
            Order::Equal
        } else {
            Order::Less
        }
    } else if i >= b.len() {
        Order::Greater
    } else if a[i] != b[i] {
        int_order(a[i] as int, b[i] as int)
    } else {
        bytes_order_from(a, b, i + 1)
    }
}

/// The order of two strings: that of their UTF-8 encodings, byte by byte.
pub open spec fn text_order(a: Seq<char>, b: Seq<char>) -> Order {
    bytes_order_from(encode_utf8(a), encode_utf8(b), 0)
}

/// The lexicographic order of two name lists from position `i` on.
pub open spec fn names_order_from(a: Seq<Seq<char>>, b: Seq<Seq<char>>, i: int) -> Order
    decreases a.len() - i,
{
    if i >= a.len() {
        if i >= b.len() {
            Order::Equal
        } else {
            Order::Less
        }
    } else if i >= b.len() {
        Order::Greater
    } else if text_order(a[i], b[i]) != Order::Equal {
        text_order(a[i], b[i])
    } else {
        names_order_from(a, b, i + 1)
    }
}

/// The order of two trees; `None` where a NaN decides.
pub open spec fn compare(a: Expr, b: Expr) -> Option<Order>
    decreases a, 0int,
{
    match (a, b) {
        (Expr::Void, Expr::Void) => Some(Order::Equal),
        (Expr::Integer(x), Expr::Integer(y)) => Some(int_order(x as int, y as int)),
        (Expr::Float(x), Expr::Float(y)) => float_order(x, y),
        (Expr::Bool(x), Expr::Bool(y)) => Some(
            int_order(if x { 1 } else { 0 }, if y { 1 } else { 0 }),
        ),
        (Expr::Operator(x), Expr::Operator(y)) => Some(int_order(op_rank(x), op_rank(y))),
        (Expr::Lambda(p, x), Expr::Lambda(q, y)) => {
            let names = names_order_from(p, q, 0);
            if names != Order::Equal {
                Some(names)
            } else {
                compare_all_from(x, y, 0)
            }
        },
        (Expr::Condition, Expr::Condition) => Some(Order::Equal),
        (Expr::List(x), Expr::List(y)) => compare_all_from(x, y, 0),
        (Expr::Keyword(x), Expr::Keyword(y)) => Some(text_order(x, y)),
        (Expr::Name(x), Expr::Name(y)) => Some(text_order(x, y)),
        _ => Some(int_order(tag_rank(a), tag_rank(b))),
    }
}

/// The lexicographic order of two sequences of trees from position `i` on:
/// the first pair that is not equal decides.
pub open spec fn compare_all_from(a: Seq<Expr>, b: Seq<Expr>, i: int) -> Option<Order>
    decreases a, a.len() - i,
{
    if i < 0 || i >= a.len() {
        if i >= b.len() {
            Some(Order::Equal)
        } else {
            Some(Order::Less)
        }
    } else if i >= b.len() {
        Some(Order::Greater)
    } else if compare(a[i], b[i]) != Some(Order::Equal) {
        compare(a[i], b[i])
    } else {
        compare_all_from(a, b, i + 1)
    }
}

/// Equality of two trees as the `==` operator of the language sees it.
pub open spec fn equal(a: Expr, b: Expr) -> bool {
    compare(a, b) == Some(Order::Equal)
}

/// Whether `a` is strictly greater than `b`.
pub open spec fn greater(a: Expr, b: Expr) -> bool {
    compare(a, b) == Some(Order::Greater)
}

/// Whether `a` is strictly smaller than `b`.
pub open spec fn smaller(a: Expr, b: Expr) -> bool {
    compare(a, b) == Some(Order::Less)
}

/// Orders two integers.
pub fn order_of(a: i64, b: i64) -> (r: Order)
    ensures
        r == int_order(a as int, b as int),
{
    if a < b {
        Order::Less
    } else if a == b {
        Order::Equal
    } else {
        Order::Greater
    }
}

/// Orders two doubles, given by their bits, as IEEE-754 does.
pub fn order_of_floats(a: u64, b: u64) -> (r: Option<Order>)
    ensures
        r == float_order(a, b),
{
    let sign: u64 = 0x8000_0000_0000_0000;
    let infinity: u64 = 0x7ff0_0000_0000_0000;
    let a_negative = a >= sign;
    let b_negative = b >= sign;
    let a_magnitude: u64 = if a_negative { a - sign } else { a };
    let b_magnitude: u64 = if b_negative { b - sign } else { b };
    if a_magnitude > infinity || b_magnitude > infinity {
        None
    } else if a_negative && b_negative {
        // both negative: the larger magnitude is the smaller number
        if a_magnitude > b_magnitude {
            Some(Order::Less)
        } else if a_magnitude == b_magnitude {
            Some(Order::Equal)
        } else {
            Some(Order::Greater)
        }
    } else if a_negative {
        if a_magnitude == 0 && b_magnitude == 0 {
            Some(Order::Equal)
        } else {
            Some(Order::Less)
        }
    } else if b_negative {
        if a_magnitude == 0 && b_magnitude == 0 {
            Some(Order::Equal)
        } else {
            Some(Order::Greater)
        }
    } else if a_magnitude < b_magnitude {
        Some(Order::Less)
    } else if a_magnitude == b_magnitude {
        Some(Order::Equal)
    } else {
        Some(Order::Greater)
    }
}

/// Orders two byte strings lexicographically.
pub fn order_of_bytes(a: &[u8], b: &[u8]) -> (r: Order)
    ensures
        r == bytes_order_from(a@, b@, 0),
{
    let mut i: usize = 0;
    while i < a.len() && i < b.len()
        invariant
            i <= a.len(),
            i <= b.len(),
            bytes_order_from(a@, b@, 0) == bytes_order_from(a@, b@, i as int),
        decreases a.len() - i,
    {
        if a[i] < b[i] {
            return Order::Less;
        }
        if a[i] > b[i] {
            return Order::Greater;
        }
        i += 1;
    }
    if i < b.len() {
        Order::Less
    } else if i < a.len() {
        Order::Greater
    } else {
        Order::Equal
    }
}

/// Orders two strings by their UTF-8 bytes.
pub fn order_of_text(a: &str, b: &str) -> (r: Order)
    ensures
        r == text_order(a@, b@),
{
    order_of_bytes(a.as_bytes(), b.as_bytes())
}

/// Orders two name lists lexicographically.
pub fn order_of_names(a: &Vec<String>, b: &Vec<String>) -> (r: Order)
    ensures
        r == names_order_from(names_view(a@), names_view(b@), 0),
{
    let ghost p = names_view(a@);
    let ghost q = names_view(b@);
    let mut i: usize = 0;
    while i < a.len() && i < b.len()
        invariant
            p == names_view(a@),
            q == names_view(b@),
            i <= a.len(),
            i <= b.len(),
            names_order_from(p, q, 0) == names_order_from(p, q, i as int),
        decreases a.len() - i,
    {
        let step = order_of_text(a[i].as_str(), b[i].as_str());
        match step {
            Order::Equal => {},
            _ => {
                return step;
            },
        }
        i += 1;
    }
    if i < b.len() {
        Order::Less
    } else if i < a.len() {
        Order::Greater
    } else {
        Order::Equal
    }
}

/// The position of an operator in declaration order.
pub fn rank_of_op(op: Op) -> (r: i64)
    ensures
        r == op_rank(op),
{
    match op {
        Op::Add => 0,
        Op::Sub => 1,
        Op::Mul => 2,
        Op::Div => 3,
        Op::Eq => 4,
        Op::NotEq => 5,
        Op::Greater => 6,
        Op::Smaller => 7,
    }
}

/// Orders two sequences of trees lexicographically.
pub fn order_of_all(a: &Vec<Object>, b: &Vec<Object>) -> (r: Option<Order>)
    ensures
        r == compare_all_from(objects_view(a@), objects_view(b@), 0),
    decreases a,
{
    let ghost p = objects_view(a@);
    let ghost q = objects_view(b@);
    let mut i: usize = 0;
    while i < a.len() && i < b.len()
        invariant
            p == objects_view(a@),
            q == objects_view(b@),
            i <= a.len(),
            i <= b.len(),
            compare_all_from(p, q, 0) == compare_all_from(p, q, i as int),
        decreases a.len() - i,
    {
        let step = a[i].order(&b[i]);
        match step {
            Some(Order::Equal) => {},
            _ => {
                return step;
            },
        }
        i += 1;
    }
    if i < b.len() {
        Some(Order::Less)
    } else if i < a.len() {
        Some(Order::Greater)
    } else {
        Some(Order::Equal)
    }
}

impl Object {
    /// The position of this tree's variant in declaration order.
    pub fn rank(&self) -> (r: i64)
        ensures
            r == tag_rank(self@),
    {
        match self {
            Object::Void => 0,
            Object::Integer(_) => 1,
            Object::Float(_) => 2,
            Object::Bool(_) => 3,
            Object::Operator(_) => 4,
            Object::Lambda(_, _) => 5,
            Object::Condition => 6,
            Object::List(_) => 7,
            Object::Keyword(_) => 8,
            Object::Name(_) => 9,
        }
    }

    /// Orders this tree against another; `None` where a NaN decides.
    pub fn order(&self, other: &Object) -> (r: Option<Order>)
        ensures
            r == compare(self@, other@),
        decreases self,
    {
        match (self, other) {
            (Object::Void, Object::Void) => Some(Order::Equal),
            (Object::Integer(x), Object::Integer(y)) => Some(order_of(*x, *y)),
            (Object::Float(x), Object::Float(y)) => order_of_floats(*x, *y),
            (Object::Bool(x), Object::Bool(y)) => Some(
                order_of(if *x { 1 } else { 0 }, if *y { 1 } else { 0 }),
            ),
            (Object::Operator(x), Object::Operator(y)) => Some(
                order_of(rank_of_op(*x), rank_of_op(*y)),
            ),
            (Object::Lambda(p, x), Object::Lambda(q, y)) => {
                let names = order_of_names(p, q);
                match names {
                    Order::Equal => order_of_all(x, y),
                    _ => Some(names),
                }
            },
            (Object::Condition, Object::Condition) => Some(Order::Equal),
            (Object::List(x), Object::List(y)) => order_of_all(x, y),
            (Object::Keyword(x), Object::Keyword(y)) => Some(order_of_text(x.as_str(), y.as_str())),
            (Object::Name(x), Object::Name(y)) => Some(order_of_text(x.as_str(), y.as_str())),
            _ => Some(order_of(self.rank(), other.rank())),
        }
    }
}

} // verus!
