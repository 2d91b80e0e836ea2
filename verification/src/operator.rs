//! Applying a primitive operator to operands that are already evaluated.

use vstd::prelude::*;
use crate::error::{result_view, ArityFault, EvalError, Failure, TypeFault};
use crate::float::FloatArith;
use crate::object::{objects_view, Expr, Object, Op};
use crate::order::{equal, greater, same_tag, smaller, Order};

verus! {

/// Whether every operand has the variant of the first.
pub open spec fn all_same_tag(v: Seq<Expr>) -> bool {
    forall|i: int| 0 <= i < v.len() ==> same_tag(v[0], #[trigger] v[i])
}

/// Whether an operator is one of the four arithmetic ones.
pub open spec fn is_arithmetic(op: Op) -> bool {
    op == Op::Add || op == Op::Sub || op == Op::Mul || op == Op::Div
}

/// The quotient of two integers, rounded toward zero.
pub open spec fn truncated_quotient(a: int, b: int) -> int
    recommends
        b != 0,
{
    let q = (if a < 0 { -a } else { a }) / (if b < 0 { -b } else { b });
    if (a < 0) == (b < 0) {
        q
    } else {
        -q
    }
}

/// One step of an integer fold: the accumulator combined with the next
/// operand. Sums, differences and products wrap around; so does the one
/// quotient that does not fit.
pub open spec fn int_step(op: Op, acc: i64, x: i64) -> i64
    recommends
        is_arithmetic(op),
        op == Op::Div ==> x != 0,
{
    match op {
        Op::Add => acc.wrapping_add(x),
        Op::Sub => acc.wrapping_sub(x),
        Op::Mul => acc.wrapping_mul(x),
        _ => if acc == i64::MIN && x == -1 {
            i64::MIN
        } else {
            truncated_quotient(acc as int, x as int) as i64
        },
    }
}

/// The integer held by an operand.
pub open spec fn int_of(e: Expr) -> i64 {
    match e {
        Expr::Integer(n) => n,
        _ => 0,
    }
}

/// The left-to-right fold of an arithmetic operator over the first `n`
/// integer operands, starting from the first; it fails at the first zero
/// divisor.
pub open spec fn int_fold(op: Op, v: Seq<Expr>, n: int) -> Result<i64, Failure>
    decreases n,
{
    if n <= 1 {
        Ok(int_of(v[0]))
    } else {
        match int_fold(op, v, n - 1) {
            Err(e) => Err(e),
            Ok(acc) => {
                let x = int_of(v[n - 1]);
                if op == Op::Div && x == 0 {
                    Err(Failure::DivisionByZero)
                } else {
                    Ok(int_step(op, acc, x))
                }
            },
        }
    }
}

/// Whether every operand after the first equals the first.
pub open spec fn all_equal(v: Seq<Expr>) -> bool {
    forall|i: int| 1 <= i < v.len() ==> equal(#[trigger] v[i], v[0])
}

/// Whether some operand after the first differs from the first.
pub open spec fn some_differs(v: Seq<Expr>) -> bool {
    exists|i: int| 1 <= i < v.len() && !equal(#[trigger] v[i], v[0])
}

/// Whether the first operand is strictly greater than every other.
pub open spec fn first_greatest(v: Seq<Expr>) -> bool {
    forall|i: int| 1 <= i < v.len() ==> greater(v[0], #[trigger] v[i])
}

/// Whether the first operand is strictly smaller than every other.
pub open spec fn first_smallest(v: Seq<Expr>) -> bool {
    forall|i: int| 1 <= i < v.len() ==> smaller(v[0], #[trigger] v[i])
}

/// The bits of the double held by an operand.
pub open spec fn float_bits(e: Expr) -> u64 {
    match e {
        Expr::Float(bits) => bits,
        _ => 0,
    }
}

/// One step of a float fold: the host's sum, difference, product or
/// quotient of the accumulator and the next operand.
pub open spec fn float_step<A: FloatArith>(arith: &A, op: Op, acc: u64, x: u64) -> u64
    recommends
        is_arithmetic(op),
{
    match op {
        Op::Add => arith.sum_of(acc, x),
        Op::Sub => arith.difference_of(acc, x),
        Op::Mul => arith.product_of(acc, x),
        _ => arith.quotient_of(acc, x),
    }
}

/// The left-to-right fold of an arithmetic operator over the first `n`
/// float operands, starting from the first.
pub open spec fn float_fold<A: FloatArith>(arith: &A, op: Op, v: Seq<Expr>, n: int) -> u64
    decreases n,
{
    if n <= 1 {
        float_bits(v[0])
    } else {
        float_step(arith, op, float_fold(arith, op, v, n - 1), float_bits(v[n - 1]))
    }
}

/// What an operator yields on evaluated operands.
///
/// There must be at least one operand and all must have the same variant.
/// Arithmetic folds from left to right, starting from the first operand, so
/// that a lone number is its own result. Equality and the two order checks
/// compare every other operand with the first and are `false` for a lone
/// operand.
pub open spec fn apply<A: FloatArith>(arith: &A, op: Op, v: Seq<Expr>) -> Result<Expr, Failure> {
    if v.len() == 0 {
        Err(Failure::Arity(ArityFault::Operator))
    } else if !all_same_tag(v) {
        Err(Failure::TypeMismatch)
    } else {
        match op {
            Op::Eq => Ok(Expr::Bool(v.len() >= 2 && all_equal(v))),
            Op::NotEq => Ok(Expr::Bool(some_differs(v))),
            Op::Greater => Ok(Expr::Bool(v.len() >= 2 && first_greatest(v))),
            Op::Smaller => Ok(Expr::Bool(v.len() >= 2 && first_smallest(v))),
            _ => match v[0] {
                Expr::Integer(_) => match int_fold(op, v, v.len() as int) {
                    Ok(n) => Ok(Expr::Integer(n)),
                    Err(e) => Err(e),
                },
                Expr::Float(_) => Ok(Expr::Float(float_fold(arith, op, v, v.len() as int))),
                _ => Err(Failure::Type(TypeFault::Operand)),
            },
        }
    }
}

/// Divides two integers, rounding toward zero; `i64::MIN / -1` wraps around.
pub fn divide(a: i64, b: i64) -> (r: i64)
    requires
        b != 0,
    ensures
        r == int_step(Op::Div, a, b),
{
    proof {
        let p: int = if a < 0 { -a } else { a as int };
        let q: int = if b < 0 { -b } else { b as int };
        assert(0 <= p / q <= p) by (nonlinear_arith)
            requires
                p >= 0,
                q > 0,
        ;
        assert(q >= 2 && p > 0 ==> p / q < p) by (nonlinear_arith)
            requires
                p >= 0,
                q > 0,
        ;
        assert(p / 1 == p);
        assert(a * -1 == -a && b * -1 == -b);
        assert((p / q) * -1 == -(p / q));
    }
    match a.checked_div(b) {
        Some(q) => q,
        None => i64::MIN,
    }
}

/// Tests whether every operand has the variant of the first.
pub fn have_same_tag(operands: &Vec<Object>) -> (b: bool)
    ensures
        b == all_same_tag(objects_view(operands@)),
{
    let ghost v = objects_view(operands@);
    let mut i: usize = 1;
    while i < operands.len()
        invariant
            v == objects_view(operands@),
            1 <= i,
            forall|j: int| 0 <= j < i && j < v.len() ==> same_tag(v[0], #[trigger] v[j]),
        decreases operands.len() - i,
    {
        if operands[i].rank() != operands[0].rank() {
            assert(!same_tag(v[0], v[i as int]));
            return false;
        }
        i += 1;
    }
    true
}

/// Folds an arithmetic operator over integer operands, from left to right.
pub fn fold_integers(op: Op, operands: &Vec<Object>) -> (r: Result<i64, EvalError>)
    requires
        is_arithmetic(op),
        operands.len() >= 1,
    ensures
        (match r {
            Ok(n) => int_fold(op, objects_view(operands@), operands.len() as int) == Ok::<
                i64,
                Failure,
            >(n),
            Err(e) => int_fold(op, objects_view(operands@), operands.len() as int) == Err::<
                i64,
                Failure,
            >(e@),
        }),
{
    let ghost v = objects_view(operands@);
    let mut acc: i64 = integer_of(&operands[0]);
    let mut i: usize = 1;
    while i < operands.len()
        invariant
            v == objects_view(operands@),
            is_arithmetic(op),
            1 <= i <= operands.len(),
            int_fold(op, v, i as int) == Ok::<i64, Failure>(acc),
        decreases operands.len() - i,
    {
        let x: i64 = integer_of(&operands[i]);
        assert(int_of(v[i as int]) == x);
        match op {
            Op::Add => {
                acc = acc.wrapping_add(x);
            },
            Op::Sub => {
                acc = acc.wrapping_sub(x);
            },
            Op::Mul => {
                acc = acc.wrapping_mul(x);
            },
            _ => {
                if x == 0 {
                    assert(int_fold(op, v, i + 1) == Err::<i64, Failure>(Failure::DivisionByZero));
                    proof {
                        lemma_fold_failure_persists(op, v, i + 1, operands.len() as int);
                    }
                    return Err(EvalError::DivisionByZero);
                }
                acc = divide(acc, x);
            },
        }
        i += 1;
    }
    Ok(acc)
}

/// Once a fold has failed, it stays failed however many operands follow.
pub proof fn lemma_fold_failure_persists(op: Op, v: Seq<Expr>, n: int, m: int)
    requires
        n <= m,
        int_fold(op, v, n) is Err,
    ensures
        int_fold(op, v, m) == int_fold(op, v, n),
    decreases m - n,
{
    if n < m {
        lemma_fold_failure_persists(op, v, n, m - 1);
    }
}

/// The integer held by a node; 0 for any other node.
pub fn integer_of(o: &Object) -> (n: i64)
    ensures
        n == int_of(o@),
{
    match o {
        Object::Integer(n) => *n,
        _ => 0,
    }
}

/// The double held by a node, as bits; 0 for any other node.
pub fn float_of(o: &Object) -> (bits: u64)
    ensures
        bits == float_bits(o@),
{
    match o {
        Object::Float(bits) => *bits,
        _ => 0,
    }
}

/// Folds an arithmetic operator over float operands, from left to right,
/// with the host's arithmetic.
pub fn fold_floats<A: FloatArith>(op: Op, operands: &Vec<Object>, arith: &A) -> (r: u64)
    requires
        operands.len() >= 1,
    ensures
        r == float_fold(arith, op, objects_view(operands@), operands.len() as int),
{
    let ghost v = objects_view(operands@);
    let mut acc: u64 = float_of(&operands[0]);
    let mut i: usize = 1;
    while i < operands.len()
        invariant
            v == objects_view(operands@),
            1 <= i <= operands.len(),
            acc == float_fold(arith, op, v, i as int),
        decreases operands.len() - i,
    {
        let x: u64 = float_of(&operands[i]);
        assert(float_bits(v[i as int]) == x);
        acc = match op {
            Op::Add => arith.sum(acc, x),
            Op::Sub => arith.difference(acc, x),
            Op::Mul => arith.product(acc, x),
            _ => arith.quotient(acc, x),
        };
        i += 1;
    }
    acc
}

/// Tests whether every operand after the first equals the first.
pub fn are_all_equal(operands: &Vec<Object>) -> (b: bool)
    requires
        operands.len() >= 1,
    ensures
        b == all_equal(objects_view(operands@)),
{
    let ghost v = objects_view(operands@);
    let mut i: usize = 1;
    while i < operands.len()
        invariant
            v == objects_view(operands@),
            1 <= i,
            forall|j: int| 1 <= j < i && j < v.len() ==> equal(#[trigger] v[j], v[0]),
        decreases operands.len() - i,
    {
        match operands[i].order(&operands[0]) {
            Some(Order::Equal) => {},
            _ => {
                assert(!equal(v[i as int], v[0]));
                return false;
            },
        }
        i += 1;
    }
    true
}

/// Tests whether some operand after the first differs from the first.
pub fn does_some_differ(operands: &Vec<Object>) -> (b: bool)
    requires
        operands.len() >= 1,
    ensures
        b == some_differs(objects_view(operands@)),
{
    let ghost v = objects_view(operands@);
    let mut found = false;
    let mut i: usize = 1;
    while i < operands.len()
        invariant
            v == objects_view(operands@),
            1 <= i,
            found == (exists|j: int| 1 <= j < i && j < v.len() && !equal(#[trigger] v[j], v[0])),
        decreases operands.len() - i,
    {
        match operands[i].order(&operands[0]) {
            Some(Order::Equal) => {},
            _ => {
                assert(!equal(v[i as int], v[0]));
                found = true;
            },
        }
        i += 1;
    }
    found
}

/// Tests whether the first operand is strictly greater than every other.
pub fn is_first_greatest(operands: &Vec<Object>) -> (b: bool)
    requires
        operands.len() >= 1,
    ensures
        b == first_greatest(objects_view(operands@)),
{
    let ghost v = objects_view(operands@);
    let mut i: usize = 1;
    while i < operands.len()
        invariant
            v == objects_view(operands@),
            1 <= i,
            forall|j: int| 1 <= j < i && j < v.len() ==> greater(v[0], #[trigger] v[j]),
        decreases operands.len() - i,
    {
        match operands[0].order(&operands[i]) {
            Some(Order::Greater) => {},
            _ => {
                assert(!greater(v[0], v[i as int]));
                return false;
            },
        }
        i += 1;
    }
    true
}

/// Tests whether the first operand is strictly smaller than every other.
pub fn is_first_smallest(operands: &Vec<Object>) -> (b: bool)
    requires
        operands.len() >= 1,
    ensures
        b == first_smallest(objects_view(operands@)),
{
    let ghost v = objects_view(operands@);
    let mut i: usize = 1;
    while i < operands.len()
        invariant
            v == objects_view(operands@),
            1 <= i,
            forall|j: int| 1 <= j < i && j < v.len() ==> smaller(v[0], #[trigger] v[j]),
        decreases operands.len() - i,
    {
        match operands[0].order(&operands[i]) {
            Some(Order::Less) => {},
            _ => {
                assert(!smaller(v[0], v[i as int]));
                return false;
            },
        }
        i += 1;
    }
    true
}

/// Applies an operator to evaluated operands; arithmetic on floats is
/// the host's.
pub fn apply_operator<A: FloatArith>(op: Op, operands: &Vec<Object>, arith: &A) -> (r: Result<
    Object,
    EvalError,
>)
    ensures
        result_view(r) == apply(arith, op, objects_view(operands@)),
{
    if operands.len() == 0 {
        return Err(EvalError::Arity(ArityFault::Operator));
    }
    if !have_same_tag(operands) {
        return Err(EvalError::TypeMismatch);
    }
    match op {
        Op::Eq => Ok(Object::Bool(operands.len() >= 2 && are_all_equal(operands))),
        Op::NotEq => Ok(Object::Bool(does_some_differ(operands))),
        Op::Greater => Ok(Object::Bool(operands.len() >= 2 && is_first_greatest(operands))),
        Op::Smaller => Ok(Object::Bool(operands.len() >= 2 && is_first_smallest(operands))),
        _ => match &operands[0] {
            Object::Integer(_) => match fold_integers(op, operands) {
                Ok(n) => Ok(Object::Integer(n)),
                Err(e) => Err(e),
            },
            Object::Float(_) => Ok(Object::Float(fold_floats(op, operands, arith))),
            _ => Err(EvalError::Type(TypeFault::Operand)),
        },
    }
}

} // verus!
