//! Laws of evaluation, proved from the model.

use vstd::prelude::*;
use vstd::utf8::encode_utf8;
use crate::error::{ArityFault, Failure, TypeFault};
use crate::float::FloatArith;
use crate::eval::{
    bind_all,
    collected,
    ended,
    eval_each_model,
    eval_list_model,
    eval_model,
    failed,
    keeps_outer_frames,
    yielded,
};
use crate::object::{Expr, Op};
use crate::operator::{
    all_equal,
    all_same_tag,
    apply,
    first_greatest,
    first_smallest,
    int_fold,
    int_of,
    float_fold,
    float_step,
    int_step,
    is_arithmetic,
    some_differs,
    truncated_quotient,
};
use crate::order::{
    bytes_order_from,
    compare_all_from,
    equal,
    float_is_nan,
    greater,
    names_order_from,
    same_tag,
    smaller,
    Order,
};
use crate::scope::{env_extend, env_get, env_set, Env};

verus! {

/// Whether an expression evaluates to itself and leaves the environment
/// alone: the literals, `Void` and lambda values.
pub open spec fn is_value(e: Expr) -> bool {
    e is Void || e is Integer || e is Float || e is Bool || e is Lambda
}

/// A run of values evaluates to these values, in order, and changes nothing.
pub proof fn law_values_evaluate_to_themselves<A: FloatArith>(
    arith: &A,
    items: Seq<Expr>,
    from: int,
    upto: int,
    env: Env,
    depth: nat,
)
    requires
        0 <= from <= upto <= items.len(),
        forall|k: int| from <= k < upto ==> is_value(#[trigger] items[k]),
    ensures
        eval_each_model(arith, items, from, upto, true, env, depth) == collected(
            Ok(items.subrange(from, upto)),
            env,
        ),
    decreases upto - from,
{
    if from < upto {
        law_values_evaluate_to_themselves(arith, items, from, upto - 1, env, depth);
        let last = items[upto - 1];
        assert(is_value(last));
        assert(eval_model(arith, last, env, depth) == yielded(last, env));
        assert(items.subrange(from, upto - 1).push(last) =~= items.subrange(from, upto));
    } else {
        assert(items.subrange(from, upto) =~= Seq::<Expr>::empty());
    }
}

/// An operator applied to values yields what the operator yields on them,
/// and changes nothing.
pub proof fn law_operator_on_values<A: FloatArith>(arith: &A, op: Op, items: Seq<Expr>, env: Env, depth: nat)
    requires
        items.len() >= 1,
        items[0] == Expr::Operator(op),
        forall|k: int| 1 <= k < items.len() ==> is_value(#[trigger] items[k]),
    ensures
        eval_model(arith, Expr::List(items), env, depth) == ended(
            apply(arith, op, items.subrange(1, items.len() as int)),
            env,
        ),
{
    law_values_evaluate_to_themselves(arith, items, 1, items.len() as int, env, depth);
}

/// For all integers `a` and `b`, `(+ a b)`, `(- a b)`, `(* a b)` and, for
/// `b` other than zero, `(/ a b)` evaluate to one step of the operator on
/// `a` and `b`, whatever the environment.
pub proof fn law_binary_arithmetic<A: FloatArith>(arith: &A, op: Op, a: i64, b: i64, env: Env, depth: nat)
    requires
        is_arithmetic(op),
        op == Op::Div ==> b != 0,
    ensures
        eval_model(
            arith, Expr::List(seq![Expr::Operator(op), Expr::Integer(a), Expr::Integer(b)]),
            env,
            depth,
        ) == yielded(Expr::Integer(int_step(op, a, b)), env),
{
    let items = seq![Expr::Operator(op), Expr::Integer(a), Expr::Integer(b)];
    let v = items.subrange(1, 3);
    law_operator_on_values(arith, op, items, env, depth);
    assert(v =~= seq![Expr::Integer(a), Expr::Integer(b)]);
    assert(all_same_tag(v));
    reveal_with_fuel(int_fold, 3);
    assert(int_fold(op, v, 2) == Ok::<i64, Failure>(int_step(op, a, b)));
}

/// A step of `+`, `-` or `*` is the exact sum, difference or product
/// wherever that fits in 64 bits; a step of `/` is the quotient rounded
/// toward zero, but for the one quotient that does not fit.
pub proof fn law_steps_are_exact(a: i64, b: i64)
    ensures
        i64::MIN <= a + b <= i64::MAX ==> int_step(Op::Add, a, b) == a + b,
        i64::MIN <= a - b <= i64::MAX ==> int_step(Op::Sub, a, b) == a - b,
        i64::MIN <= a * b <= i64::MAX ==> int_step(Op::Mul, a, b) == a * b,
        b != 0 && !(a == i64::MIN && b == -1) ==> int_step(Op::Div, a, b) == truncated_quotient(
            a as int,
            b as int,
        ),
{
    if i64::MIN <= a * b <= i64::MAX {
        let p = a * b;
        let m = 0x1_0000_0000_0000_0000int;
        if p >= 0 {
            assert(p % m == p) by (nonlinear_arith)
                requires
                    0 <= p < m,
            ;
        } else {
            assert(p % m == p + m) by (nonlinear_arith)
                requires
                    -m < p < 0,
            ;
        }
    }
    if b != 0 && !(a == i64::MIN && b == -1) {
        law_quotient_truncates(a as int, b as int);
        let p: int = if a < 0 {
            -a
        } else {
            a as int
        };
        let q: int = if b < 0 {
            -b
        } else {
            b as int
        };
        assert(q >= 2 && p > 0 ==> p / q < p) by (nonlinear_arith)
            requires
                p >= 0,
                q > 0,
        ;
        assert(p / 1 == p);
    }
}

/// The truncated quotient `q` of `a` by `b` is the integer nearest to zero
/// for which `a - q * b` is smaller in size than `b` and has the sign of `a`.
pub proof fn law_quotient_truncates(a: int, b: int)
    requires
        b != 0,
    ensures
        ({
            let q = truncated_quotient(a, b);
            let r = a - q * b;
            &&& a >= 0 ==> 0 <= r && r < (if b < 0 {
                -b
            } else {
                b
            })
            &&& a < 0 ==> r <= 0 && r > (if b < 0 {
                b
            } else {
                -b
            })
        }),
{
    let p: int = if a < 0 {
        -a
    } else {
        a
    };
    let d: int = if b < 0 {
        -b
    } else {
        b
    };
    assert(0 <= p - (p / d) * d < d) by (nonlinear_arith)
        requires
            p >= 0,
            d > 0,
    ;
    let q = truncated_quotient(a, b);
    assert(q * b == (if a < 0 {
        -((p / d) * d)
    } else {
        (p / d) * d
    })) by (nonlinear_arith)
        requires
            q == (if (a < 0) == (b < 0) {
                p / d
            } else {
                -(p / d)
            }),
            d == (if b < 0 {
                -b
            } else {
                b
            }),
    ;
}

/// Whether every operand is an integer.
pub open spec fn all_integers(v: Seq<Expr>) -> bool {
    forall|i: int| 0 <= i < v.len() ==> (#[trigger] v[i]) is Integer
}

/// On integers, `==` is true exactly when there are at least two operands
/// and all are the same number, and `!=` is true exactly when some operand
/// is another number than the first.
pub proof fn law_equality_of_integers<A: FloatArith>(arith: &A, v: Seq<Expr>)
    requires
        v.len() >= 1,
        all_integers(v),
    ensures
        apply(arith, Op::Eq, v) == Ok::<Expr, Failure>(
            Expr::Bool(
                v.len() >= 2 && forall|i: int| 0 <= i < v.len() ==> (#[trigger] v[i]) == v[0],
            ),
        ),
        apply(arith, Op::NotEq, v) == Ok::<Expr, Failure>(
            Expr::Bool(exists|i: int| 0 <= i < v.len() && (#[trigger] v[i]) != v[0]),
        ),
{
    assert(v[0] is Integer);
    assert forall|i: int| 0 <= i < v.len() implies same_tag(v[0], #[trigger] v[i]) by {
        assert(v[i] is Integer);
    }
    assert forall|i: int| 0 <= i < v.len() implies (equal(#[trigger] v[i], v[0]) <==> v[i]
        == v[0]) by {
        assert(v[i] is Integer);
    }
    assert(all_equal(v) == (forall|i: int| 0 <= i < v.len() ==> (#[trigger] v[i]) == v[0])) by {
        if all_equal(v) {
            assert forall|i: int| 0 <= i < v.len() implies (#[trigger] v[i]) == v[0] by {
                if i >= 1 {
                    assert(equal(v[i], v[0]));
                }
            }
        }
    }
    assert(some_differs(v) == (exists|i: int| 0 <= i < v.len() && (#[trigger] v[i]) != v[0])) by {
        if some_differs(v) {
            let i = choose|i: int| 1 <= i < v.len() && !equal(#[trigger] v[i], v[0]);
            assert(v[i] != v[0]);
        }
        if exists|i: int| 0 <= i < v.len() && (#[trigger] v[i]) != v[0] {
            let i = choose|i: int| 0 <= i < v.len() && (#[trigger] v[i]) != v[0];
            assert(!equal(v[i], v[0]));
        }
    }
}

/// `!=` is true exactly when the operands are not all equal to the first:
/// with two or more operands it is the opposite of `==`.
pub proof fn law_not_equal_is_not_all_equal<A: FloatArith>(arith: &A, v: Seq<Expr>)
    requires
        v.len() >= 1,
        all_same_tag(v),
    ensures
        apply(arith, Op::NotEq, v) == Ok::<Expr, Failure>(Expr::Bool(!all_equal(v))),
        v.len() >= 2 ==> apply(arith, Op::Eq, v) == Ok::<Expr, Failure>(Expr::Bool(all_equal(v))),
{
    if some_differs(v) {
        let i = choose|i: int| 1 <= i < v.len() && !equal(#[trigger] v[i], v[0]);
        assert(!all_equal(v));
    }
    if !all_equal(v) {
        let i = choose|i: int| 1 <= i < v.len() && !equal(#[trigger] v[i], v[0]);
        assert(some_differs(v));
    }
}

/// Whether no float in a tree is a NaN.
pub open spec fn nan_free(e: Expr) -> bool
    decreases e,
{
    match e {
        Expr::Float(bits) => !float_is_nan(bits),
        Expr::Lambda(_, body) => forall|i: int|
            0 <= i < body.len() ==> nan_free(#[trigger] body[i]),
        Expr::List(items) => forall|i: int| 0 <= i < items.len() ==> nan_free(#[trigger] items[i]),
        _ => true,
    }
}

/// A byte string is equal to itself.
pub proof fn lemma_bytes_equal_themselves(a: Seq<u8>, i: int)
    requires
        0 <= i,
    ensures
        bytes_order_from(a, a, i) == Order::Equal,
    decreases a.len() - i,
{
    if i < a.len() {
        lemma_bytes_equal_themselves(a, i + 1);
    }
}

/// A list of names is equal to itself.
pub proof fn lemma_names_equal_themselves(a: Seq<Seq<char>>, i: int)
    requires
        0 <= i,
    ensures
        names_order_from(a, a, i) == Order::Equal,
    decreases a.len() - i,
{
    if i < a.len() {
        lemma_bytes_equal_themselves(encode_utf8(a[i]), 0);
        lemma_names_equal_themselves(a, i + 1);
    }
}

/// Every tree without a NaN equals itself.
pub proof fn law_equal_is_reflexive(e: Expr)
    requires
        nan_free(e),
    ensures
        equal(e, e),
    decreases e, 0nat,
{
    match e {
        Expr::Lambda(params, body) => {
            lemma_names_equal_themselves(params, 0);
            lemma_all_equal_themselves(body, 0);
        },
        Expr::List(items) => {
            lemma_all_equal_themselves(items, 0);
        },
        Expr::Keyword(s) => {
            lemma_bytes_equal_themselves(encode_utf8(s), 0);
        },
        Expr::Name(s) => {
            lemma_bytes_equal_themselves(encode_utf8(s), 0);
        },
        _ => {},
    }
}

/// A sequence of trees without a NaN equals itself.
pub proof fn lemma_all_equal_themselves(items: Seq<Expr>, i: int)
    requires
        0 <= i,
        forall|k: int| 0 <= k < items.len() ==> nan_free(#[trigger] items[k]),
    ensures
        compare_all_from(items, items, i) == Some(Order::Equal),
    decreases items, items.len() - i,
{
    if i < items.len() {
        law_equal_is_reflexive(items[i]);
        lemma_all_equal_themselves(items, i + 1);
    }
}

/// For every value `a` without a NaN, `(== a a a)` holds of the values.
pub proof fn law_equal_chain_of_one_value<A: FloatArith>(arith: &A, a: Expr)
    requires
        nan_free(a),
    ensures
        apply(arith, Op::Eq, seq![a, a, a]) == Ok::<Expr, Failure>(Expr::Bool(true)),
{
    let v = seq![a, a, a];
    law_equal_is_reflexive(a);
    assert(all_same_tag(v));
    assert(all_equal(v));
}

/// `(== a a a)` is true, and `(== a b)` is false for two different integers.
pub proof fn law_equal_chain<A: FloatArith>(arith: &A, a: i64, b: i64, env: Env, depth: nat)
    ensures
        eval_model(
            arith, Expr::List(
                seq![Expr::Operator(Op::Eq), Expr::Integer(a), Expr::Integer(a), Expr::Integer(a)],
            ),
            env,
            depth,
        ) == yielded(Expr::Bool(true), env),
        a != b ==> eval_model(
            arith, Expr::List(seq![Expr::Operator(Op::Eq), Expr::Integer(a), Expr::Integer(b)]),
            env,
            depth,
        ) == yielded(Expr::Bool(false), env),
{
    let same = seq![Expr::Operator(Op::Eq), Expr::Integer(a), Expr::Integer(a), Expr::Integer(a)];
    law_operator_on_values(arith, Op::Eq, same, env, depth);
    let v = same.subrange(1, 4);
    assert(v =~= seq![Expr::Integer(a), Expr::Integer(a), Expr::Integer(a)]);
    assert(all_same_tag(v));
    assert(all_equal(v));
    if a != b {
        let other = seq![Expr::Operator(Op::Eq), Expr::Integer(a), Expr::Integer(b)];
        law_operator_on_values(arith, Op::Eq, other, env, depth);
        let w = other.subrange(1, 3);
        assert(w =~= seq![Expr::Integer(a), Expr::Integer(b)]);
        assert(all_same_tag(w));
        assert(!equal(w[1], w[0]));
        assert(!all_equal(w));
    }
}

/// On integers, `>` is true exactly when there are at least two operands
/// and the first is greater than every other, and `<` likewise.
pub proof fn law_order_of_integers<A: FloatArith>(arith: &A, v: Seq<Expr>)
    requires
        v.len() >= 1,
        all_integers(v),
    ensures
        apply(arith, Op::Greater, v) == Ok::<Expr, Failure>(
            Expr::Bool(
                v.len() >= 2 && forall|i: int|
                    1 <= i < v.len() ==> int_of(v[0]) > int_of(#[trigger] v[i]),
            ),
        ),
        apply(arith, Op::Smaller, v) == Ok::<Expr, Failure>(
            Expr::Bool(
                v.len() >= 2 && forall|i: int|
                    1 <= i < v.len() ==> int_of(v[0]) < int_of(#[trigger] v[i]),
            ),
        ),
{
    assert(v[0] is Integer);
    assert forall|i: int| 0 <= i < v.len() implies same_tag(v[0], #[trigger] v[i]) by {
        assert(v[i] is Integer);
    }
    assert forall|i: int| 0 <= i < v.len() implies (greater(v[0], #[trigger] v[i]) <==> int_of(v[0])
        > int_of(v[i])) && (smaller(v[0], v[i]) <==> int_of(v[0]) < int_of(v[i])) by {
        assert(v[i] is Integer);
    }
    assert(first_greatest(v) == (forall|i: int| 1 <= i < v.len() ==> int_of(v[0]) > int_of(#[trigger] v[i])))
        by {
        if first_greatest(v) {
            assert forall|i: int| 1 <= i < v.len() implies int_of(v[0]) > int_of(#[trigger] v[i]) by {
                assert(greater(v[0], v[i]));
            }
        }
    }
    assert(first_smallest(v) == (forall|i: int| 1 <= i < v.len() ==> int_of(v[0]) < int_of(#[trigger] v[i])))
        by {
        if first_smallest(v) {
            assert forall|i: int| 1 <= i < v.len() implies int_of(v[0]) < int_of(#[trigger] v[i]) by {
                assert(smaller(v[0], v[i]));
            }
        }
    }
}

/// On three integers, `>` is true exactly when the first is greater than
/// both others, whatever their order; `<` likewise.
pub proof fn law_order_of_three<A: FloatArith>(arith: &A, a: i64, b: i64, c: i64)
    ensures
        apply(
            arith,
            Op::Greater,
            seq![Expr::Integer(a), Expr::Integer(b), Expr::Integer(c)],
        ) == Ok::<Expr, Failure>(Expr::Bool(a > b && a > c)),
        apply(
            arith,
            Op::Smaller,
            seq![Expr::Integer(a), Expr::Integer(b), Expr::Integer(c)],
        ) == Ok::<Expr, Failure>(Expr::Bool(a < b && a < c)),
{
    let v = seq![Expr::Integer(a), Expr::Integer(b), Expr::Integer(c)];
    assert(v[0] == Expr::Integer(a) && v[1] == Expr::Integer(b) && v[2] == Expr::Integer(c));
    assert(all_same_tag(v));
    assert(greater(v[0], v[1]) == (a > b));
    assert(greater(v[0], v[2]) == (a > c));
    assert(smaller(v[0], v[1]) == (a < b));
    assert(smaller(v[0], v[2]) == (a < c));
    assert(first_greatest(v) == (a > b && a > c));
    assert(first_smallest(v) == (a < b && a < c));
}

/// `(> a b c)` is true exactly when `a` is greater than both `b` and `c`.
pub proof fn law_greater_chain<A: FloatArith>(arith: &A, a: i64, b: i64, c: i64, env: Env, depth: nat)
    ensures
        eval_model(
            arith, Expr::List(
                seq![
                    Expr::Operator(Op::Greater),
                    Expr::Integer(a),
                    Expr::Integer(b),
                    Expr::Integer(c),
                ],
            ),
            env,
            depth,
        ) == yielded(Expr::Bool(a > b && a > c), env),
{
    let items = seq![
        Expr::Operator(Op::Greater),
        Expr::Integer(a),
        Expr::Integer(b),
        Expr::Integer(c),
    ];
    law_operator_on_values(arith, Op::Greater, items, env, depth);
    assert(items.subrange(1, 4) =~= seq![Expr::Integer(a), Expr::Integer(b), Expr::Integer(c)]);
    law_order_of_three(arith, a, b, c);
}

/// `(< a b c)` is true exactly when `a` is smaller than both `b` and `c`.
pub proof fn law_smaller_chain<A: FloatArith>(arith: &A, a: i64, b: i64, c: i64, env: Env, depth: nat)
    ensures
        eval_model(
            arith, Expr::List(
                seq![
                    Expr::Operator(Op::Smaller),
                    Expr::Integer(a),
                    Expr::Integer(b),
                    Expr::Integer(c),
                ],
            ),
            env,
            depth,
        ) == yielded(Expr::Bool(a < b && a < c), env),
{
    let items = seq![
        Expr::Operator(Op::Smaller),
        Expr::Integer(a),
        Expr::Integer(b),
        Expr::Integer(c),
    ];
    law_operator_on_values(arith, Op::Smaller, items, env, depth);
    assert(items.subrange(1, 4) =~= seq![Expr::Integer(a), Expr::Integer(b), Expr::Integer(c)]);
    law_order_of_three(arith, a, b, c);
}

/// Operands of different kinds are never coerced: whatever the operator,
/// applying it fails with `TypeMismatch`.
pub proof fn law_mixed_operands_fail<A: FloatArith>(arith: &A, op: Op, v: Seq<Expr>, i: int)
    requires
        0 <= i < v.len(),
        !same_tag(v[0], v[i]),
    ensures
        apply(arith, op, v) == Err::<Expr, Failure>(Failure::TypeMismatch),
{
}

/// An integer and a float under one operator fail with `TypeMismatch`.
pub proof fn law_integer_with_float_fails<A: FloatArith>(arith: &A, op: Op, a: i64, x: u64, env: Env, depth: nat)
    ensures
        eval_model(
            arith, Expr::List(seq![Expr::Operator(op), Expr::Integer(a), Expr::Float(x)]),
            env,
            depth,
        ) == failed(Failure::TypeMismatch, env),
{
    let items = seq![Expr::Operator(op), Expr::Integer(a), Expr::Float(x)];
    law_operator_on_values(arith, op, items, env, depth);
    let v = items.subrange(1, 3);
    assert(v =~= seq![Expr::Integer(a), Expr::Float(x)]);
    law_mixed_operands_fail(arith, op, v, 1);
}

/// An `if` whose condition is true evaluates its second branch in the
/// environment that the condition left, and one whose condition is false
/// its third: the branch not taken has no part in the outcome.
pub proof fn law_if_takes_one_branch<A: FloatArith>(
    arith: &A,
    c: Expr,
    t: Expr,
    e: Expr,
    env: Env,
    depth: nat,
)
    ensures
        ({
            let whole = eval_model(arith, Expr::List(seq![Expr::Condition, c, t, e]), env, depth);
            let o = eval_model(arith, c, env, depth);
            match o.result {
                Ok(Expr::Bool(true)) => whole == eval_model(arith, t, o.env, depth),
                Ok(Expr::Bool(false)) => whole == eval_model(arith, e, o.env, depth),
                Ok(_) => whole == failed(Failure::Type(TypeFault::Condition), o.env),
                Err(_) => whole == o,
            }
        }),
{
}

/// Replacing the branch that is not taken changes nothing.
pub proof fn law_untaken_branch_is_ignored<A: FloatArith>(
    arith: &A,
    c: Expr,
    t: Expr,
    e: Expr,
    other: Expr,
    env: Env,
    depth: nat,
)
    ensures
        eval_model(arith, c, env, depth).result == Ok::<Expr, Failure>(Expr::Bool(true))
            ==> eval_model(arith, Expr::List(seq![Expr::Condition, c, t, e]), env, depth)
            == eval_model(arith, Expr::List(seq![Expr::Condition, c, t, other]), env, depth),
        eval_model(arith, c, env, depth).result == Ok::<Expr, Failure>(Expr::Bool(false))
            ==> eval_model(arith, Expr::List(seq![Expr::Condition, c, t, e]), env, depth)
            == eval_model(arith, Expr::List(seq![Expr::Condition, c, other, e]), env, depth),
{
    law_if_takes_one_branch(arith, c, t, e, env, depth);
    law_if_takes_one_branch(arith, c, t, other, env, depth);
    law_if_takes_one_branch(arith, c, other, e, env, depth);
}

/// A name without a binding fails with `UnboundName`, and so does an
/// operator application whose first operand is such a name.
pub proof fn law_unbound_name_fails<A: FloatArith>(arith: &A, op: Op, name: Seq<char>, rest: Seq<Expr>, env: Env, depth: nat)
    requires
        env_get(env, name) is None,
    ensures
        eval_model(arith, Expr::Name(name), env, depth) == failed(Failure::UnboundName(name), env),
        eval_model(
            arith, Expr::List(seq![Expr::Operator(op), Expr::Name(name)] + rest),
            env,
            depth,
        ) == failed(Failure::UnboundName(name), env),
{
    let items = seq![Expr::Operator(op), Expr::Name(name)] + rest;
    lemma_each_fails_at_first(arith, items, 1, items.len() as int, true, env, depth);
}

/// If the first element of a run fails, the run fails in the same way.
pub proof fn lemma_each_fails_at_first<A: FloatArith>(
    arith: &A,
    items: Seq<Expr>,
    from: int,
    upto: int,
    keep_void: bool,
    env: Env,
    depth: nat,
)
    requires
        0 <= from < upto <= items.len(),
        eval_model(arith, items[from], env, depth).result is Err,
    ensures
        ({
            let o = eval_model(arith, items[from], env, depth);
            eval_each_model(arith, items, from, upto, keep_void, env, depth) == collected(
                Err(o.result->Err_0),
                o.env,
            )
        }),
    decreases upto - from,
{
    if from + 1 < upto {
        lemma_each_fails_at_first(arith, items, from, upto - 1, keep_void, env, depth);
    } else {
        assert(eval_each_model(arith, items, from, from, keep_void, env, depth) == collected(
            Ok(Seq::empty()),
            env,
        ));
    }
}

/// A call with no arguments of a lambda that has parameters fails with an
/// arity error: nothing is read that is not there.
pub proof fn law_call_without_arguments_fails<A: FloatArith>(
    arith: &A,
    name: Seq<char>,
    params: Seq<Seq<char>>,
    body: Seq<Expr>,
    env: Env,
    depth: nat,
)
    requires
        env_get(env, name) == Some(Expr::Lambda(params, body)),
        params.len() >= 1,
    ensures
        eval_model(arith, Expr::List(seq![Expr::Name(name)]), env, depth) == failed(
            Failure::Arity(ArityFault::Call),
            env,
        ),
{
    let items = seq![Expr::Name(name)];
    assert(items[0] == Expr::Name(name));
    assert(eval_each_model(arith, items, 1, 1, true, env, depth) == collected(Ok(Seq::empty()), env));
    assert(eval_list_model(arith, items, env, depth) == failed(Failure::Arity(ArityFault::Call), env));
}

/// A call with fewer arguments than parameters fails with an arity error
/// once the arguments that are there have been evaluated.
pub proof fn law_call_with_too_few_arguments_fails<A: FloatArith>(
    arith: &A,
    items: Seq<Expr>,
    name: Seq<char>,
    params: Seq<Seq<char>>,
    body: Seq<Expr>,
    env: Env,
    depth: nat,
)
    requires
        items.len() >= 1,
        items[0] == Expr::Name(name),
        env_get(env, name) == Some(Expr::Lambda(params, body)),
        items.len() < params.len() + 1,
    ensures
        ({
            let args = eval_each_model(arith, items, 1, items.len() as int, true, env, depth);
            eval_model(arith, Expr::List(items), env, depth) == match args.results {
                Ok(_) => failed(Failure::Arity(ArityFault::Call), args.env),
                Err(f) => failed(f, args.env),
            }
        }),
{
}

/// Binding parameters changes the innermost frame only.
pub proof fn law_binding_keeps_outer_frames(
    env: Env,
    params: Seq<Seq<char>>,
    args: Seq<Expr>,
    n: int,
)
    requires
        env.len() >= 1,
    ensures
        keeps_outer_frames(env, bind_all(env, params, args, n)),
    decreases n,
{
    if n > 0 {
        law_binding_keeps_outer_frames(env, params, args, n - 1);
        let before = bind_all(env, params, args, n - 1);
        let after = env_set(before, params[n - 1], args[n - 1]);
        assert(after.drop_first() =~= before.drop_first());
    }
}

/// Whatever is evaluated, every frame but the innermost stays as it was:
/// a definition binds in the frame in which it is evaluated and nowhere else.
pub proof fn law_evaluation_keeps_outer_frames<A: FloatArith>(
    arith: &A,
    e: Expr,
    env: Env,
    depth: nat,
)
    requires
        env.len() >= 1,
    ensures
        keeps_outer_frames(env, eval_model(arith, e, env, depth).env),
    decreases depth, e, 0nat,
{
    match e {
        Expr::List(items) => {
            law_list_keeps_outer_frames(arith, items, env, depth);
        },
        _ => {},
    }
}

/// A run of evaluations leaves every frame but the innermost as it was.
pub proof fn law_each_keeps_outer_frames<A: FloatArith>(
    arith: &A,
    items: Seq<Expr>,
    from: int,
    upto: int,
    keep_void: bool,
    env: Env,
    depth: nat,
)
    requires
        env.len() >= 1,
    ensures
        keeps_outer_frames(
            env,
            eval_each_model(arith, items, from, upto, keep_void, env, depth).env,
        ),
    decreases depth, items, (if upto > 0 {
        upto
    } else {
        0
    }),
{
    if !(upto <= from || upto <= 0 || upto > items.len()) {
        law_each_keeps_outer_frames(arith, items, from, upto - 1, keep_void, env, depth);
        let before = eval_each_model(arith, items, from, upto - 1, keep_void, env, depth);
        if before.results is Ok {
            law_evaluation_keeps_outer_frames(arith, items[upto - 1], before.env, depth);
        }
    }
}

/// Evaluating a list leaves every frame but the innermost as it was.
pub proof fn law_list_keeps_outer_frames<A: FloatArith>(
    arith: &A,
    items: Seq<Expr>,
    env: Env,
    depth: nat,
)
    requires
        env.len() >= 1,
    ensures
        keeps_outer_frames(env, eval_list_model(arith, items, env, depth).env),
    decreases depth, items, items.len() + 1,
{
    if items.len() > 0 {
        match items[0] {
            Expr::Condition => {
                if items.len() == 4 {
                    law_evaluation_keeps_outer_frames(arith, items[1], env, depth);
                    let c = eval_model(arith, items[1], env, depth);
                    law_evaluation_keeps_outer_frames(arith, items[2], c.env, depth);
                    law_evaluation_keeps_outer_frames(arith, items[3], c.env, depth);
                }
            },
            Expr::Keyword(k) => {
                if k == "def"@ && items.len() == 3 {
                    law_evaluation_keeps_outer_frames(arith, items[2], env, depth);
                    let o = eval_model(arith, items[2], env, depth);
                    match (items[1], o.result) {
                        (Expr::Name(s), Ok(v)) => {
                            assert(env_set(o.env, s, v).drop_first() =~= o.env.drop_first());
                        },
                        _ => {},
                    }
                }
            },
            Expr::Operator(_) => {
                law_each_keeps_outer_frames(arith, items, 1, items.len() as int, true, env, depth);
            },
            Expr::Name(s) => {
                match env_get(env, s) {
                    Some(Expr::Lambda(params, _)) => {
                        let wanted = params.len() + 1;
                        let upto = if wanted <= items.len() {
                            wanted as int
                        } else {
                            items.len() as int
                        };
                        law_each_keeps_outer_frames(arith, items, 1, upto, true, env, depth);
                    },
                    _ => {},
                }
            },
            _ => {
                law_each_keeps_outer_frames(arith, items, 0, items.len() as int, false, env, depth);
            },
        }
    }
}

/// The arguments that a call of a lambda evaluates: one for each parameter,
/// as far as there are any.
pub open spec fn arguments_end(items: Seq<Expr>, params: Seq<Seq<char>>) -> int {
    if params.len() + 1 <= items.len() {
        (params.len() + 1) as int
    } else {
        items.len() as int
    }
}

/// What a lambda's body defines stays in the frame of that call. Whether a
/// call succeeds or fails, the caller's environment after it is the one
/// that evaluating the arguments left: the parameters and every definition
/// in the body are bound in the frame of the call and are gone with it.
pub proof fn law_call_binds_only_in_its_frame<A: FloatArith>(
    arith: &A,
    items: Seq<Expr>,
    name: Seq<char>,
    params: Seq<Seq<char>>,
    body: Seq<Expr>,
    env: Env,
    depth: nat,
)
    requires
        env.len() >= 1,
        items.len() >= 1,
        items[0] == Expr::Name(name),
        env_get(env, name) == Some(Expr::Lambda(params, body)),
    ensures
        ({
            let args = eval_each_model(
                arith,
                items,
                1,
                arguments_end(items, params),
                true,
                env,
                depth,
            );
            &&& eval_model(arith, Expr::List(items), env, depth).env == args.env
            &&& match args.results {
                Ok(values) => depth > 0 && items.len() > params.len() ==> ({
                    let frame = bind_all(
                        env_extend(args.env),
                        params,
                        values,
                        params.len() as int,
                    );
                    let inside = eval_model(arith, Expr::List(body), frame, (depth - 1) as nat);
                    &&& frame.drop_first() == args.env
                    &&& inside.env.drop_first() == args.env
                    &&& eval_model(arith, Expr::List(items), env, depth).result == inside.result
                }),
                Err(_) => true,
            }
        }),
{
    let args = eval_each_model(arith, items, 1, arguments_end(items, params), true, env, depth);
    law_each_keeps_outer_frames(arith, items, 1, arguments_end(items, params), true, env, depth);
    match args.results {
        Ok(values) => {
            let frame = bind_all(env_extend(args.env), params, values, params.len() as int);
            law_binding_keeps_outer_frames(
                env_extend(args.env),
                params,
                values,
                params.len() as int,
            );
            assert(env_extend(args.env).drop_first() =~= args.env);
            if depth > 0 {
                law_evaluation_keeps_outer_frames(
                    arith,
                    Expr::List(body),
                    frame,
                    (depth - 1) as nat,
                );
            }
        },
        Err(_) => {},
    }
}

/// A call whose arguments are values leaves the caller's environment as it
/// was: after it, every name resolves to what it resolved to before.
pub proof fn law_call_on_values_changes_nothing<A: FloatArith>(
    arith: &A,
    items: Seq<Expr>,
    name: Seq<char>,
    params: Seq<Seq<char>>,
    body: Seq<Expr>,
    env: Env,
    depth: nat,
)
    requires
        env.len() >= 1,
        items.len() >= 1,
        items[0] == Expr::Name(name),
        env_get(env, name) == Some(Expr::Lambda(params, body)),
        forall|k: int| 1 <= k < items.len() ==> is_value(#[trigger] items[k]),
    ensures
        eval_model(arith, Expr::List(items), env, depth).env == env,
{
    law_values_evaluate_to_themselves(
        arith,
        items,
        1,
        arguments_end(items, params),
        env,
        depth,
    );
    law_call_binds_only_in_its_frame(arith, items, name, params, body, env, depth);
}

/// On two floats, `+`, `-`, `*` and `/` yield the host's sum, difference,
/// product and quotient of the first by the second: a float, never an
/// integer.
pub proof fn law_binary_float_arithmetic<A: FloatArith>(
    arith: &A,
    op: Op,
    x: u64,
    y: u64,
    env: Env,
    depth: nat,
)
    requires
        is_arithmetic(op),
    ensures
        eval_model(
            arith,
            Expr::List(seq![Expr::Operator(op), Expr::Float(x), Expr::Float(y)]),
            env,
            depth,
        ) == yielded(Expr::Float(float_step(arith, op, x, y)), env),
        float_step(arith, Op::Add, x, y) == arith.sum_of(x, y),
        float_step(arith, Op::Sub, x, y) == arith.difference_of(x, y),
        float_step(arith, Op::Mul, x, y) == arith.product_of(x, y),
        float_step(arith, Op::Div, x, y) == arith.quotient_of(x, y),
{
    let items = seq![Expr::Operator(op), Expr::Float(x), Expr::Float(y)];
    let v = items.subrange(1, 3);
    law_operator_on_values(arith, op, items, env, depth);
    assert(v =~= seq![Expr::Float(x), Expr::Float(y)]);
    assert(all_same_tag(v));
    reveal_with_fuel(float_fold, 3);
    assert(float_fold(arith, op, v, 2) == float_step(arith, op, x, y));
}

} // verus!
