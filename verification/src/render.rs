//! The text of an expression tree, as it is shown to a user.

use vstd::prelude::*;
use vstd::string::StringExecFns;
use crate::float::FloatArith;
use crate::object::{names_view, objects_view, Expr, Object, Op};

verus! {

/// The symbol of an operator.
pub open spec fn op_text(op: Op) -> Seq<char> {
    match op {
        Op::Add => "+"@,
        Op::Sub => "-"@,
        Op::Mul => "*"@,
        Op::Div => "/"@,
        Op::Eq => "=="@,
        Op::NotEq => "!="@,
        Op::Greater => ">"@,
        Op::Smaller => "<"@,
    }
}

/// The text of a decimal digit.
pub open spec fn digit_text(d: int) -> Seq<char> {
    if d == 0 {
        "0"@
    } else if d == 1 {
        "1"@
    } else if d == 2 {
        "2"@
    } else if d == 3 {
        "3"@
    } else if d == 4 {
        "4"@
    } else if d == 5 {
        "5"@
    } else if d == 6 {
        "6"@
    } else if d == 7 {
        "7"@
    } else if d == 8 {
        "8"@
    } else {
        "9"@
    }
}

/// The digits of a natural number in base ten, without leading zeros.
pub open spec fn digits_text(n: nat) -> Seq<char>
    decreases n,
{
    if n < 10 {
        digit_text(n as int)
    } else {
        digits_text(n / 10) + digit_text((n % 10) as int)
    }
}

/// The text of an integer in base ten.
pub open spec fn integer_text(n: int) -> Seq<char> {
    if n < 0 {
        "-"@ + digits_text((-n) as nat)
    } else {
        digits_text(n as nat)
    }
}

/// The first `n` names, each after a space.
pub open spec fn names_text(names: Seq<Seq<char>>, n: int) -> Seq<char>
    decreases n,
{
    if n <= 0 {
        Seq::empty()
    } else {
        names_text(names, n - 1) + " "@ + names[n - 1]
    }
}

/// The text of a tree; a float is shown as the host shows it.
pub open spec fn text_of<A: FloatArith>(arith: &A, e: Expr) -> Seq<char>
    decreases e, 0nat,
{
    match e {
        Expr::Void => "Void"@,
        Expr::Integer(n) => integer_text(n as int),
        Expr::Float(bits) => arith.shown_as(bits)@,
        Expr::Bool(b) => if b {
            "true"@
        } else {
            "false"@
        },
        Expr::Operator(op) => op_text(op),
        Expr::Lambda(params, body) => "lambda ["@ + names_text(params, params.len() as int)
            + " ] ("@ + texts_of_all(arith, body, body.len() as int) + " )"@,
        Expr::Condition => "If"@,
        Expr::List(items) => "("@ + texts_of_all(arith, items, items.len() as int) + " )"@,
        Expr::Keyword(s) => s,
        Expr::Name(s) => s,
    }
}

/// The texts of the first `n` trees, each after a space.
pub open spec fn texts_of_all<A: FloatArith>(arith: &A, items: Seq<Expr>, n: int) -> Seq<char>
    decreases items, (if n > 0 {
        n
    } else {
        0
    }),
{
    if n <= 0 || n > items.len() {
        Seq::empty()
    } else {
        texts_of_all(arith, items, n - 1) + " "@ + text_of(arith, items[n - 1])
    }
}

impl Op {
    /// The symbol of this operator.
    pub fn to_text(&self) -> (r: String)
        ensures
            r@ == op_text(*self),
    {
        match self {
            Op::Add => "+".to_owned(),
            Op::Sub => "-".to_owned(),
            Op::Mul => "*".to_owned(),
            Op::Div => "/".to_owned(),
            Op::Eq => "==".to_owned(),
            Op::NotEq => "!=".to_owned(),
            Op::Greater => ">".to_owned(),
            Op::Smaller => "<".to_owned(),
        }
    }
}

/// Appends the digits of `n` in base ten.
pub fn append_digits(out: &mut String, n: u64)
    ensures
        final(out)@ == old(out)@ + digits_text(n as nat),
    decreases n,
{
    if n >= 10 {
        append_digits(out, n / 10);
    }
    let d: u64 = n % 10;
    let text: &str = if d == 0 {
        "0"
    } else if d == 1 {
        "1"
    } else if d == 2 {
        "2"
    } else if d == 3 {
        "3"
    } else if d == 4 {
        "4"
    } else if d == 5 {
        "5"
    } else if d == 6 {
        "6"
    } else if d == 7 {
        "7"
    } else if d == 8 {
        "8"
    } else {
        "9"
    };
    assert(text@ == digit_text(d as int));
    out.append(text);
    assert(out@ =~= old(out)@ + digits_text(n as nat));
}

/// Appends the text of an integer in base ten.
pub fn append_integer(out: &mut String, n: i64)
    ensures
        final(out)@ == old(out)@ + integer_text(n as int),
{
    if n < 0 {
        out.append("-");
        let magnitude: u64 = if n == i64::MIN {
            0x8000_0000_0000_0000
        } else {
            (-n) as u64
        };
        append_digits(out, magnitude);
        assert(out@ =~= old(out)@ + integer_text(n as int));
    } else {
        append_digits(out, n as u64);
    }
}

/// Appends each name after a space.
pub fn append_names(out: &mut String, names: &Vec<String>)
    ensures
        final(out)@ == old(out)@ + names_text(names_view(names@), names.len() as int),
{
    let ghost texts = names_view(names@);
    let mut i: usize = 0;
    assert(out@ =~= old(out)@ + names_text(texts, 0));
    while i < names.len()
        invariant
            texts == names_view(names@),
            i <= names.len(),
            out@ == old(out)@ + names_text(texts, i as int),
        decreases names.len() - i,
    {
        out.append(" ");
        out.append(names[i].as_str());
        i += 1;
        assert(out@ =~= old(out)@ + names_text(texts, i as int));
    }
}

/// Appends the text of each tree after a space.
pub fn append_all<A: FloatArith>(out: &mut String, items: &Vec<Object>, arith: &A)
    ensures
        final(out)@ == old(out)@ + texts_of_all(arith, objects_view(items@), items.len() as int),
    decreases items,
{
    let ghost trees = objects_view(items@);
    let mut i: usize = 0;
    assert(out@ =~= old(out)@ + Seq::<char>::empty());
    while i < items.len()
        invariant
            trees == objects_view(items@),
            i <= items.len(),
            out@ == old(out)@ + texts_of_all(arith, trees, i as int),
        decreases items.len() - i,
    {
        out.append(" ");
        assert(trees[i as int] == items[i as int]@);
        items[i].append_to(out, arith);
        i += 1;
        assert(out@ =~= old(out)@ + texts_of_all(arith, trees, i as int));
    }
}

impl Object {
    /// Appends the text of this tree; a float's text is what `arith` makes
    /// of it.
    pub fn append_to<A: FloatArith>(&self, out: &mut String, arith: &A)
        ensures
            final(out)@ == old(out)@ + text_of(arith, self@),
        decreases self,
    {
        match self {
            Object::Void => {
                out.append("Void");
            },
            Object::Integer(n) => {
                append_integer(out, *n);
            },
            Object::Float(bits) => {
                let text = arith.to_text(*bits);
                out.append(text.as_str());
            },
            Object::Bool(b) => {
                if *b {
                    out.append("true");
                } else {
                    out.append("false");
                }
            },
            Object::Operator(op) => {
                let text = op.to_text();
                out.append(text.as_str());
            },
            Object::Lambda(params, body) => {
                out.append("lambda [");
                append_names(out, params);
                out.append(" ] (");
                append_all(out, body, arith);
                out.append(" )");
                assert(out@ =~= old(out)@ + text_of(arith, self@));
            },
            Object::Condition => {
                out.append("If");
            },
            Object::List(items) => {
                out.append("(");
                append_all(out, items, arith);
                out.append(" )");
                assert(out@ =~= old(out)@ + text_of(arith, self@));
            },
            Object::Keyword(s) => {
                out.append(s.as_str());
            },
            Object::Name(s) => {
                out.append(s.as_str());
            },
        }
    }

    /// The text of this tree.
    pub fn to_text<A: FloatArith>(&self, arith: &A) -> (r: String)
        ensures
            r@ == text_of(arith, self@),
    {
        let mut out = String::new();
        self.append_to(&mut out, arith);
        assert(out@ =~= text_of(arith, self@));
        out
    }
}

} // verus!
