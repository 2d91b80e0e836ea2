//! The evaluator: a recursive walk over an expression tree.
//!
//! [`eval_model`] says what every expression evaluates to, as a function of
//! the expression, the environment, the number of nested calls still
//! allowed and the host's arithmetic on floats. The executable functions
//! are proved to compute exactly that.

use vstd::prelude::*;
use crate::error::{message_text, result_view, ArityFault, EvalError, Failure, TypeFault};
use crate::float::FloatArith;
use crate::lexer::{lexing, tokens_from, tokens_view, LexerToken};
use crate::object::{clone_objects, names_view, objects_view, Expr, Object, Op};
use crate::operator::{apply, apply_operator};
use crate::parser::{parse, parse_list_model};
use crate::scope::{env_extend, env_get, env_set, Env, Scope};

verus! {

/// What an evaluation leaves behind: its result and the environment after it.
pub struct Outcome {
    pub result: Result<Expr, Failure>,
    pub env: Env,
}

/// What evaluating a run of expressions leaves behind: their values, or the
/// first failure, and the environment after it.
pub struct Outcomes {
    pub results: Result<Seq<Expr>, Failure>,
    pub env: Env,
}

/// An evaluation that ended with `result` in `env`.
pub open spec fn ended(result: Result<Expr, Failure>, env: Env) -> Outcome {
    Outcome { result, env }
}

/// An evaluation that failed in `env`.
pub open spec fn failed(f: Failure, env: Env) -> Outcome {
    ended(Err(f), env)
}

/// An evaluation that yielded `v` in `env`.
pub open spec fn yielded(v: Expr, env: Env) -> Outcome {
    ended(Ok(v), env)
}

/// A run of evaluations that ended with `results` in `env`.
pub open spec fn collected(results: Result<Seq<Expr>, Failure>, env: Env) -> Outcomes {
    Outcomes { results, env }
}

/// Whether every element is a name.
pub open spec fn all_names(items: Seq<Expr>) -> bool {
    forall|i: int| 0 <= i < items.len() ==> (#[trigger] items[i]) is Name
}

/// The texts of a list of names.
pub open spec fn texts_of(items: Seq<Expr>) -> Seq<Seq<char>> {
    Seq::new(
        items.len(),
        |i: int|
            match items[i] {
                Expr::Name(s) => s,
                _ => Seq::empty(),
            },
    )
}

/// The value of a `lambda` form: its parameter list must be a list of
/// names and its body a list, which is kept unevaluated.
pub open spec fn lambda_model(items: Seq<Expr>) -> Result<Expr, Failure> {
    if items.len() < 3 {
        Err(Failure::Type(TypeFault::LambdaShape))
    } else {
        match items[1] {
            Expr::List(params) => if !all_names(params) {
                Err(Failure::Type(TypeFault::LambdaParameter))
            } else {
                match items[2] {
                    Expr::List(body) => Ok(Expr::Lambda(texts_of(params), body)),
                    _ => Err(Failure::Type(TypeFault::LambdaShape)),
                }
            },
            _ => Err(Failure::Type(TypeFault::LambdaShape)),
        }
    }
}

/// The environment after binding the first `n` parameters to the first `n`
/// arguments, in order, in the innermost frame.
pub open spec fn bind_all(env: Env, params: Seq<Seq<char>>, args: Seq<Expr>, n: int) -> Env
    decreases n,
{
    if n <= 0 {
        env
    } else {
        env_set(bind_all(env, params, args, n - 1), params[n - 1], args[n - 1])
    }
}

/// What an expression evaluates to in `env` when calls may nest `depth`
/// deep, with the host's arithmetic on floats.
pub open spec fn eval_model<A: FloatArith>(arith: &A, e: Expr, env: Env, depth: nat) -> Outcome
    decreases depth, e, 0nat,
{
    match e {
        Expr::List(items) => eval_list_model(arith, items, env, depth),
        Expr::Name(s) => match env_get(env, s) {
            Some(v) => yielded(v, env),
            None => failed(Failure::UnboundName(s), env),
        },
        Expr::Operator(_) | Expr::Condition | Expr::Keyword(_) => failed(
            Failure::Type(TypeFault::Node),
            env,
        ),
        _ => yielded(e, env),
    }
}

/// What the elements `from..upto` of a list evaluate to, one after the
/// other, each in the environment that the one before left. The first
/// failure ends the run. With `keep_void` unset, `Void` results are left out.
pub open spec fn eval_each_model<A: FloatArith>(
    arith: &A,
    items: Seq<Expr>,
    from: int,
    upto: int,
    keep_void: bool,
    env: Env,
    depth: nat,
) -> Outcomes
    decreases depth, items, (if upto > 0 {
        upto
    } else {
        0
    }),
{
    if upto <= from || upto <= 0 || upto > items.len() {
        collected(Ok(Seq::empty()), env)
    } else {
        let before = eval_each_model(arith, items, from, upto - 1, keep_void, env, depth);
        match before.results {
            Err(_) => before,
            Ok(values) => {
                let o = eval_model(arith, items[upto - 1], before.env, depth);
                match o.result {
                    Err(f) => collected(Err(f), o.env),
                    Ok(v) => collected(
                        Ok(
                            if v is Void && !keep_void {
                                values
                            } else {
                                values.push(v)
                            },
                        ),
                        o.env,
                    ),
                }
            },
        }
    }
}

/// What a list evaluates to: its head decides.
pub open spec fn eval_list_model<A: FloatArith>(
    arith: &A,
    items: Seq<Expr>,
    env: Env,
    depth: nat,
) -> Outcome
    decreases depth, items, items.len() + 1,
{
    if items.len() == 0 {
        failed(Failure::Arity(ArityFault::EmptyList), env)
    } else {
        match items[0] {
            Expr::Condition => if items.len() != 4 {
                failed(Failure::Arity(ArityFault::Condition), env)
            } else {
                let c = eval_model(arith, items[1], env, depth);
                match c.result {
                    Err(_) => c,
                    Ok(Expr::Bool(b)) => eval_model(
                        arith,
                        if b {
                            items[2]
                        } else {
                            items[3]
                        },
                        c.env,
                        depth,
                    ),
                    Ok(_) => failed(Failure::Type(TypeFault::Condition), c.env),
                }
            },
            Expr::Keyword(k) => if k == "def"@ {
                if items.len() != 3 {
                    failed(Failure::Arity(ArityFault::Definition), env)
                } else {
                    match items[1] {
                        Expr::Name(s) => {
                            let o = eval_model(arith, items[2], env, depth);
                            match o.result {
                                Err(_) => o,
                                Ok(v) => yielded(Expr::Void, env_set(o.env, s, v)),
                            }
                        },
                        _ => failed(Failure::Type(TypeFault::DefinitionTarget), env),
                    }
                }
            } else if k == "lambda"@ {
                ended(lambda_model(items), env)
            } else {
                failed(Failure::Type(TypeFault::Keyword), env)
            },
            Expr::Operator(op) => {
                let operands = eval_each_model(
                    arith,
                    items,
                    1,
                    items.len() as int,
                    true,
                    env,
                    depth,
                );
                match operands.results {
                    Err(f) => failed(f, operands.env),
                    Ok(values) => ended(apply(arith, op, values), operands.env),
                }
            },
            Expr::Name(s) => match env_get(env, s) {
                Some(Expr::Lambda(params, body)) => {
                    let wanted = params.len() + 1;
                    let upto = if wanted <= items.len() {
                        wanted as int
                    } else {
                        items.len() as int
                    };
                    let args = eval_each_model(arith, items, 1, upto, true, env, depth);
                    match args.results {
                        Err(f) => failed(f, args.env),
                        Ok(values) => if items.len() < wanted {
                            failed(Failure::Arity(ArityFault::Call), args.env)
                        } else if depth == 0 {
                            failed(Failure::DepthExceeded, args.env)
                        } else {
                            ended(
                                eval_model(
                                    arith,
                                    Expr::List(body),
                                    bind_all(
                                        env_extend(args.env),
                                        params,
                                        values,
                                        params.len() as int,
                                    ),
                                    (depth - 1) as nat,
                                ).result,
                                args.env,
                            )
                        },
                    }
                },
                _ => failed(Failure::UnboundSymbol(s), env),
            },
            _ => {
                let all = eval_each_model(arith, items, 0, items.len() as int, false, env, depth);
                match all.results {
                    Err(f) => failed(f, all.env),
                    Ok(values) => yielded(Expr::List(values), all.env),
                }
            },
        }
    }
}

/// The model of the values of a run of expressions.
pub open spec fn results_view(r: Result<Vec<Object>, EvalError>) -> Result<Seq<Expr>, Failure> {
    match r {
        Ok(values) => Ok(objects_view(values@)),
        Err(e) => Err(e@),
    }
}

/// Whether an evaluation left every frame but the innermost as it was.
pub open spec fn keeps_outer_frames(before: Env, after: Env) -> bool {
    &&& after.len() == before.len()
    &&& after.drop_first() == before.drop_first()
}

/// Once a run has failed, evaluating further elements changes nothing.
pub proof fn lemma_each_settled<A: FloatArith>(
    arith: &A,
    items: Seq<Expr>,
    from: int,
    at: int,
    upto: int,
    keep_void: bool,
    env: Env,
    depth: nat,
)
    requires
        from <= at <= upto <= items.len(),
        0 < at,
        eval_each_model(arith, items, from, at, keep_void, env, depth).results is Err,
    ensures
        eval_each_model(arith, items, from, upto, keep_void, env, depth) == eval_each_model(
            arith,
            items,
            from,
            at,
            keep_void,
            env,
            depth,
        ),
    decreases upto - at,
{
    if at < upto {
        lemma_each_settled(arith, items, from, at, upto - 1, keep_void, env, depth);
    }
}

/// Resolves a name.
pub fn eval_name(s: &String, scope: &Scope) -> (r: Result<Object, EvalError>)
    ensures
        result_view(r) == (match env_get(scope@, s@) {
            Some(v) => Ok::<Expr, Failure>(v),
            None => Err::<Expr, Failure>(Failure::UnboundName(s@)),
        }),
{
    match scope.get(s.as_str()) {
        Some(v) => Ok(v),
        None => Err(EvalError::UnboundName(s.clone())),
    }
}

/// Builds the value of a `lambda` form.
pub fn eval_lambda(list: &Vec<Object>) -> (r: Result<Object, EvalError>)
    ensures
        result_view(r) == lambda_model(objects_view(list@)),
{
    if list.len() < 3 {
        return Err(EvalError::Type(TypeFault::LambdaShape));
    }
    let ghost items = objects_view(list@);
    match &list[1] {
        Object::List(names) => {
            let ghost ps = objects_view(names@);
            assert(items[1] == Expr::List(ps));
            let mut params: Vec<String> = Vec::new();
            let mut i: usize = 0;
            while i < names.len()
                invariant
                    list.len() >= 3,
                    items == objects_view(list@),
                    items[1] == Expr::List(ps),
                    ps == objects_view(names@),
                    i <= names.len(),
                    params.len() == i,
                    forall|j: int| 0 <= j < i ==> (#[trigger] ps[j]) is Name,
                    forall|j: int| 0 <= j < i ==> (#[trigger] params[j])@ == texts_of(ps)[j],
                decreases names.len() - i,
            {
                match &names[i] {
                    Object::Name(s) => {
                        params.push(s.clone());
                    },
                    _ => {
                        assert(!(ps[i as int] is Name));
                        assert(!all_names(ps));
                        return Err(EvalError::Type(TypeFault::LambdaParameter));
                    },
                }
                i += 1;
            }
            assert(names_view(params@) =~= texts_of(ps));
            match &list[2] {
                Object::List(body) => Ok(Object::Lambda(params, clone_objects(body))),
                _ => Err(EvalError::Type(TypeFault::LambdaShape)),
            }
        },
        _ => Err(EvalError::Type(TypeFault::LambdaShape)),
    }
}

/// Evaluates an expression in `scope`, with at most `depth` nested calls.
///
/// The result and the scope afterwards are those of [`eval_model`]; only
/// the innermost frame of `scope` can change.
pub fn eval_obj<A: FloatArith>(obj: &Object, scope: &mut Scope, arith: &A, depth: usize) -> (r:
    Result<Object, EvalError>)
    ensures
        result_view(r) == eval_model(arith, obj@, old(scope)@, depth as nat).result,
        final(scope)@ == eval_model(arith, obj@, old(scope)@, depth as nat).env,
        keeps_outer_frames(old(scope)@, final(scope)@),
    decreases depth, obj, 0nat,
{
    proof {
        scope.lemma_has_frame();
    }
    match obj {
        Object::List(list) => eval_list(list, scope, arith, depth),
        Object::Name(s) => eval_name(s, scope),
        Object::Operator(_) | Object::Condition | Object::Keyword(_) => Err(
            EvalError::Type(TypeFault::Node),
        ),
        _ => Ok(obj.clone()),
    }
}

/// Evaluates the elements `from..upto` of a list in order, and collects
/// their values; without `keep_void`, all but the `Void` ones.
pub fn eval_each<A: FloatArith>(
    list: &Vec<Object>,
    from: usize,
    upto: usize,
    keep_void: bool,
    scope: &mut Scope,
    arith: &A,
    depth: usize,
) -> (r: Result<Vec<Object>, EvalError>)
    requires
        from <= upto <= list.len(),
    ensures
        results_view(r) == eval_each_model(
            arith,
            objects_view(list@),
            from as int,
            upto as int,
            keep_void,
            old(scope)@,
            depth as nat,
        ).results,
        final(scope)@ == eval_each_model(
            arith,
            objects_view(list@),
            from as int,
            upto as int,
            keep_void,
            old(scope)@,
            depth as nat,
        ).env,
        keeps_outer_frames(old(scope)@, final(scope)@),
        keep_void && r is Ok ==> r->Ok_0.len() == upto - from,
    decreases depth, list, upto,
{
    let ghost items = objects_view(list@);
    let ghost start = scope@;
    let mut values: Vec<Object> = Vec::new();
    let mut i: usize = from;
    assert(objects_view(values@) =~= Seq::<Expr>::empty());
    while i < upto
        invariant
            items == objects_view(list@),
            start == old(scope)@,
            from <= i <= upto <= list.len(),
            keeps_outer_frames(start, scope@),
            keep_void ==> values.len() == i - from,
            eval_each_model(arith, items, from as int, i as int, keep_void, start, depth as nat)
                == collected(Ok(objects_view(values@)), scope@),
        decreases upto - i,
    {
        assert(items[i as int] == list[i as int]@);
        let step = eval_obj(&list[i], scope, arith, depth);
        match step {
            Err(e) => {
                proof {
                    lemma_each_settled(
                        arith,
                        items,
                        from as int,
                        i + 1,
                        upto as int,
                        keep_void,
                        start,
                        depth as nat,
                    );
                }
                return Err(e);
            },
            Ok(v) => {
                let ghost old_values = objects_view(values@);
                let skip = !keep_void && is_void(&v);
                if !skip {
                    values.push(v);
                    assert(objects_view(values@) =~= old_values.push(v@));
                }
            },
        }
        i += 1;
    }
    Ok(values)
}

/// Whether a node is `Void`.
pub fn is_void(o: &Object) -> (b: bool)
    ensures
        b == (o@ is Void),
{
    match o {
        Object::Void => true,
        _ => false,
    }
}

/// Evaluates an operator application: the operands from left to right,
/// then the operator on their values.
pub fn eval_operator<A: FloatArith>(
    op: Op,
    list: &Vec<Object>,
    scope: &mut Scope,
    arith: &A,
    depth: usize,
) -> (r: Result<Object, EvalError>)
    requires
        list.len() >= 1,
        list[0]@ == Expr::Operator(op),
    ensures
        result_view(r) == eval_list_model(
            arith,
            objects_view(list@),
            old(scope)@,
            depth as nat,
        ).result,
        final(scope)@ == eval_list_model(arith, objects_view(list@), old(scope)@, depth as nat).env,
        keeps_outer_frames(old(scope)@, final(scope)@),
    decreases depth, list, list.len() + 1,
{
    match eval_each(list, 1, list.len(), true, scope, arith, depth) {
        Err(e) => Err(e),
        Ok(operands) => apply_operator(op, &operands, arith),
    }
}

/// Calls the lambda that `name` is bound to: evaluates one argument for
/// each parameter in the caller's scope, binds them in a new frame,
/// evaluates the body there and drops the frame again.
pub fn eval_lambda_call<A: FloatArith>(
    name: &String,
    scope: &mut Scope,
    list: &Vec<Object>,
    arith: &A,
    depth: usize,
) -> (r: Result<Object, EvalError>)
    requires
        list.len() >= 1,
        list[0]@ == Expr::Name(name@),
    ensures
        result_view(r) == eval_list_model(
            arith,
            objects_view(list@),
            old(scope)@,
            depth as nat,
        ).result,
        final(scope)@ == eval_list_model(arith, objects_view(list@), old(scope)@, depth as nat).env,
        keeps_outer_frames(old(scope)@, final(scope)@),
    decreases depth, list, list.len() + 1,
{
    proof {
        scope.lemma_has_frame();
    }
    match scope.get(name.as_str()) {
        Some(Object::Lambda(params, body)) => {
            let ghost names = names_view(params@);
            let upto: usize = if params.len() < list.len() {
                params.len() + 1
            } else {
                list.len()
            };
            let args = match eval_each(list, 1, upto, true, scope, arith, depth) {
                Err(e) => {
                    return Err(e);
                },
                Ok(args) => args,
            };
            if list.len() <= params.len() {
                return Err(EvalError::Arity(ArityFault::Call));
            }
            if depth == 0 {
                return Err(EvalError::DepthExceeded);
            }
            let ghost caller = scope@;
            let ghost values = objects_view(args@);
            scope.enter();
            let mut i: usize = 0;
            while i < params.len()
                invariant
                    names == names_view(params@),
                    values == objects_view(args@),
                    args.len() == params.len(),
                    i <= params.len(),
                    scope@.len() == caller.len() + 1,
                    scope@.drop_first() == caller,
                    scope@ == bind_all(env_extend(caller), names, values, i as int),
                decreases params.len() - i,
            {
                let ghost before = scope@;
                scope.set(params[i].as_str(), args[i].clone());
                assert(scope@.drop_first() =~= before.drop_first());
                i += 1;
            }
            let r = eval_obj(&Object::List(body), scope, arith, depth - 1);
            scope.leave();
            assert(scope@ == caller);
            r
        },
        _ => Err(EvalError::UnboundSymbol(name.clone())),
    }
}

/// Evaluates a list: a special form, an operator application or a call,
/// as its head says, or else its elements one after the other.
pub fn eval_list<A: FloatArith>(list: &Vec<Object>, scope: &mut Scope, arith: &A, depth: usize) -> (r:
    Result<Object, EvalError>)
    ensures
        result_view(r) == eval_list_model(
            arith,
            objects_view(list@),
            old(scope)@,
            depth as nat,
        ).result,
        final(scope)@ == eval_list_model(arith, objects_view(list@), old(scope)@, depth as nat).env,
        keeps_outer_frames(old(scope)@, final(scope)@),
    decreases depth, list, list.len() + 2,
{
    let ghost items = objects_view(list@);
    proof {
        scope.lemma_has_frame();
    }
    if list.len() < 1 {
        return Err(EvalError::Arity(ArityFault::EmptyList));
    }
    assert(items[0] == list[0]@);
    match &list[0] {
        Object::Condition => {
            if list.len() != 4 {
                return Err(EvalError::Arity(ArityFault::Condition));
            }
            assert(items[1] == list[1]@ && items[2] == list[2]@ && items[3] == list[3]@);
            match eval_obj(&list[1], scope, arith, depth) {
                Err(e) => Err(e),
                Ok(Object::Bool(b)) => {
                    if b {
                        eval_obj(&list[2], scope, arith, depth)
                    } else {
                        eval_obj(&list[3], scope, arith, depth)
                    }
                },
                Ok(_) => Err(EvalError::Type(TypeFault::Condition)),
            }
        },
        Object::Keyword(k) => {
            if *k == "def".to_owned() {
                if list.len() != 3 {
                    return Err(EvalError::Arity(ArityFault::Definition));
                }
                assert(items[1] == list[1]@ && items[2] == list[2]@);
                match &list[1] {
                    Object::Name(s) => match eval_obj(&list[2], scope, arith, depth) {
                        Err(e) => Err(e),
                        Ok(v) => {
                            let ghost before = scope@;
                            scope.set(s.as_str(), v);
                            assert(scope@.drop_first() =~= before.drop_first());
                            Ok(Object::Void)
                        },
                    },
                    _ => Err(EvalError::Type(TypeFault::DefinitionTarget)),
                }
            } else if *k == "lambda".to_owned() {
                eval_lambda(list)
            } else {
                Err(EvalError::Type(TypeFault::Keyword))
            }
        },
        Object::Operator(op) => eval_operator(*op, list, scope, arith, depth),
        Object::Name(s) => eval_lambda_call(s, scope, list, arith, depth),
        _ => match eval_each(list, 0, list.len(), false, scope, arith, depth) {
            Err(e) => Err(e),
            Ok(values) => Ok(Object::List(values)),
        },
    }
}

/// How deep calls may nest in [`eval`]: about what a stack of two
/// mebibytes bears of the evaluator's own recursion.
pub const CALL_DEPTH: usize = 1024;

/// What a source text evaluates to: it is lexed, its tokens are parsed
/// from the first on, and the tree is evaluated.
pub open spec fn run_model<A: FloatArith>(
    arith: &A,
    source: Seq<char>,
    env: Env,
    depth: nat,
) -> Outcome {
    match parse_list_model(tokens_from(arith, source, 0).reverse()).result {
        Err(e) => failed(Failure::Parse(e), env),
        Ok(tree) => eval_model(arith, tree, env, depth),
    }
}

/// Turns a vector around.
pub fn reversed(tokens: Vec<LexerToken>) -> (r: Vec<LexerToken>)
    ensures
        tokens_view(r@) == tokens_view(tokens@).reverse(),
{
    let ghost all = tokens_view(tokens@);
    let mut rest = tokens;
    let mut out: Vec<LexerToken> = Vec::new();
    while rest.len() > 0
        invariant
            rest.len() + out.len() == all.len(),
            forall|k: int| 0 <= k < rest.len() ==> (#[trigger] rest[k])@ == all[k],
            forall|k: int| 0 <= k < out.len() ==> (#[trigger] out[k])@ == all[all.len() - 1 - k],
        decreases rest.len(),
    {
        let token = rest.pop().unwrap();
        out.push(token);
    }
    assert(tokens_view(out@) =~= all.reverse());
    out
}

/// Lexes, parses and evaluates one source text in `scope`, with at most
/// `depth` nested calls.
pub fn evaluate<A: FloatArith>(source: &str, scope: &mut Scope, arith: &A, depth: usize) -> (r:
    Result<Object, EvalError>)
    ensures
        result_view(r) == run_model(arith, source@, old(scope)@, depth as nat).result,
        final(scope)@ == run_model(arith, source@, old(scope)@, depth as nat).env,
        keeps_outer_frames(old(scope)@, final(scope)@),
{
    let tokens = lexing(source, arith);
    let mut stack = reversed(tokens);
    match parse(&mut stack) {
        Err(e) => Err(EvalError::Parse(e)),
        Ok(tree) => eval_obj(&tree, scope, arith, depth),
    }
}

/// The model of the result of [`eval`]: a failure is given by its message.
pub open spec fn text_view(r: Result<Object, String>) -> Result<Expr, Seq<char>> {
    match r {
        Ok(o) => Ok(o@),
        Err(e) => Err(e@),
    }
}

/// The result of an evaluation with its failure turned into a message.
pub open spec fn with_message(r: Result<Expr, Failure>) -> Result<Expr, Seq<char>> {
    match r {
        Ok(v) => Ok(v),
        Err(f) => Err(message_text(f)),
    }
}

/// Evaluates one source text in `scope`; a failure is reported by its
/// message. Calls may nest [`CALL_DEPTH`] deep.
pub fn eval<A: FloatArith>(string: String, scope: &mut Scope, arith: &A) -> (r: Result<
    Object,
    String,
>)
    ensures
        text_view(r) == with_message(
            run_model(arith, string@, old(scope)@, CALL_DEPTH as nat).result,
        ),
        final(scope)@ == run_model(arith, string@, old(scope)@, CALL_DEPTH as nat).env,
        keeps_outer_frames(old(scope)@, final(scope)@),
{
    match evaluate(string.as_str(), scope, arith, CALL_DEPTH) {
        Ok(v) => Ok(v),
        Err(e) => Err(e.message()),
    }
}

} // verus!
