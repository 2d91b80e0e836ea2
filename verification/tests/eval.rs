use minilisp::error::{ArityFault, EvalError, ParserError, ParserErrorKind, TypeFault};
use minilisp::eval::{eval, eval_obj, evaluate, CALL_DEPTH};
use minilisp::float::{FloatArith, Literal};
use minilisp::object::{Object, Op};
use minilisp::scope::Scope;

struct Host;

impl FloatArith for Host {
    fn from_decimal(&self, literal: &str) -> u64 {
        literal.parse::<f64>().unwrap().to_bits()
    }

    fn sum(&self, a: u64, b: u64) -> u64 {
        (f64::from_bits(a) + f64::from_bits(b)).to_bits()
    }

    fn difference(&self, a: u64, b: u64) -> u64 {
        (f64::from_bits(a) - f64::from_bits(b)).to_bits()
    }

    fn product(&self, a: u64, b: u64) -> u64 {
        (f64::from_bits(a) * f64::from_bits(b)).to_bits()
    }

    fn quotient(&self, a: u64, b: u64) -> u64 {
        (f64::from_bits(a) / f64::from_bits(b)).to_bits()
    }

    fn to_text(&self, bits: u64) -> String {
        f64::from_bits(bits).to_string()
    }

    fn decimal_of(&self, _literal: Literal) -> u64 {
        unreachable!()
    }

    fn sum_of(&self, a: u64, b: u64) -> u64 {
        self.sum(a, b)
    }

    fn difference_of(&self, a: u64, b: u64) -> u64 {
        self.difference(a, b)
    }

    fn product_of(&self, a: u64, b: u64) -> u64 {
        self.product(a, b)
    }

    fn quotient_of(&self, a: u64, b: u64) -> u64 {
        self.quotient(a, b)
    }

    fn shown_as(&self, bits: u64) -> String {
        self.to_text(bits)
    }
}

fn run(source: &str) -> Result<Object, EvalError> {
    let mut scope = Scope::new();
    evaluate(source, &mut scope, &Host, CALL_DEPTH)
}

fn run_in(source: &str, scope: &mut Scope) -> Result<Object, EvalError> {
    evaluate(source, scope, &Host, CALL_DEPTH)
}

fn float(x: f64) -> Object {
    Object::Float(x.to_bits())
}

#[test]
fn adds_subtracts_and_multiplies_integers() {
    for (a, b) in [(1i64, 2i64), (-7, 3), (0, 0), (123456789, -987654321), (-5, -6)] {
        assert_eq!(run(&format!("(+ {} {})", a, b)), Ok(Object::Integer(a + b)));
        assert_eq!(run(&format!("(- {} {})", a, b)), Ok(Object::Integer(a - b)));
        assert_eq!(run(&format!("(* {} {})", a, b)), Ok(Object::Integer(a * b)));
    }
}

#[test]
fn integer_division_truncates_toward_zero() {
    assert_eq!(run("(/ 7 2)"), Ok(Object::Integer(3)));
    assert_eq!(run("(/ -7 2)"), Ok(Object::Integer(-3)));
    assert_eq!(run("(/ 7 -2)"), Ok(Object::Integer(-3)));
    assert_eq!(run("(/ -7 -2)"), Ok(Object::Integer(3)));
    assert_eq!(run("(/ 0 5)"), Ok(Object::Integer(0)));
    assert_eq!(run("(/ 100 5 2)"), Ok(Object::Integer(10)));
}

#[test]
fn integer_arithmetic_wraps_around() {
    assert_eq!(
        run("(+ 9223372036854775807 1)"),
        Ok(Object::Integer(i64::MIN))
    );
    assert_eq!(
        run("(- -9223372036854775808 1)"),
        Ok(Object::Integer(i64::MAX))
    );
    assert_eq!(
        run("(* 4611686018427387904 4)"),
        Ok(Object::Integer(0))
    );
    assert_eq!(
        run("(* 3037000500 3037000500)"),
        Ok(Object::Integer(3037000500i64.wrapping_mul(3037000500)))
    );
    assert_eq!(
        run("(/ -9223372036854775808 -1)"),
        Ok(Object::Integer(i64::MIN))
    );
}

#[test]
fn division_by_zero_is_reported() {
    assert_eq!(run("(/ 1 0)"), Err(EvalError::DivisionByZero));
    assert_eq!(run("(/ 8 2 0 4)"), Err(EvalError::DivisionByZero));
}

#[test]
fn arithmetic_folds_from_left_to_right() {
    assert_eq!(run("(+ 1 2 3 4)"), Ok(Object::Integer(10)));
    assert_eq!(run("(- 10 1 2 3)"), Ok(Object::Integer(4)));
    assert_eq!(run("(* 2 3 4)"), Ok(Object::Integer(24)));
    assert_eq!(run("(/ 64 2 4)"), Ok(Object::Integer(8)));
}

#[test]
fn a_lone_operand_is_its_own_result_for_arithmetic() {
    assert_eq!(run("(+ 5)"), Ok(Object::Integer(5)));
    assert_eq!(run("(- 5)"), Ok(Object::Integer(5)));
    assert_eq!(run("(* 5)"), Ok(Object::Integer(5)));
    assert_eq!(run("(/ 5)"), Ok(Object::Integer(5)));
    assert_eq!(run("(+ 2.5)"), Ok(float(2.5)));
}

#[test]
fn a_lone_operand_compares_false() {
    assert_eq!(run("(== 5)"), Ok(Object::Bool(false)));
    assert_eq!(run("(!= 5)"), Ok(Object::Bool(false)));
    assert_eq!(run("(> 5)"), Ok(Object::Bool(false)));
    assert_eq!(run("(< 5)"), Ok(Object::Bool(false)));
}

#[test]
fn float_arithmetic_is_the_hosts() {
    assert_eq!(run("(+ 1. 2.)"), Ok(float(3.0)));
    assert_eq!(run("(- -1. 2.)"), Ok(float(-3.0)));
    assert_eq!(run("(* 1.5 4.0)"), Ok(float(6.0)));
    assert_eq!(run("(/ 1.0 4.0)"), Ok(float(0.25)));
    assert_eq!(run("(/ 7.0 2.0)"), Ok(float(3.5)));
    assert_eq!(run("(/ 7.0 2.0 2.0)"), Ok(float(1.75)));
    assert_eq!(run("(+ 0.1 0.2)"), Ok(float(0.1 + 0.2)));
    assert_eq!(run("(/ 1.0 0.0)"), Ok(float(f64::INFINITY)));
    assert_eq!(run("(- 10.0 1.0 2.0)"), Ok(float(7.0)));
}

#[test]
fn floats_compare_as_doubles() {
    assert_eq!(run("(== 1.0 1.0)"), Ok(Object::Bool(true)));
    assert_eq!(run("(== 0.0 -0.0)"), Ok(Object::Bool(true)));
    assert_eq!(run("(> 2.5 1.5)"), Ok(Object::Bool(true)));
    assert_eq!(run("(< -2.5 -1.5)"), Ok(Object::Bool(true)));
    assert_eq!(run("(< -1.0 1.0)"), Ok(Object::Bool(true)));
    assert_eq!(run("(> -1.0 1.0)"), Ok(Object::Bool(false)));
    // 0/0 is a NaN, which equals nothing and is ordered with nothing
    assert_eq!(run("(== (/ 0.0 0.0) (/ 0.0 0.0))"), Ok(Object::Bool(false)));
    assert_eq!(run("(!= (/ 0.0 0.0) (/ 0.0 0.0))"), Ok(Object::Bool(true)));
    assert_eq!(run("(> (/ 0.0 0.0) 1.0)"), Ok(Object::Bool(false)));
    assert_eq!(run("(< (/ 0.0 0.0) 1.0)"), Ok(Object::Bool(false)));
}

#[test]
fn equality_compares_every_operand_with_the_first() {
    assert_eq!(run("(== 4 4 4)"), Ok(Object::Bool(true)));
    assert_eq!(run("(== 4 5)"), Ok(Object::Bool(false)));
    assert_eq!(run("(== 4 4 5)"), Ok(Object::Bool(false)));
    assert_eq!(run("(== #t #t)"), Ok(Object::Bool(true)));
    assert_eq!(run("(== #t #f)"), Ok(Object::Bool(false)));
    assert_eq!(run("(!= 4 4 4)"), Ok(Object::Bool(false)));
    assert_eq!(run("(!= 4 5)"), Ok(Object::Bool(true)));
    assert_eq!(run("(!= 4 5 4)"), Ok(Object::Bool(true)));
    assert_eq!(run("(!= 4 4 5)"), Ok(Object::Bool(true)));
}

#[test]
fn order_chains_compare_against_the_first_operand() {
    assert_eq!(run("(> 3 2 1)"), Ok(Object::Bool(true)));
    assert_eq!(run("(> 3 2 3)"), Ok(Object::Bool(false)));
    assert_eq!(run("(> 3 1 2)"), Ok(Object::Bool(true)));
    assert_eq!(run("(< 1 2 3)"), Ok(Object::Bool(true)));
    assert_eq!(run("(< 1 2 1)"), Ok(Object::Bool(false)));
    assert_eq!(run("(> 2 2)"), Ok(Object::Bool(false)));
    assert_eq!(run("(< #f #t)"), Ok(Object::Bool(true)));
}

#[test]
fn mixed_operands_are_a_type_mismatch() {
    assert_eq!(run("(+ 1 2.0)"), Err(EvalError::TypeMismatch));
    assert_eq!(run("(== 1 1.0)"), Err(EvalError::TypeMismatch));
    assert_eq!(run("(> 1 #t)"), Err(EvalError::TypeMismatch));
    assert_eq!(run("(* 2.0 2)"), Err(EvalError::TypeMismatch));
    assert_eq!(run("(/ 1 0 2.0)"), Err(EvalError::TypeMismatch));
}

#[test]
fn arithmetic_needs_numbers() {
    assert_eq!(run("(+ #t #f)"), Err(EvalError::Type(TypeFault::Operand)));
    assert_eq!(run("(+ (1 2) (3 4))"), Err(EvalError::Type(TypeFault::Operand)));
}

#[test]
fn an_operator_needs_an_operand() {
    assert_eq!(run("(+)"), Err(EvalError::Arity(ArityFault::Operator)));
}

#[test]
fn lambda_round_trip() {
    assert_eq!(
        run("((def sqr (lambda (r) (* r r))) (sqr 10))"),
        Ok(Object::List(vec![Object::Integer(100)]))
    );
}

#[test]
fn a_program_collects_its_results_without_the_voids() {
    assert_eq!(
        run("((def a 1) (+ a 1) (def b 5) (* a b) #t)"),
        Ok(Object::List(vec![
            Object::Integer(2),
            Object::Integer(5),
            Object::Bool(true)
        ]))
    );
    assert_eq!(run("((def a 1))"), Ok(Object::List(vec![])));
    let mut scope = Scope::new();
    assert_eq!(
        run_in("((def a (+ 1.5 2.5)) (+ 1 2))", &mut scope),
        Ok(Object::List(vec![Object::Integer(3)]))
    );
    assert_eq!(scope.get("a"), Some(float(4.0)));
    assert_eq!(
        run("(1 2 3)"),
        Ok(Object::List(vec![
            Object::Integer(1),
            Object::Integer(2),
            Object::Integer(3)
        ]))
    );
}

#[test]
fn a_definition_yields_void_and_binds() {
    let mut scope = Scope::new();
    assert_eq!(run_in("(def x 41)", &mut scope), Ok(Object::Void));
    assert_eq!(scope.get("x"), Some(Object::Integer(41)));
    assert_eq!(run_in("(+ x 1)", &mut scope), Ok(Object::Integer(42)));
    assert_eq!(run_in("(def x (* x 2))", &mut scope), Ok(Object::Void));
    assert_eq!(scope.get("x"), Some(Object::Integer(82)));
}

#[test]
fn bindings_accumulate_over_calls() {
    let mut scope = Scope::new();
    assert_eq!(
        run_in("(def twice (lambda (n) (* n 2)))", &mut scope),
        Ok(Object::Void)
    );
    assert_eq!(run_in("(twice 21)", &mut scope), Ok(Object::Integer(42)));
    assert_eq!(run_in("(twice (twice 3))", &mut scope), Ok(Object::Integer(12)));
}

#[test]
fn a_definition_in_a_body_stays_in_that_call() {
    let mut scope = Scope::new();
    assert_eq!(run_in("(def x 1)", &mut scope), Ok(Object::Void));
    assert_eq!(
        run_in("(def f (lambda (a) ((def x 99) (def y 7) (+ x a))))", &mut scope),
        Ok(Object::Void)
    );
    assert_eq!(
        run_in("(f 1)", &mut scope),
        Ok(Object::List(vec![Object::Integer(100)]))
    );
    assert_eq!(scope.get("x"), Some(Object::Integer(1)));
    assert_eq!(scope.get("y"), None);
    assert_eq!(scope.get("a"), None);
}

#[test]
fn a_parameter_shadows_an_outer_binding() {
    let mut scope = Scope::new();
    assert_eq!(run_in("(def r 5)", &mut scope), Ok(Object::Void));
    assert_eq!(
        run_in("(def sqr (lambda (r) (* r r)))", &mut scope),
        Ok(Object::Void)
    );
    assert_eq!(run_in("(sqr 3)", &mut scope), Ok(Object::Integer(9)));
    assert_eq!(scope.get("r"), Some(Object::Integer(5)));
}

#[test]
fn a_body_sees_the_callers_bindings() {
    let mut scope = Scope::new();
    assert_eq!(run_in("(def k 10)", &mut scope), Ok(Object::Void));
    assert_eq!(
        run_in("(def addk (lambda (n) (+ n k)))", &mut scope),
        Ok(Object::Void)
    );
    assert_eq!(run_in("(addk 5)", &mut scope), Ok(Object::Integer(15)));
}

#[test]
fn arguments_are_evaluated_in_the_callers_scope() {
    let mut scope = Scope::new();
    assert_eq!(
        run_in("(def first (lambda (a b) (+ a 0)))", &mut scope),
        Ok(Object::Void)
    );
    assert_eq!(
        run_in("(first (+ 1 2) (def seen 4))", &mut scope),
        Ok(Object::Integer(3))
    );
    assert_eq!(scope.get("seen"), Some(Object::Integer(4)));
}

#[test]
fn if_takes_exactly_one_branch() {
    assert_eq!(
        run("(if (== 1 1) 10 (undefined-name))"),
        Ok(Object::Integer(10))
    );
    assert_eq!(
        run("(if (== 1 2) (undefined-name) 20)"),
        Ok(Object::Integer(20))
    );
    assert_eq!(run("(if #t 1 2)"), Ok(Object::Integer(1)));
    assert_eq!(run("(if #f 1 2)"), Ok(Object::Integer(2)));
    let mut scope = Scope::new();
    assert_eq!(
        run_in("(if #t (def taken 1) (def skipped 2))", &mut scope),
        Ok(Object::Void)
    );
    assert_eq!(scope.get("taken"), Some(Object::Integer(1)));
    assert_eq!(scope.get("skipped"), None);
}

#[test]
fn if_needs_four_elements_and_a_boolean() {
    assert_eq!(run("(if #t 1)"), Err(EvalError::Arity(ArityFault::Condition)));
    assert_eq!(
        run("(if #t 1 2 3)"),
        Err(EvalError::Arity(ArityFault::Condition))
    );
    assert_eq!(run("(if 1 2 3)"), Err(EvalError::Type(TypeFault::Condition)));
}

#[test]
fn def_needs_three_elements_and_a_name() {
    assert_eq!(run("(def x)"), Err(EvalError::Arity(ArityFault::Definition)));
    assert_eq!(
        run("(def x 1 2)"),
        Err(EvalError::Arity(ArityFault::Definition))
    );
    assert_eq!(
        run("(def 1 2)"),
        Err(EvalError::Type(TypeFault::DefinitionTarget))
    );
}

#[test]
fn lambda_needs_a_list_of_names_and_a_list() {
    assert_eq!(
        run("(lambda (a b) (+ a b))"),
        Ok(Object::Lambda(
            vec!["a".to_string(), "b".to_string()],
            vec![
                Object::Operator(Op::Add),
                Object::Name("a".to_string()),
                Object::Name("b".to_string())
            ]
        ))
    );
    assert_eq!(
        run("(lambda (a 1) (+ a 1))"),
        Err(EvalError::Type(TypeFault::LambdaParameter))
    );
    assert_eq!(
        run("(lambda a (+ a 1))"),
        Err(EvalError::Type(TypeFault::LambdaShape))
    );
    assert_eq!(
        run("(lambda (a) 1)"),
        Err(EvalError::Type(TypeFault::LambdaShape))
    );
    assert_eq!(
        run("(lambda (a))"),
        Err(EvalError::Type(TypeFault::LambdaShape))
    );
    assert_eq!(run("(lambda)"), Err(EvalError::Type(TypeFault::LambdaShape)));
}

#[test]
fn unbound_names_fail() {
    assert_eq!(
        run("(+ x 1)"),
        Err(EvalError::UnboundName("x".to_string()))
    );
    assert_eq!(
        run("(1 y)"),
        Err(EvalError::UnboundName("y".to_string()))
    );
}

#[test]
fn calling_what_is_no_lambda_fails() {
    assert_eq!(
        run("(f 1)"),
        Err(EvalError::UnboundSymbol("f".to_string()))
    );
    let mut scope = Scope::new();
    assert_eq!(run_in("(def n 3)", &mut scope), Ok(Object::Void));
    assert_eq!(
        run_in("(n)", &mut scope),
        Err(EvalError::UnboundSymbol("n".to_string()))
    );
}

#[test]
fn too_few_arguments_are_an_arity_error() {
    let mut scope = Scope::new();
    assert_eq!(
        run_in("(def sqr (lambda (r) (* r r)))", &mut scope),
        Ok(Object::Void)
    );
    assert_eq!(
        run_in("(sqr)", &mut scope),
        Err(EvalError::Arity(ArityFault::Call))
    );
    assert_eq!(
        run_in("(def pair (lambda (a b) (+ a b)))", &mut scope),
        Ok(Object::Void)
    );
    assert_eq!(
        run_in("(pair (def got 1))", &mut scope),
        Err(EvalError::Arity(ArityFault::Call))
    );
    // the argument that was there has been evaluated
    assert_eq!(scope.get("got"), Some(Object::Integer(1)));
    // arguments beyond the parameters are not evaluated
    assert_eq!(
        run_in("(sqr 4 (undefined-name))", &mut scope),
        Ok(Object::Integer(16))
    );
}

#[test]
fn markers_are_no_values() {
    assert_eq!(run("(1 +)"), Err(EvalError::Type(TypeFault::Node)));
    assert_eq!(run("(1 if)"), Err(EvalError::Type(TypeFault::Node)));
    assert_eq!(run("(1 def)"), Err(EvalError::Type(TypeFault::Node)));
}

#[test]
fn an_empty_list_cannot_be_evaluated() {
    assert_eq!(run("()"), Err(EvalError::Arity(ArityFault::EmptyList)));
    assert_eq!(run("(1 ())"), Err(EvalError::Arity(ArityFault::EmptyList)));
}

#[test]
fn structural_defects_are_parse_errors() {
    assert_eq!(
        run("+ 1 2"),
        Err(EvalError::Parse(ParserError {
            kind: ParserErrorKind::ExpectedOpen
        }))
    );
    assert_eq!(
        run(""),
        Err(EvalError::Parse(ParserError {
            kind: ParserErrorKind::ExpectedOpen
        }))
    );
    assert_eq!(
        run("(+ 1 2"),
        Err(EvalError::Parse(ParserError {
            kind: ParserErrorKind::InsufficientTokens
        }))
    );
    assert_eq!(
        run("(+ 1 (* 2 3)"),
        Err(EvalError::Parse(ParserError {
            kind: ParserErrorKind::InsufficientTokens
        }))
    );
}

#[test]
fn input_that_is_no_token_is_skipped() {
    assert_eq!(run("(+ 1 @ 2)"), Ok(Object::Integer(3)));
    assert_eq!(run("(+ 1 99999999999999999999 2)"), Ok(Object::Integer(3)));
}

#[test]
fn what_follows_the_program_is_ignored() {
    assert_eq!(run("(+ 1 2) (undefined-name)"), Ok(Object::Integer(3)));
}

#[test]
fn endless_recursion_hits_the_depth_limit() {
    let mut scope = Scope::new();
    assert_eq!(
        run_in("(def loop (lambda (n) (loop n)))", &mut scope),
        Ok(Object::Void)
    );
    assert_eq!(run_in("(loop 1)", &mut scope), Err(EvalError::DepthExceeded));
    assert_eq!(scope.get("n"), None);
}

#[test]
fn recursion_within_the_limit_works() {
    let mut scope = Scope::new();
    assert_eq!(
        run_in(
            "(def fact (lambda (n) (if (< n 2) 1 (* n (fact (- n 1))))))",
            &mut scope
        ),
        Ok(Object::Void)
    );
    assert_eq!(run_in("(fact 10)", &mut scope), Ok(Object::Integer(3628800)));
    assert_eq!(
        run_in("(fact 20)", &mut scope),
        Ok(Object::Integer(2432902008176640000))
    );
}

#[test]
fn counts_to_a_thousand() {
    let mut scope = Scope::new();
    assert_eq!(
        eval(
            "(def count (lambda (n) (if (< n 1) 0 (+ 1 (count (- n 1))))))".to_string(),
            &mut scope,
            &Host
        ),
        Ok(Object::Void)
    );
    assert_eq!(
        eval("(count 1000)".to_string(), &mut scope, &Host),
        Ok(Object::Integer(1000))
    );
    assert_eq!(CALL_DEPTH, 1024);
}

#[test]
fn the_limit_is_the_number_of_nested_calls() {
    let mut scope = Scope::new();
    assert_eq!(
        run_in(
            "(def down (lambda (n) (if (< n 1) 0 (down (- n 1)))))",
            &mut scope
        ),
        Ok(Object::Void)
    );
    // `(down n)` nests n + 1 calls
    assert_eq!(run_in("(down 1023)", &mut scope), Ok(Object::Integer(0)));
    assert_eq!(run_in("(down 1024)", &mut scope), Err(EvalError::DepthExceeded));
}

#[test]
fn depth_counts_nested_calls() {
    let mut scope = Scope::new();
    assert_eq!(
        evaluate("(def id (lambda (n) (+ n 0)))", &mut scope, &Host, 0),
        Ok(Object::Void)
    );
    assert_eq!(
        evaluate("(id 1)", &mut scope, &Host, 0),
        Err(EvalError::DepthExceeded)
    );
    assert_eq!(
        evaluate("(id 1)", &mut scope, &Host, 1),
        Ok(Object::Integer(1))
    );
    assert_eq!(
        evaluate("(id (id 1))", &mut scope, &Host, 1),
        Ok(Object::Integer(1))
    );
}

#[test]
fn eval_reports_failures_by_message() {
    let mut scope = Scope::new();
    assert_eq!(
        eval("(+ 1 2)".to_string(), &mut scope, &Host),
        Ok(Object::Integer(3))
    );
    assert_eq!(
        eval("(+ x 1)".to_string(), &mut scope, &Host),
        Err("There is no defined name in this environment!".to_string())
    );
    assert_eq!(
        eval("(f 1)".to_string(), &mut scope, &Host),
        Err("Unbound symbol: f !".to_string())
    );
    assert_eq!(
        eval("(+ 1 2.0)".to_string(), &mut scope, &Host),
        Err("Operands are not the same type!".to_string())
    );
    assert_eq!(
        eval("(if 1 2 3)".to_string(), &mut scope, &Host),
        Err("Condition must be a Bool type!".to_string())
    );
    assert_eq!(
        eval("+ 1".to_string(), &mut scope, &Host),
        Err("Parse error: Expected Parentheses Open '('\n".to_string())
    );
    assert_eq!(
        eval("(+ 1".to_string(), &mut scope, &Host),
        Err("Parse error: Insufficient tokens\n".to_string())
    );
}

#[test]
fn every_error_has_its_message() {
    let cases = [
        (EvalError::Arity(ArityFault::EmptyList), "Invalid List"),
        (
            EvalError::Arity(ArityFault::Condition),
            "Invalid number of arguments for If conditional check!",
        ),
        (
            EvalError::Arity(ArityFault::Definition),
            "Invalid number of arguments for define. Must be 3!",
        ),
        (EvalError::Arity(ArityFault::Operator), "Operator without operands!"),
        (EvalError::Arity(ArityFault::Call), "Too few arguments for this lambda!"),
        (
            EvalError::Type(TypeFault::DefinitionTarget),
            "Second argument must be a Name type!",
        ),
        (
            EvalError::Type(TypeFault::LambdaParameter),
            "Lambda parameter list type must be Name type!",
        ),
        (
            EvalError::Type(TypeFault::LambdaShape),
            "Lambda parameters is not a list!",
        ),
        (EvalError::Type(TypeFault::Keyword), "Invalid keyword!"),
        (EvalError::Type(TypeFault::Node), "Unexpected eval type!"),
        (
            EvalError::Type(TypeFault::Operand),
            "Operator not implemented for this object type!",
        ),
        (EvalError::DivisionByZero, "Division by zero!"),
        (EvalError::DepthExceeded, "Calls are nested too deeply!"),
    ];
    for (error, text) in cases {
        assert_eq!(error.message(), text);
    }
}

#[test]
fn values_evaluate_to_themselves() {
    let mut scope = Scope::new();
    let lambda = Object::Lambda(vec!["a".to_string()], vec![Object::Name("a".to_string())]);
    for value in [
        Object::Void,
        Object::Integer(7),
        float(1.5),
        Object::Bool(true),
        lambda,
    ] {
        assert_eq!(eval_obj(&value, &mut scope, &Host, 4), Ok(value.clone()));
    }
    assert_eq!(scope, Scope::new());
}

#[test]
fn an_unknown_keyword_is_refused() {
    let mut scope = Scope::new();
    let list = Object::List(vec![Object::Keyword("let".to_string()), Object::Integer(1)]);
    assert_eq!(
        eval_obj(&list, &mut scope, &Host, 4),
        Err(EvalError::Type(TypeFault::Keyword))
    );
}
