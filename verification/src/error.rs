//! What can go wrong when a program is parsed or evaluated.

use vstd::prelude::*;
use vstd::string::StringExecFns;
use crate::object::{Expr, Object};

verus! {

/// The two structural defects of a token sequence.
#[derive(Debug, Clone, Copy, PartialEq, Eq, Structural)]
pub enum ParserErrorKind {
    /// The sequence does not start with an open parenthesis.
    ExpectedOpen,
    /// The sequence ends inside a list.
    InsufficientTokens,
}

/// A structural defect found while parsing.
#[derive(Debug, Clone, Copy, PartialEq, Eq, Structural)]
pub struct ParserError {
    pub kind: ParserErrorKind,
}

/// The forms that can have a wrong number of elements.
#[derive(Debug, Clone, Copy, PartialEq, Eq, Structural)]
pub enum ArityFault {
    /// A list without elements was evaluated.
    EmptyList,
    /// An `if` without exactly four elements.
    Condition,
    /// A `def` without exactly three elements.
    Definition,
    /// An operator without operands.
    Operator,
    /// A call with fewer arguments than the lambda has parameters.
    Call,
}

/// The places where a node of one kind was required and another found.
#[derive(Debug, Clone, Copy, PartialEq, Eq, Structural)]
pub enum TypeFault {
    /// The condition of an `if` is not a boolean.
    Condition,
    /// The target of a `def` is not a name.
    DefinitionTarget,
    /// A lambda's parameter list holds something other than names.
    LambdaParameter,
    /// A lambda's parameter list or body is missing or is not a list.
    LambdaShape,
    /// A keyword other than `def` and `lambda` heads a list.
    Keyword,
    /// An operator, keyword or `if` marker stands where a value is expected.
    Node,
    /// An arithmetic operator was applied to operands that are not numbers.
    Operand,
}

/// The reason why an evaluation failed.
#[derive(Debug, PartialEq)]
pub enum EvalError {
    /// The source text is not a well-formed list.
    Parse(ParserError),
    /// A name has no binding in any enclosing frame.
    UnboundName(String),
    /// The head of a call is not bound to a lambda.
    UnboundSymbol(String),
    /// A form has the wrong number of elements.
    Arity(ArityFault),
    /// A node has the wrong kind.
    Type(TypeFault),
    /// The operands of an operator do not all have the same kind.
    TypeMismatch,
    /// An integer was divided by zero.
    DivisionByZero,
    /// Calls were nested more deeply than the limit allows.
    DepthExceeded,
}

/// The mathematical model of an [`EvalError`].
pub enum Failure {
    Parse(ParserError),
    UnboundName(Seq<char>),
    UnboundSymbol(Seq<char>),
    Arity(ArityFault),
    Type(TypeFault),
    TypeMismatch,
    DivisionByZero,
    DepthExceeded,
}

impl View for EvalError {
    type V = Failure;

    open spec fn view(&self) -> Failure {
        match self {
            EvalError::Parse(e) => Failure::Parse(*e),
            EvalError::UnboundName(s) => Failure::UnboundName(s@),
            EvalError::UnboundSymbol(s) => Failure::UnboundSymbol(s@),
            EvalError::Arity(f) => Failure::Arity(*f),
            EvalError::Type(f) => Failure::Type(*f),
            EvalError::TypeMismatch => Failure::TypeMismatch,
            EvalError::DivisionByZero => Failure::DivisionByZero,
            EvalError::DepthExceeded => Failure::DepthExceeded,
        }
    }
}

/// The model of an evaluation's result.
pub open spec fn result_view(r: Result<Object, EvalError>) -> Result<Expr, Failure> {
    match r {
        Ok(o) => Ok(o@),
        Err(e) => Err(e@),
    }
}

/// The message of a parse error.
pub open spec fn parser_message(e: ParserError) -> Seq<char> {
    match e.kind {
        ParserErrorKind::ExpectedOpen => "Parse error: Expected Parentheses Open '('\n"@,
        ParserErrorKind::InsufficientTokens => "Parse error: Insufficient tokens\n"@,
    }
}

/// The message of an evaluation failure.
pub open spec fn message_text(f: Failure) -> Seq<char> {
    match f {
        Failure::Parse(e) => parser_message(e),
        Failure::UnboundName(_) => "There is no defined name in this environment!"@,
        Failure::UnboundSymbol(s) => "Unbound symbol: "@ + s + " !"@,
        Failure::Arity(ArityFault::EmptyList) => "Invalid List"@,
        Failure::Arity(ArityFault::Condition) =>
            "Invalid number of arguments for If conditional check!"@,
        Failure::Arity(ArityFault::Definition) =>
            "Invalid number of arguments for define. Must be 3!"@,
        Failure::Arity(ArityFault::Operator) => "Operator without operands!"@,
        Failure::Arity(ArityFault::Call) => "Too few arguments for this lambda!"@,
        Failure::Type(TypeFault::Condition) => "Condition must be a Bool type!"@,
        Failure::Type(TypeFault::DefinitionTarget) => "Second argument must be a Name type!"@,
        Failure::Type(TypeFault::LambdaParameter) =>
            "Lambda parameter list type must be Name type!"@,
        Failure::Type(TypeFault::LambdaShape) => "Lambda parameters is not a list!"@,
        Failure::Type(TypeFault::Keyword) => "Invalid keyword!"@,
        Failure::Type(TypeFault::Node) => "Unexpected eval type!"@,
        Failure::Type(TypeFault::Operand) => "Operator not implemented for this object type!"@,
        Failure::TypeMismatch => "Operands are not the same type!"@,
        Failure::DivisionByZero => "Division by zero!"@,
        Failure::DepthExceeded => "Calls are nested too deeply!"@,
    }
}

impl ParserError {
    /// The message of this error.
    pub fn message(&self) -> (r: String)
        ensures
            r@ == parser_message(*self),
    {
        match self.kind {
            ParserErrorKind::ExpectedOpen => "Parse error: Expected Parentheses Open '('\n".to_owned(),
            ParserErrorKind::InsufficientTokens => "Parse error: Insufficient tokens\n".to_owned(),
        }
    }
}

impl EvalError {
    /// The message of this error.
    pub fn message(&self) -> (r: String)
        ensures
            r@ == message_text(self@),
    {
        match self {
            EvalError::Parse(e) => e.message(),
            EvalError::UnboundName(_) => "There is no defined name in this environment!".to_owned(),
            EvalError::UnboundSymbol(s) => {
                let mut text = "Unbound symbol: ".to_owned();
                text.append(s.as_str());
                text.append(" !");
                text
            },
            EvalError::Arity(ArityFault::EmptyList) => "Invalid List".to_owned(),
            EvalError::Arity(ArityFault::Condition) =>
                "Invalid number of arguments for If conditional check!".to_owned(),
            EvalError::Arity(ArityFault::Definition) =>
                "Invalid number of arguments for define. Must be 3!".to_owned(),
            EvalError::Arity(ArityFault::Operator) => "Operator without operands!".to_owned(),
            EvalError::Arity(ArityFault::Call) => "Too few arguments for this lambda!".to_owned(),
            EvalError::Type(TypeFault::Condition) => "Condition must be a Bool type!".to_owned(),
            EvalError::Type(TypeFault::DefinitionTarget) =>
                "Second argument must be a Name type!".to_owned(),
            EvalError::Type(TypeFault::LambdaParameter) =>
                "Lambda parameter list type must be Name type!".to_owned(),
            EvalError::Type(TypeFault::LambdaShape) => "Lambda parameters is not a list!".to_owned(),
            EvalError::Type(TypeFault::Keyword) => "Invalid keyword!".to_owned(),
            EvalError::Type(TypeFault::Node) => "Unexpected eval type!".to_owned(),
            EvalError::Type(TypeFault::Operand) =>
                "Operator not implemented for this object type!".to_owned(),
            EvalError::TypeMismatch => "Operands are not the same type!".to_owned(),
            EvalError::DivisionByZero => "Division by zero!".to_owned(),
            EvalError::DepthExceeded => "Calls are nested too deeply!".to_owned(),
        }
    }
}

} // verus!
