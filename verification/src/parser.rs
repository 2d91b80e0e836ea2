//! The parser: from tokens to one expression tree.
//!
//! The tokens are taken as a stack: the last one is the first of the source.

use vstd::prelude::*;
use crate::error::{ParserError, ParserErrorKind};
use crate::lexer::{tokens_view, LexerToken, Token};
use crate::object::{objects_view, Expr, Object, Op};
use crate::scope::option_view;

verus! {

/// What parsing leaves behind: the tree, or the defect, and the tokens not
/// yet consumed.
pub struct Parsed {
    pub result: Result<Expr, ParserError>,
    pub rest: Seq<Token>,
}

/// The leaf that a token stands for; `None` for parentheses and for input
/// that is no token.
pub open spec fn leaf_of(t: Token) -> Option<Expr> {
    match t {
        Token::Integer(n) => Some(Expr::Integer(n)),
        Token::Float(bits) => Some(Expr::Float(bits)),
        Token::Bool(b) => Some(Expr::Bool(b)),
        Token::OpAdd => Some(Expr::Operator(Op::Add)),
        Token::OpSub => Some(Expr::Operator(Op::Sub)),
        Token::OpMul => Some(Expr::Operator(Op::Mul)),
        Token::OpDiv => Some(Expr::Operator(Op::Div)),
        Token::OpEqual => Some(Expr::Operator(Op::Eq)),
        Token::OpNotEqual => Some(Expr::Operator(Op::NotEq)),
        Token::OpGreater => Some(Expr::Operator(Op::Greater)),
        Token::OpSmaller => Some(Expr::Operator(Op::Smaller)),
        Token::Keyword(s) => Some(Expr::Keyword(s)),
        Token::Name(s) => Some(Expr::Name(s)),
        Token::If => Some(Expr::Condition),
        Token::Error | Token::ParenthesesOpen | Token::ParenthesesClose => None,
    }
}

/// Parses one list from the top of the stack: an open parenthesis, the
/// elements, a close parenthesis.
pub open spec fn parse_list_model(stack: Seq<Token>) -> Parsed
    decreases stack.len(), 0nat,
{
    if stack.len() == 0 {
        Parsed { result: Err(ParserError { kind: ParserErrorKind::ExpectedOpen }), rest: stack }
    } else if stack.last() != Token::ParenthesesOpen {
        Parsed {
            result: Err(ParserError { kind: ParserErrorKind::ExpectedOpen }),
            rest: stack.drop_last(),
        }
    } else {
        parse_items_model(stack.drop_last(), Seq::empty())
    }
}

/// Parses the elements of a list whose open parenthesis is consumed and
/// whose first elements are `done`, up to the close parenthesis.
pub open spec fn parse_items_model(stack: Seq<Token>, done: Seq<Expr>) -> Parsed
    decreases stack.len(), 1nat,
{
    if stack.len() == 0 {
        Parsed {
            result: Err(ParserError { kind: ParserErrorKind::InsufficientTokens }),
            rest: stack,
        }
    } else {
        match stack.last() {
            Token::ParenthesesClose => Parsed { result: Ok(Expr::List(done)), rest: stack.drop_last() },
            Token::ParenthesesOpen => {
                let inner = parse_list_model(stack);
                match inner.result {
                    Err(_) => inner,
                    Ok(sub) => if inner.rest.len() < stack.len() {
                        parse_items_model(inner.rest, done.push(sub))
                    } else {
                        inner
                    },
                }
            },
            t => match leaf_of(t) {
                Some(leaf) => parse_items_model(stack.drop_last(), done.push(leaf)),
                None => parse_items_model(stack.drop_last(), done),
            },
        }
    }
}

/// Parsing a list consumes at least one token, and parsing its elements
/// never adds one: a nested list always makes progress.
pub proof fn law_parsing_consumes(stack: Seq<Token>, done: Seq<Expr>)
    ensures
        stack.len() > 0 ==> parse_list_model(stack).rest.len() < stack.len(),
        parse_items_model(stack, done).rest.len() <= stack.len(),
    decreases stack.len(),
{
    if stack.len() > 0 {
        law_parsing_consumes(stack.drop_last(), Seq::empty());
        law_parsing_consumes(stack.drop_last(), done);
        match stack.last() {
            Token::ParenthesesClose => {},
            Token::ParenthesesOpen => {
                let inner = parse_list_model(stack);
                match inner.result {
                    Ok(sub) => {
                        law_parsing_consumes(inner.rest, done.push(sub));
                    },
                    Err(_) => {},
                }
            },
            t => {
                match leaf_of(t) {
                    Some(leaf) => {
                        law_parsing_consumes(stack.drop_last(), done.push(leaf));
                    },
                    None => {},
                }
            },
        }
    }
}

/// The model of a parse result.
pub open spec fn parse_view(r: Result<Object, ParserError>) -> Result<Expr, ParserError> {
    match r {
        Ok(o) => Ok(o@),
        Err(e) => Err(e),
    }
}

/// The leaf that a token stands for.
pub fn leaf(token: LexerToken) -> (r: Option<Object>)
    ensures
        option_view(r) == leaf_of(token@),
{
    match token {
        LexerToken::Integer(n) => Some(Object::Integer(n)),
        LexerToken::Float(bits) => Some(Object::Float(bits)),
        LexerToken::Bool(b) => Some(Object::Bool(b)),
        LexerToken::OpAdd => Some(Object::Operator(Op::Add)),
        LexerToken::OpSub => Some(Object::Operator(Op::Sub)),
        LexerToken::OpMul => Some(Object::Operator(Op::Mul)),
        LexerToken::OpDiv => Some(Object::Operator(Op::Div)),
        LexerToken::OpEqual => Some(Object::Operator(Op::Eq)),
        LexerToken::OpNotEqual => Some(Object::Operator(Op::NotEq)),
        LexerToken::OpGreater => Some(Object::Operator(Op::Greater)),
        LexerToken::OpSmaller => Some(Object::Operator(Op::Smaller)),
        LexerToken::Keyword(s) => Some(Object::Keyword(s)),
        LexerToken::Name(s) => Some(Object::Name(s)),
        LexerToken::If => Some(Object::Condition),
        _ => None,
    }
}

/// Parses the program on top of the token stack into one tree.
///
/// The tokens of the program are consumed; what follows its closing
/// parenthesis stays on the stack.
pub fn parse(lexer_tokens: &mut Vec<LexerToken>) -> (r: Result<Object, ParserError>)
    ensures
        parse_view(r) == parse_list_model(tokens_view(old(lexer_tokens)@)).result,
        tokens_view(final(lexer_tokens)@) == parse_list_model(tokens_view(old(lexer_tokens)@)).rest,
{
    parse_list(lexer_tokens)
}

/// Parses one list from the top of the token stack.
pub fn parse_list(lexer_tokens: &mut Vec<LexerToken>) -> (r: Result<Object, ParserError>)
    ensures
        parse_view(r) == parse_list_model(tokens_view(old(lexer_tokens)@)).result,
        tokens_view(final(lexer_tokens)@) == parse_list_model(tokens_view(old(lexer_tokens)@)).rest,
        old(lexer_tokens).len() > 0 ==> final(lexer_tokens).len() < old(lexer_tokens).len(),
    decreases old(lexer_tokens).len(),
{
    let ghost start = tokens_view(lexer_tokens@);
    match lexer_tokens.pop() {
        Some(LexerToken::ParenthesesOpen) => {},
        Some(_) => {
            assert(tokens_view(lexer_tokens@) =~= start.drop_last());
            return Err(ParserError { kind: ParserErrorKind::ExpectedOpen });
        },
        None => {
            assert(tokens_view(lexer_tokens@) =~= start);
            return Err(ParserError { kind: ParserErrorKind::ExpectedOpen });
        },
    }
    assert(tokens_view(lexer_tokens@) =~= start.drop_last());
    let mut list: Vec<Object> = Vec::new();
    assert(objects_view(list@) =~= Seq::<Expr>::empty());
    while lexer_tokens.len() > 0
        invariant
            start == tokens_view(old(lexer_tokens)@),
            lexer_tokens.len() < old(lexer_tokens).len(),
            parse_list_model(start) == parse_items_model(
                tokens_view(lexer_tokens@),
                objects_view(list@),
            ),
        decreases lexer_tokens.len(),
    {
        let ghost stack = tokens_view(lexer_tokens@);
        let ghost done = objects_view(list@);
        let token = lexer_tokens.pop().unwrap();
        assert(tokens_view(lexer_tokens@) =~= stack.drop_last());
        assert(token@ == stack.last());
        match token {
            LexerToken::ParenthesesClose => {
                return Ok(Object::List(list));
            },
            LexerToken::ParenthesesOpen => {
                lexer_tokens.push(LexerToken::ParenthesesOpen);
                assert(tokens_view(lexer_tokens@) =~= stack);
                match parse_list(lexer_tokens) {
                    Err(e) => {
                        return Err(e);
                    },
                    Ok(sub_list) => {
                        list.push(sub_list);
                        assert(objects_view(list@) =~= done.push(sub_list@));
                    },
                }
            },
            other => {
                match leaf(other) {
                    Some(node) => {
                        list.push(node);
                        assert(objects_view(list@) =~= done.push(node@));
                    },
                    None => {},
                }
            },
        }
    }
    assert(tokens_view(lexer_tokens@) =~= Seq::<Token>::empty());
    Err(ParserError { kind: ParserErrorKind::InsufficientTokens })
}

} // verus!
