use minilisp::float::{FloatArith, Literal};
use minilisp::lexer::{lexing, Lexer, LexerToken};

struct Host;

impl FloatArith for Host {
    fn from_decimal(&self, literal: &str) -> u64 {
        literal.parse::<f64>().unwrap().to_bits()
    }

    fn sum(&self, a: u64, b: u64) -> u64 {
        (f64::from_bits(a) + f64::from_bits(b)).to_bits()
    }

    fn difference(&self, a: u64, b: u64) -> u64 {
        (f64::from_bits(a) - f64::from_bits(b)).to_bits()
    }

    fn product(&self, a: u64, b: u64) -> u64 {
        (f64::from_bits(a) * f64::from_bits(b)).to_bits()
    }

    fn quotient(&self, a: u64, b: u64) -> u64 {
        (f64::from_bits(a) / f64::from_bits(b)).to_bits()
    }

    fn to_text(&self, bits: u64) -> String {
        f64::from_bits(bits).to_string()
    }

    fn decimal_of(&self, _literal: Literal) -> u64 {
        unreachable!()
    }

    fn sum_of(&self, a: u64, b: u64) -> u64 {
        self.sum(a, b)
    }

    fn difference_of(&self, a: u64, b: u64) -> u64 {
        self.difference(a, b)
    }

    fn product_of(&self, a: u64, b: u64) -> u64 {
        self.product(a, b)
    }

    fn quotient_of(&self, a: u64, b: u64) -> u64 {
        self.quotient(a, b)
    }

    fn shown_as(&self, bits: u64) -> String {
        self.to_text(bits)
    }
}

fn float(x: f64) -> LexerToken {
    LexerToken::Float(x.to_bits())
}

fn name(s: &str) -> LexerToken {
    LexerToken::Name(s.to_string())
}

fn keyword(s: &str) -> LexerToken {
    LexerToken::Keyword(s.to_string())
}

#[test]
fn test_add_int() {
    let mut lex = Lexer::new("(+ 1 2)");

    assert_eq!(lex.next_token(&Host), Some(LexerToken::ParenthesesOpen));
    assert_eq!(lex.slice(), "(");

    assert_eq!(lex.next_token(&Host), Some(LexerToken::OpAdd));
    assert_eq!(lex.slice(), "+");

    assert_eq!(lex.next_token(&Host), Some(LexerToken::Integer(1)));
    assert_eq!(lex.slice(), "1");

    assert_eq!(lex.next_token(&Host), Some(LexerToken::Integer(2)));
    assert_eq!(lex.slice(), "2");

    assert_eq!(lex.next_token(&Host), Some(LexerToken::ParenthesesClose));
    assert_eq!(lex.slice(), ")");

    assert_eq!(lex.next_token(&Host), None);
}

#[test]
fn test_add_float() {
    let mut lex = Lexer::new("(+ 1. 2.)");

    assert_eq!(lex.next_token(&Host), Some(LexerToken::ParenthesesOpen));
    assert_eq!(lex.slice(), "(");

    assert_eq!(lex.next_token(&Host), Some(LexerToken::OpAdd));
    assert_eq!(lex.slice(), "+");

    assert_eq!(lex.next_token(&Host), Some(float(1.0)));
    assert_eq!(lex.slice(), "1.");

    assert_eq!(lex.next_token(&Host), Some(float(2.0)));
    assert_eq!(lex.slice(), "2.");

    assert_eq!(lex.next_token(&Host), Some(LexerToken::ParenthesesClose));
    assert_eq!(lex.slice(), ")");

    assert_eq!(lex.next_token(&Host), None);
}

#[test]
fn test_sub_float() {
    let mut lex = Lexer::new("(- -1. 2.)");

    assert_eq!(lex.next_token(&Host), Some(LexerToken::ParenthesesOpen));
    assert_eq!(lex.slice(), "(");

    assert_eq!(lex.next_token(&Host), Some(LexerToken::OpSub));
    assert_eq!(lex.slice(), "-");

    assert_eq!(lex.next_token(&Host), Some(float(-1.0)));
    assert_eq!(lex.slice(), "-1.");

    assert_eq!(lex.next_token(&Host), Some(float(2.0)));
    assert_eq!(lex.slice(), "2.");

    assert_eq!(lex.next_token(&Host), Some(LexerToken::ParenthesesClose));
    assert_eq!(lex.slice(), ")");

    assert_eq!(lex.next_token(&Host), None);
}

#[test]
fn test_define_main() {
    let mut lex = Lexer::new("(def main \n(lambda () + 1 2))");

    assert_eq!(lex.next_token(&Host), Some(LexerToken::ParenthesesOpen));
    assert_eq!(lex.slice(), "(");

    assert_eq!(lex.next_token(&Host), Some(keyword("def")));
    assert_eq!(lex.slice(), "def");

    assert_eq!(lex.next_token(&Host), Some(name("main")));
    assert_eq!(lex.slice(), "main");

    assert_eq!(lex.next_token(&Host), Some(LexerToken::ParenthesesOpen));
    assert_eq!(lex.slice(), "(");

    assert_eq!(lex.next_token(&Host), Some(keyword("lambda")));
    assert_eq!(lex.slice(), "lambda");

    assert_eq!(lex.next_token(&Host), Some(LexerToken::ParenthesesOpen));
    assert_eq!(lex.slice(), "(");

    assert_eq!(lex.next_token(&Host), Some(LexerToken::ParenthesesClose));
    assert_eq!(lex.slice(), ")");

    assert_eq!(lex.next_token(&Host), Some(LexerToken::OpAdd));
    assert_eq!(lex.slice(), "+");

    assert_eq!(lex.next_token(&Host), Some(LexerToken::Integer(1)));
    assert_eq!(lex.slice(), "1");

    assert_eq!(lex.next_token(&Host), Some(LexerToken::Integer(2)));
    assert_eq!(lex.slice(), "2");

    assert_eq!(lex.next_token(&Host), Some(LexerToken::ParenthesesClose));
    assert_eq!(lex.slice(), ")");

    assert_eq!(lex.next_token(&Host), Some(LexerToken::ParenthesesClose));
    assert_eq!(lex.slice(), ")");

    assert_eq!(lex.next_token(&Host), None);
}

#[test]
fn test_bool() {
    let mut lex = Lexer::new("(if (== #t #f) (print 2))");
    assert_eq!(lex.next_token(&Host), Some(LexerToken::ParenthesesOpen));
    assert_eq!(lex.slice(), "(");

    assert_eq!(lex.next_token(&Host), Some(LexerToken::If));
    assert_eq!(lex.slice(), "if");

    assert_eq!(lex.next_token(&Host), Some(LexerToken::ParenthesesOpen));
    assert_eq!(lex.slice(), "(");

    assert_eq!(lex.next_token(&Host), Some(LexerToken::OpEqual));
    assert_eq!(lex.slice(), "==");

    assert_eq!(lex.next_token(&Host), Some(LexerToken::Bool(true)));
    assert_eq!(lex.slice(), "#t");

    assert_eq!(lex.next_token(&Host), Some(LexerToken::Bool(false)));
    assert_eq!(lex.slice(), "#f");

    assert_eq!(lex.next_token(&Host), Some(LexerToken::ParenthesesClose));
    assert_eq!(lex.slice(), ")");

    assert_eq!(lex.next_token(&Host), Some(LexerToken::ParenthesesOpen));
    assert_eq!(lex.slice(), "(");

    // `print` is neither `def` nor `lambda`, so it is a name.
    assert_eq!(lex.next_token(&Host), Some(name("print")));
    assert_eq!(lex.slice(), "print");

    assert_eq!(lex.next_token(&Host), Some(LexerToken::Integer(2)));
    assert_eq!(lex.slice(), "2");

    assert_eq!(lex.next_token(&Host), Some(LexerToken::ParenthesesClose));
    assert_eq!(lex.slice(), ")");

    assert_eq!(lex.next_token(&Host), Some(LexerToken::ParenthesesClose));
    assert_eq!(lex.slice(), ")");

    assert_eq!(lex.next_token(&Host), None);
}

#[test]
fn lexing_collects_all_tokens() {
    assert_eq!(
        lexing("(+ 1 2)", &Host),
        vec![
            LexerToken::ParenthesesOpen,
            LexerToken::OpAdd,
            LexerToken::Integer(1),
            LexerToken::Integer(2),
            LexerToken::ParenthesesClose,
        ]
    );
}

#[test]
fn lexing_of_nothing_is_empty() {
    assert_eq!(lexing("", &Host), vec![]);
    assert_eq!(lexing(" \t\n\x0c ", &Host), vec![]);
}

#[test]
fn every_operator_has_its_token() {
    assert_eq!(
        lexing("+ - * / > < == !=", &Host),
        vec![
            LexerToken::OpAdd,
            LexerToken::OpSub,
            LexerToken::OpMul,
            LexerToken::OpDiv,
            LexerToken::OpGreater,
            LexerToken::OpSmaller,
            LexerToken::OpEqual,
            LexerToken::OpNotEqual,
        ]
    );
}

#[test]
fn longest_match_wins() {
    assert_eq!(lexing("define", &Host), vec![name("define")]);
    assert_eq!(lexing("def", &Host), vec![keyword("def")]);
    assert_eq!(lexing("lambda", &Host), vec![keyword("lambda")]);
    assert_eq!(lexing("lambdas", &Host), vec![name("lambdas")]);
    assert_eq!(lexing("if", &Host), vec![LexerToken::If]);
    assert_eq!(lexing("iffy", &Host), vec![name("iffy")]);
    assert_eq!(lexing("a-b_c9", &Host), vec![name("a-b_c9")]);
    assert_eq!(lexing("-12", &Host), vec![LexerToken::Integer(-12)]);
    assert_eq!(lexing("- 12", &Host), vec![LexerToken::OpSub, LexerToken::Integer(12)]);
    assert_eq!(lexing("1-2", &Host), vec![LexerToken::Integer(1), LexerToken::Integer(-2)]);
    assert_eq!(lexing("12.5", &Host), vec![float(12.5)]);
    assert_eq!(lexing("-0.25", &Host), vec![float(-0.25)]);
    assert_eq!(lexing("#true", &Host), vec![LexerToken::Bool(true), name("rue")]);
}

#[test]
fn input_that_is_no_token_gives_error_tokens() {
    assert_eq!(lexing("@", &Host), vec![LexerToken::Error]);
    assert_eq!(lexing("=", &Host), vec![LexerToken::Error]);
    assert_eq!(lexing("!", &Host), vec![LexerToken::Error]);
    assert_eq!(lexing("#x", &Host), vec![LexerToken::Error, name("x")]);
    assert_eq!(lexing("\r", &Host), vec![LexerToken::Error]);
    assert_eq!(lexing("é1", &Host), vec![LexerToken::Error, LexerToken::Integer(1)]);
    assert_eq!(
        lexing("1.2.3", &Host),
        vec![float(1.2), LexerToken::Error, LexerToken::Integer(3)]
    );
}

#[test]
fn integer_literals_at_the_limits() {
    assert_eq!(
        lexing("9223372036854775807", &Host),
        vec![LexerToken::Integer(i64::MAX)]
    );
    assert_eq!(
        lexing("-9223372036854775808", &Host),
        vec![LexerToken::Integer(i64::MIN)]
    );
    assert_eq!(lexing("9223372036854775808", &Host), vec![LexerToken::Error]);
    assert_eq!(lexing("-9223372036854775809", &Host), vec![LexerToken::Error]);
    assert_eq!(
        lexing("99999999999999999999999999", &Host),
        vec![LexerToken::Error]
    );
    assert_eq!(lexing("007", &Host), vec![LexerToken::Integer(7)]);
    assert_eq!(lexing("-0", &Host), vec![LexerToken::Integer(0)]);
}

#[test]
fn slice_gives_the_text_of_the_last_token() {
    let mut lex = Lexer::new("  foo-bar   é");
    assert_eq!(lex.next_token(&Host), Some(name("foo-bar")));
    assert_eq!(lex.slice(), "foo-bar");
    assert_eq!(lex.next_token(&Host), Some(LexerToken::Error));
    assert_eq!(lex.slice(), "é");
    assert_eq!(lex.next_token(&Host), None);
    assert_eq!(lex.slice(), "");
}
