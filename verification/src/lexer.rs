//! The lexer: from source text to tokens.

use vstd::prelude::*;
use vstd::std_specs::iter::IteratorSpec;
use vstd::string::StrSliceExecFns;
use crate::float::FloatArith;

verus! {

/// A token of the language.
///
/// `Error` marks input that is no token: a character that starts none, or
/// an integer literal that does not fit in 64 bits. A `Float` holds the bit
/// pattern of the double that its literal denotes.
#[derive(Debug, PartialEq)]
pub enum LexerToken {
    Error,
    Integer(i64),
    Float(u64),
    Bool(bool),
    OpAdd,
    OpSub,
    OpMul,
    OpDiv,
    OpGreater,
    OpSmaller,
    OpEqual,
    OpNotEqual,
    ParenthesesOpen,
    ParenthesesClose,
    Keyword(String),
    If,
    Name(String),
}

/// The mathematical model of a [`LexerToken`].
pub enum Token {
    Error,
    Integer(i64),
    Float(u64),
    Bool(bool),
    OpAdd,
    OpSub,
    OpMul,
    OpDiv,
    OpGreater,
    OpSmaller,
    OpEqual,
    OpNotEqual,
    ParenthesesOpen,
    ParenthesesClose,
    Keyword(Seq<char>),
    If,
    Name(Seq<char>),
}

impl View for LexerToken {
    type V = Token;

    open spec fn view(&self) -> Token {
        match self {
            LexerToken::Error => Token::Error,
            LexerToken::Integer(n) => Token::Integer(*n),
            LexerToken::Float(bits) => Token::Float(*bits),
            LexerToken::Bool(b) => Token::Bool(*b),
            LexerToken::OpAdd => Token::OpAdd,
            LexerToken::OpSub => Token::OpSub,
            LexerToken::OpMul => Token::OpMul,
            LexerToken::OpDiv => Token::OpDiv,
            LexerToken::OpGreater => Token::OpGreater,
            LexerToken::OpSmaller => Token::OpSmaller,
            LexerToken::OpEqual => Token::OpEqual,
            LexerToken::OpNotEqual => Token::OpNotEqual,
            LexerToken::ParenthesesOpen => Token::ParenthesesOpen,
            LexerToken::ParenthesesClose => Token::ParenthesesClose,
            LexerToken::Keyword(s) => Token::Keyword(s@),
            LexerToken::If => Token::If,
            LexerToken::Name(s) => Token::Name(s@),
        }
    }
}

/// The models of a vector of tokens.
pub open spec fn tokens_view(tokens: Seq<LexerToken>) -> Seq<Token> {
    Seq::new(tokens.len(), |i: int| tokens[i]@)
}

/// Whether a character separates tokens: space, tab, newline or form feed.
pub open spec fn is_space(c: char) -> bool {
    c == ' ' || c == '\t' || c == '\n' || c == '\x0c'
}

/// Whether a character is a decimal digit.
pub open spec fn is_digit(c: char) -> bool {
    '0' <= c <= '9'
}

/// Whether a character is an ASCII letter.
pub open spec fn is_letter(c: char) -> bool {
    'a' <= c <= 'z' || 'A' <= c <= 'Z'
}

/// Whether a character may follow the first letter of a name.
pub open spec fn is_name_char(c: char) -> bool {
    is_letter(c) || is_digit(c) || c == '_' || c == '-'
}

/// The end of the run of separators that starts at `i`.
pub open spec fn spaces_end(s: Seq<char>, i: int) -> int
    decreases s.len() - i,
{
    if 0 <= i < s.len() && is_space(s[i]) {
        spaces_end(s, i + 1)
    } else {
        i
    }
}

/// The end of the run of digits that starts at `i`.
pub open spec fn digits_end(s: Seq<char>, i: int) -> int
    decreases s.len() - i,
{
    if 0 <= i < s.len() && is_digit(s[i]) {
        digits_end(s, i + 1)
    } else {
        i
    }
}

/// The end of the run of name characters that starts at `i`.
pub open spec fn name_end(s: Seq<char>, i: int) -> int
    decreases s.len() - i,
{
    if 0 <= i < s.len() && is_name_char(s[i]) {
        name_end(s, i + 1)
    } else {
        i
    }
}

/// The number that the digits `from..to` denote in base ten.
pub open spec fn digits_value(s: Seq<char>, from: int, to: int) -> int
    decreases to - from,
{
    if to <= from {
        0
    } else {
        digits_value(s, from, to - 1) * 10 + (s[to - 1] as int - '0' as int)
    }
}

/// Whether a number starts at `i`: a digit, or a minus sign and a digit.
pub open spec fn starts_number(s: Seq<char>, i: int) -> bool {
    0 <= i < s.len() && (is_digit(s[i]) || (s[i] == '-' && i + 1 < s.len() && is_digit(s[i + 1])))
}

/// Where the digits of the number that starts at `i` start.
pub open spec fn digits_start(s: Seq<char>, i: int) -> int {
    if s[i] == '-' {
        i + 1
    } else {
        i
    }
}

/// Whether the number that starts at `i` is a float: its digits are
/// followed by a point.
pub open spec fn is_float_at(s: Seq<char>, i: int) -> bool {
    let e = digits_end(s, digits_start(s, i));
    e < s.len() && s[e] == '.'
}

/// The value of the integer literal that starts at `i`.
pub open spec fn integer_at(s: Seq<char>, i: int) -> int {
    let d = digits_start(s, i);
    let v = digits_value(s, d, digits_end(s, d));
    if s[i] == '-' {
        -v
    } else {
        v
    }
}

/// Whether the character after `i` is `c`.
pub open spec fn followed_by(s: Seq<char>, i: int, c: char) -> bool {
    i + 1 < s.len() && s[i + 1] == c
}

/// The end of the lexeme that starts at `i`, where `i` is the position of
/// a character that is no separator. The longest token wins; a character
/// that starts no token is a lexeme of its own.
pub open spec fn lexeme_end(s: Seq<char>, i: int) -> int {
    let c = s[i];
    if starts_number(s, i) {
        let e = digits_end(s, digits_start(s, i));
        if is_float_at(s, i) {
            digits_end(s, e + 1)
        } else {
            e
        }
    } else if is_letter(c) {
        name_end(s, i + 1)
    } else if (c == '=' || c == '!') && followed_by(s, i, '=') {
        i + 2
    } else if c == '#' && (followed_by(s, i, 't') || followed_by(s, i, 'f')) {
        i + 2
    } else {
        i + 1
    }
}

/// The token of the lexeme that starts at `i`. A float literal denotes
/// what the host makes of its text, from the sign to the last digit; an
/// integer literal that does not fit in 64 bits is no token.
pub open spec fn lexeme_token<A: FloatArith>(arith: &A, s: Seq<char>, i: int) -> Token {
    let c = s[i];
    if starts_number(s, i) {
        if is_float_at(s, i) {
            Token::Float(arith.decimal_of(s.subrange(i, lexeme_end(s, i))))
        } else if i64::MIN <= integer_at(s, i) <= i64::MAX {
            Token::Integer(integer_at(s, i) as i64)
        } else {
            Token::Error
        }
    } else if is_letter(c) {
        let word = s.subrange(i, name_end(s, i + 1));
        if word == "def"@ || word == "lambda"@ {
            Token::Keyword(word)
        } else if word == "if"@ {
            Token::If
        } else {
            Token::Name(word)
        }
    } else if c == '(' {
        Token::ParenthesesOpen
    } else if c == ')' {
        Token::ParenthesesClose
    } else if c == '+' {
        Token::OpAdd
    } else if c == '-' {
        Token::OpSub
    } else if c == '*' {
        Token::OpMul
    } else if c == '/' {
        Token::OpDiv
    } else if c == '>' {
        Token::OpGreater
    } else if c == '<' {
        Token::OpSmaller
    } else if c == '=' && followed_by(s, i, '=') {
        Token::OpEqual
    } else if c == '!' && followed_by(s, i, '=') {
        Token::OpNotEqual
    } else if c == '#' && followed_by(s, i, 't') {
        Token::Bool(true)
    } else if c == '#' && followed_by(s, i, 'f') {
        Token::Bool(false)
    } else {
        Token::Error
    }
}

/// A run of digits ends at or after its start, within the text.
pub proof fn lemma_digits_end_bounds(s: Seq<char>, i: int)
    requires
        0 <= i <= s.len(),
    ensures
        i <= digits_end(s, i) <= s.len(),
        is_digit_at(s, i) ==> i < digits_end(s, i),
    decreases s.len() - i,
{
    if i < s.len() && is_digit(s[i]) {
        lemma_digits_end_bounds(s, i + 1);
    }
}

/// A run of name characters ends at or after its start, within the text.
pub proof fn lemma_name_end_bounds(s: Seq<char>, i: int)
    requires
        0 <= i <= s.len(),
    ensures
        i <= name_end(s, i) <= s.len(),
    decreases s.len() - i,
{
    if i < s.len() && is_name_char(s[i]) {
        lemma_name_end_bounds(s, i + 1);
    }
}

/// Whether a digit stands at `i`.
pub open spec fn is_digit_at(s: Seq<char>, i: int) -> bool {
    0 <= i < s.len() && is_digit(s[i])
}

/// Every lexeme holds at least one character and ends within the text: the
/// lexemes of a text cover all of it but its separators.
pub proof fn law_lexemes_advance(s: Seq<char>, i: int)
    requires
        0 <= i < s.len(),
    ensures
        i < lexeme_end(s, i) <= s.len(),
{
    if starts_number(s, i) {
        let d = digits_start(s, i);
        lemma_digits_end_bounds(s, d);
        let e = digits_end(s, d);
        if is_float_at(s, i) {
            lemma_digits_end_bounds(s, e + 1);
        }
    } else if is_letter(s[i]) {
        lemma_name_end_bounds(s, i + 1);
    }
}

/// The tokens of `s` from position `i` on: one for each lexeme, in order.
/// Separators between lexemes are skipped.
pub open spec fn tokens_from<A: FloatArith>(arith: &A, s: Seq<char>, i: int) -> Seq<Token>
    decreases s.len() - i,
{
    let j = spaces_end(s, i);
    if 0 <= i <= j < s.len() && j < lexeme_end(s, j) <= s.len() {
        seq![lexeme_token(arith, s, j)] + tokens_from(arith, s, lexeme_end(s, j))
    } else {
        Seq::empty()
    }
}

/// The characters of a text.
pub fn chars_of(source: &str) -> (r: Vec<char>)
    ensures
        r@ == source@,
{
    let mut out: Vec<char> = Vec::new();
    let mut it = source.chars();
    assert(it.remaining() == source@);
    loop
        invariant
            out@ + it.remaining() == source@,
            it.obeys_prophetic_iter_laws(),
            it.decrease() is Some,
        ensures
            out@ == source@,
        decreases it.decrease()->0,
    {
        match it.next() {
            Some(c) => {
                out.push(c);
                assert(out@ + it.remaining() =~= source@);
            },
            None => {
                assert(out@ =~= source@);
                break ;
            },
        }
    }
    out
}

/// Tests whether a character separates tokens.
pub fn separates(c: char) -> (b: bool)
    ensures
        b == is_space(c),
{
    c == ' ' || c == '\t' || c == '\n' || c == '\x0c'
}

/// Tests whether a character is a decimal digit.
pub fn digit(c: char) -> (b: bool)
    ensures
        b == is_digit(c),
{
    '0' <= c && c <= '9'
}

/// Tests whether a character is an ASCII letter.
pub fn letter(c: char) -> (b: bool)
    ensures
        b == is_letter(c),
{
    ('a' <= c && c <= 'z') || ('A' <= c && c <= 'Z')
}

/// Tests whether a character may follow the first letter of a name.
pub fn name_char(c: char) -> (b: bool)
    ensures
        b == is_name_char(c),
{
    letter(c) || digit(c) || c == '_' || c == '-'
}

/// Finds the end of the run of separators that starts at `i`.
pub fn skip_spaces(chars: &Vec<char>, i: usize) -> (j: usize)
    requires
        i <= chars.len(),
    ensures
        j == spaces_end(chars@, i as int),
        i <= j <= chars.len(),
{
    let mut j: usize = i;
    while j < chars.len() && separates(chars[j])
        invariant
            i <= j <= chars.len(),
            spaces_end(chars@, i as int) == spaces_end(chars@, j as int),
        decreases chars.len() - j,
    {
        j += 1;
    }
    j
}

/// Finds the end of the run of digits that starts at `i`.
pub fn skip_digits(chars: &Vec<char>, i: usize) -> (j: usize)
    requires
        i <= chars.len(),
    ensures
        j == digits_end(chars@, i as int),
        i <= j <= chars.len(),
        forall|k: int| i <= k < j ==> is_digit(#[trigger] chars@[k]),
        j < chars.len() ==> !is_digit(chars@[j as int]),
{
    let mut j: usize = i;
    while j < chars.len() && digit(chars[j])
        invariant
            i <= j <= chars.len(),
            digits_end(chars@, i as int) == digits_end(chars@, j as int),
            forall|k: int| i <= k < j ==> is_digit(#[trigger] chars@[k]),
        decreases chars.len() - j,
    {
        j += 1;
    }
    j
}

/// Finds the end of the run of name characters that starts at `i`.
pub fn skip_name(chars: &Vec<char>, i: usize) -> (j: usize)
    requires
        i <= chars.len(),
    ensures
        j == name_end(chars@, i as int),
        i <= j <= chars.len(),
{
    let mut j: usize = i;
    while j < chars.len() && name_char(chars[j])
        invariant
            i <= j <= chars.len(),
            name_end(chars@, i as int) == name_end(chars@, j as int),
        decreases chars.len() - j,
    {
        j += 1;
    }
    j
}

/// More digits never denote less.
pub proof fn lemma_digits_grow(s: Seq<char>, from: int, k: int, m: int)
    requires
        0 <= from <= k <= m <= s.len(),
        forall|j: int| from <= j < m ==> is_digit(#[trigger] s[j]),
    ensures
        0 <= digits_value(s, from, k) <= digits_value(s, from, m),
    decreases m - from,
{
    if from < m {
        if k < m {
            lemma_digits_grow(s, from, k, m - 1);
        } else {
            lemma_digits_grow(s, from, k - 1, m - 1);
        }
        assert(is_digit(s[m - 1]));
    }
}

/// Reads the digits `from..to` as an integer, negated if `negative`;
/// `None` if it does not fit in 64 bits.
pub fn read_integer(chars: &Vec<char>, negative: bool, from: usize, to: usize) -> (r: Option<i64>)
    requires
        from <= to <= chars.len(),
        forall|k: int| from <= k < to ==> is_digit(#[trigger] chars@[k]),
    ensures
        ({
            let v = digits_value(chars@, from as int, to as int);
            let signed = if negative {
                -v
            } else {
                v
            };
            match r {
                Some(n) => n == signed,
                None => signed < i64::MIN || signed > i64::MAX,
            }
        }),
{
    let limit: u64 = 0x8000_0000_0000_0000;
    let mut acc: u64 = 0;
    let mut i: usize = from;
    while i < to
        invariant
            limit == 0x8000_0000_0000_0000,
            from <= i <= to <= chars.len(),
            forall|k: int| from <= k < to ==> is_digit(#[trigger] chars@[k]),
            acc == digits_value(chars@, from as int, i as int),
            acc <= limit,
        decreases to - i,
    {
        let c = chars[i];
        assert(is_digit(chars@[i as int]));
        let d: u64 = (c as u64) - ('0' as u64);
        proof {
            lemma_digits_grow(chars@, from as int, i + 1, to as int);
        }
        if acc > 922_337_203_685_477_580 {
            return None;
        }
        acc = acc * 10 + d;
        if acc > limit {
            return None;
        }
        i += 1;
    }
    if negative {
        if acc == limit {
            Some(i64::MIN)
        } else {
            Some(-(acc as i64))
        }
    } else if acc == limit {
        None
    } else {
        Some(acc as i64)
    }
}

/// Reads the lexeme that starts at `i`: its token and its end.
pub fn scan<A: FloatArith>(source: &str, chars: &Vec<char>, i: usize, arith: &A) -> (r: (
    LexerToken,
    usize,
))
    requires
        chars@ == source@,
        i < chars.len(),
    ensures
        r.0@ == lexeme_token(arith, chars@, i as int),
        r.1 == lexeme_end(chars@, i as int),
        i < r.1 <= chars.len(),
{
    let c = chars[i];
    let negative = c == '-';
    if digit(c) || (negative && i + 1 < chars.len() && digit(chars[i + 1])) {
        let from: usize = if negative {
            i + 1
        } else {
            i
        };
        let e = skip_digits(chars, from);
        if e < chars.len() && chars[e] == '.' {
            let end = skip_digits(chars, e + 1);
            (LexerToken::Float(arith.from_decimal(source.substring_char(i, end))), end)
        } else {
            match read_integer(chars, negative, from, e) {
                Some(n) => (LexerToken::Integer(n), e),
                None => (LexerToken::Error, e),
            }
        }
    } else if letter(c) {
        let end = skip_name(chars, i + 1);
        let word = source.substring_char(i, end).to_owned();
        if word == "def".to_owned() || word == "lambda".to_owned() {
            (LexerToken::Keyword(word), end)
        } else if word == "if".to_owned() {
            (LexerToken::If, end)
        } else {
            (LexerToken::Name(word), end)
        }
    } else {
        let next: Option<char> = if i + 1 < chars.len() {
            Some(chars[i + 1])
        } else {
            None
        };
        match (c, next) {
            ('(', _) => (LexerToken::ParenthesesOpen, i + 1),
            (')', _) => (LexerToken::ParenthesesClose, i + 1),
            ('+', _) => (LexerToken::OpAdd, i + 1),
            ('-', _) => (LexerToken::OpSub, i + 1),
            ('*', _) => (LexerToken::OpMul, i + 1),
            ('/', _) => (LexerToken::OpDiv, i + 1),
            ('>', _) => (LexerToken::OpGreater, i + 1),
            ('<', _) => (LexerToken::OpSmaller, i + 1),
            ('=', Some('=')) => (LexerToken::OpEqual, i + 2),
            ('!', Some('=')) => (LexerToken::OpNotEqual, i + 2),
            ('#', Some('t')) => (LexerToken::Bool(true), i + 2),
            ('#', Some('f')) => (LexerToken::Bool(false), i + 2),
            _ => (LexerToken::Error, i + 1),
        }
    }
}

/// A lexer over one source text, which hands out its tokens one by one.
pub struct Lexer<'a> {
    source: &'a str,
    chars: Vec<char>,
    start: usize,
    pos: usize,
}

impl<'a> Lexer<'a> {
    #[verifier::type_invariant]
    spec fn well_formed(self) -> bool {
        &&& self.chars@ == self.source@
        &&& self.start <= self.pos <= self.chars.len()
    }

    /// The text that is lexed.
    pub closed spec fn text(&self) -> Seq<char> {
        self.source@
    }

    /// Where the next lexeme is looked for.
    pub closed spec fn position(&self) -> int {
        self.pos as int
    }

    /// Where the lexeme of the last token starts.
    pub closed spec fn token_start(&self) -> int {
        self.start as int
    }

    /// A lexer at the start of `source`.
    pub fn new(source: &'a str) -> (r: Self)
        ensures
            r.text() == source@,
            r.position() == 0,
            r.token_start() == 0,
    {
        Lexer { source, chars: chars_of(source), start: 0, pos: 0 }
    }

    /// The token of the next lexeme, or `None` at the end of the text.
    /// Separators before it are skipped.
    pub fn next_token<A: FloatArith>(&mut self, arith: &A) -> (r: Option<LexerToken>)
        ensures
            final(self).text() == old(self).text(),
            ({
                let s = old(self).text();
                let j = spaces_end(s, old(self).position());
                if j < s.len() {
                    &&& r matches Some(t) && t@ == lexeme_token(arith, s, j)
                    &&& final(self).token_start() == j
                    &&& final(self).position() == lexeme_end(s, j)
                } else {
                    &&& r is None
                    &&& final(self).token_start() == s.len()
                    &&& final(self).position() == s.len()
                }
            }),
    {
        proof {
            use_type_invariant(&*self);
        }
        let j = skip_spaces(&self.chars, self.pos);
        if j < self.chars.len() {
            let (token, end) = scan(self.source, &self.chars, j, arith);
            self.pos = end;
            self.start = j;
            Some(token)
        } else {
            self.pos = j;
            self.start = j;
            None
        }
    }

    /// The text of the last token.
    pub fn slice(&self) -> (r: &'a str)
        ensures
            r@ == self.text().subrange(self.token_start(), self.position()),
    {
        proof {
            use_type_invariant(self);
        }
        self.source.substring_char(self.start, self.pos)
    }
}

/// The tokens of a source text, in order. Input that is no token is kept as
/// `Error` tokens, for the caller to skip.
pub fn lexing<A: FloatArith>(source: &str, arith: &A) -> (r: Vec<LexerToken>)
    ensures
        tokens_view(r@) == tokens_from(arith, source@, 0),
{
    let chars = chars_of(source);
    let ghost s = chars@;
    let mut tokens: Vec<LexerToken> = Vec::new();
    let mut pos: usize = 0;
    assert(tokens_view(tokens@) + tokens_from(arith, s, 0) =~= tokens_from(arith, s, 0));
    loop
        invariant
            s == chars@,
            s == source@,
            pos <= chars.len(),
            tokens_from(arith, s, 0) == tokens_view(tokens@) + tokens_from(arith, s, pos as int),
        ensures
            tokens_from(arith, s, 0) == tokens_view(tokens@),
        decreases chars.len() - pos,
    {
        let j = skip_spaces(&chars, pos);
        if j >= chars.len() {
            assert(tokens_from(arith, s, pos as int) =~= Seq::<Token>::empty());
            assert(tokens_view(tokens@) + Seq::<Token>::empty() =~= tokens_view(tokens@));
            break ;
        }
        let (token, end) = scan(source, &chars, j, arith);
        let ghost before = tokens_view(tokens@);
        proof {
            assert(tokens_from(arith, s, pos as int) == seq![token@] + tokens_from(
                arith,
                s,
                end as int,
            ));
            assert(before + (seq![token@] + tokens_from(arith, s, end as int)) =~= before.push(
                token@,
            ) + tokens_from(arith, s, end as int));
        }
        tokens.push(token);
        assert(tokens_view(tokens@) =~= before.push(token@));
        pos = end;
    }
    tokens
}

} // verus!
