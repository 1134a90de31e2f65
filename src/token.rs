use vstd::prelude::*;

verus! {

/// One lexical unit of the source text.
///
/// A floating-point literal is kept as the text it was written with (an optional
/// sign, digits and exactly one `.`); turning it into a binary float is left to
/// the consumer of the token stream.
#[derive(Debug, Clone, PartialEq, Eq)]
pub enum Token {
    Eof,

    // operators
    Assign,
    Plus,
    Minus,
    Bang,
    Asterisk,
    Slash,
    REMAINDER,
    Lparen,
    Rparen,
    Lbrace,
    Rbrace,
    Lbracket,
    Rbracket,
    Comma,
    Semicolon,
    Colon,
    Dot,
    Spread,
    Lt,
    LtEq,
    LtStrictEq,
    Gt,
    GtEq,
    GtStrictEq,
    Eq,
    StrictEq,
    NotEq,
    NotStrictEq,
    And,
    BitAnd,
    Or,
    BitOr,
    BitXor,
    BitNot,
    BitShiftLeft,
    BitShiftRight,
    TemplateLiteral(String),

    Illegal(String),
    Ident(String),
    Int(isize),
    Float(String),
    String(String),

    // keywords
    Var,
    Let,
    Const,
    True,
    False,
    Null,
    Undefined,
    This,
    Function,
    Class,
    Super,
    New,
    Async,
    Await,
    If,
    Else,
    Return,
    Switch,
    Case,
    Default,
    Break,
    For,
    While,
    Continue,
    In,
    Of,
    Instanceof,
    Delete,
    Void,
    Typeof,
    Try,
    Catch,
    Throw,
    Finally,
    Interface,
    Type,
}

/// The mathematical value of a token: text payloads become character sequences,
/// an integer payload becomes an `int`, and a token without payload stands for
/// itself.
pub enum Lexeme {
    Fixed(Token),
    Template(Seq<char>),
    Illegal(Seq<char>),
    Ident(Seq<char>),
    Int(int),
    Float(Seq<char>),
    Str(Seq<char>),
}

impl View for Token {
    type V = Lexeme;

    open spec fn view(&self) -> Lexeme {
        match self {
            Token::TemplateLiteral(s) => Lexeme::Template(s@),
            Token::Illegal(s) => Lexeme::Illegal(s@),
            Token::Ident(s) => Lexeme::Ident(s@),
            Token::Int(n) => Lexeme::Int(*n as int),
            Token::Float(s) => Lexeme::Float(s@),
            Token::String(s) => Lexeme::Str(s@),
            _ => Lexeme::Fixed(*self),
        }
    }
}

/// The reserved word spelled by `w`, if any. Matching is exact: there are no
/// contextual keywords.
pub open spec fn keyword(w: Seq<char>) -> Option<Token> {
    if w == seq!['v', 'a', 'r'] {
        Some(Token::Var)
    } else if w == seq!['l', 'e', 't'] {
        Some(Token::Let)
    } else if w == seq!['c', 'o', 'n', 's', 't'] {
        Some(Token::Const)
    } else if w == seq!['t', 'r', 'u', 'e'] {
        Some(Token::True)
    } else if w == seq!['f', 'a', 'l', 's', 'e'] {
        Some(Token::False)
    } else if w == seq!['n', 'u', 'l', 'l'] {
        Some(Token::Null)
    } else if w == seq!['u', 'n', 'd', 'e', 'f', 'i', 'n', 'e', 'd'] {
        Some(Token::Undefined)
    } else if w == seq!['t', 'h', 'i', 's'] {
        Some(Token::This)
    } else if w == seq!['f', 'u', 'n', 'c', 't', 'i', 'o', 'n'] {
        Some(Token::Function)
    } else if w == seq!['c', 'l', 'a', 's', 's'] {
        Some(Token::Class)
    } else if w == seq!['s', 'u', 'p', 'e', 'r'] {
        Some(Token::Super)
    } else if w == seq!['n', 'e', 'w'] {
        Some(Token::New)
    } else if w == seq!['a', 's', 'y', 'n', 'c'] {
        Some(Token::Async)
    } else if w == seq!['a', 'w', 'a', 'i', 't'] {
        Some(Token::Await)
    } else if w == seq!['i', 'f'] {
        Some(Token::If)
    } else if w == seq!['e', 'l', 's', 'e'] {
        Some(Token::Else)
    } else if w == seq!['r', 'e', 't', 'u', 'r', 'n'] {
        Some(Token::Return)
    } else if w == seq!['s', 'w', 'i', 't', 'c', 'h'] {
        Some(Token::Switch)
    } else if w == seq!['c', 'a', 's', 'e'] {
        Some(Token::Case)
    } else if w == seq!['d', 'e', 'f', 'a', 'u', 'l', 't'] {
        Some(Token::Default)
    } else if w == seq!['b', 'r', 'e', 'a', 'k'] {
        Some(Token::Break)
    } else if w == seq!['f', 'o', 'r'] {
        Some(Token::For)
    } else if w == seq!['w', 'h', 'i', 'l', 'e'] {
        Some(Token::While)
    } else if w == seq!['c', 'o', 'n', 't', 'i', 'n', 'u', 'e'] {
        Some(Token::Continue)
    } else if w == seq!['i', 'n'] {
        Some(Token::In)
    } else if w == seq!['o', 'f'] {
        Some(Token::Of)
    } else if w == seq!['i', 'n', 's', 't', 'a', 'n', 'c', 'e', 'o', 'f'] {
        Some(Token::Instanceof)
    } else if w == seq!['d', 'e', 'l', 'e', 't', 'e'] {
        Some(Token::Delete)
    } else if w == seq!['v', 'o', 'i', 'd'] {
        Some(Token::Void)
    } else if w == seq!['t', 'y', 'p', 'e', 'o', 'f'] {
        Some(Token::Typeof)
    } else if w == seq!['t', 'r', 'y'] {
        Some(Token::Try)
    } else if w == seq!['c', 'a', 't', 'c', 'h'] {
        Some(Token::Catch)
    } else if w == seq!['t', 'h', 'r', 'o', 'w'] {
        Some(Token::Throw)
    } else if w == seq!['f', 'i', 'n', 'a', 'l', 'l', 'y'] {
        Some(Token::Finally)
    } else if w == seq!['i', 'n', 't', 'e', 'r', 'f', 'a', 'c', 'e'] {
        Some(Token::Interface)
    } else if w == seq!['t', 'y', 'p', 'e'] {
        Some(Token::Type)
    } else {
        None
    }
}

/// Whether `w` and `k` hold the same characters.
fn word_is(w: &Vec<char>, k: &[char]) -> (r: bool)
    ensures
        r == (w@ == k@),
{
    if w.len() != k.len() {
        return false;
    }
    let mut i: usize = 0;
    while i < w.len()
        invariant
            w.len() == k@.len(),
            i <= w.len(),
            forall|j: int| 0 <= j < i ==> w@[j] == k@[j],
        decreases w.len() - i,
    {
        if w[i] != k[i] {
            return false;
        }
        i = i + 1;
    }
    assert(w@ =~= k@);
    true
}

/// Looks `w` up in the reserved-word table.
pub fn lookup_keyword(w: &Vec<char>) -> (r: Option<Token>)
    ensures
        r == keyword(w@),
{
    if word_is(w, &['v', 'a', 'r']) {
        Some(Token::Var)
    } else if word_is(w, &['l', 'e', 't']) {
        Some(Token::Let)
    } else if word_is(w, &['c', 'o', 'n', 's', 't']) {
        Some(Token::Const)
    } else if word_is(w, &['t', 'r', 'u', 'e']) {
        Some(Token::True)
    } else if word_is(w, &['f', 'a', 'l', 's', 'e']) {
        Some(Token::False)
    } else if word_is(w, &['n', 'u', 'l', 'l']) {
        Some(Token::Null)
    } else if word_is(w, &['u', 'n', 'd', 'e', 'f', 'i', 'n', 'e', 'd']) {
        Some(Token::Undefined)
    } else if word_is(w, &['t', 'h', 'i', 's']) {
        Some(Token::This)
    } else if word_is(w, &['f', 'u', 'n', 'c', 't', 'i', 'o', 'n']) {
        Some(Token::Function)
    } else if word_is(w, &['c', 'l', 'a', 's', 's']) {
        Some(Token::Class)
    } else if word_is(w, &['s', 'u', 'p', 'e', 'r']) {
        Some(Token::Super)
    } else if word_is(w, &['n', 'e', 'w']) {
        Some(Token::New)
    } else if word_is(w, &['a', 's', 'y', 'n', 'c']) {
        Some(Token::Async)
    } else if word_is(w, &['a', 'w', 'a', 'i', 't']) {
        Some(Token::Await)
    } else if word_is(w, &['i', 'f']) {
        Some(Token::If)
    } else if word_is(w, &['e', 'l', 's', 'e']) {
        Some(Token::Else)
    } else if word_is(w, &['r', 'e', 't', 'u', 'r', 'n']) {
        Some(Token::Return)
    } else if word_is(w, &['s', 'w', 'i', 't', 'c', 'h']) {
        Some(Token::Switch)
    } else if word_is(w, &['c', 'a', 's', 'e']) {
        Some(Token::Case)
    } else if word_is(w, &['d', 'e', 'f', 'a', 'u', 'l', 't']) {
        Some(Token::Default)
    } else if word_is(w, &['b', 'r', 'e', 'a', 'k']) {
        Some(Token::Break)
    } else if word_is(w, &['f', 'o', 'r']) {
        Some(Token::For)
    } else if word_is(w, &['w', 'h', 'i', 'l', 'e']) {
        Some(Token::While)
    } else if word_is(w, &['c', 'o', 'n', 't', 'i', 'n', 'u', 'e']) {
        Some(Token::Continue)
    } else if word_is(w, &['i', 'n']) {
        Some(Token::In)
    } else if word_is(w, &['o', 'f']) {
        Some(Token::Of)
    } else if word_is(w, &['i', 'n', 's', 't', 'a', 'n', 'c', 'e', 'o', 'f']) {
        Some(Token::Instanceof)
    } else if word_is(w, &['d', 'e', 'l', 'e', 't', 'e']) {
        Some(Token::Delete)
    } else if word_is(w, &['v', 'o', 'i', 'd']) {
        Some(Token::Void)
    } else if word_is(w, &['t', 'y', 'p', 'e', 'o', 'f']) {
        Some(Token::Typeof)
    } else if word_is(w, &['t', 'r', 'y']) {
        Some(Token::Try)
    } else if word_is(w, &['c', 'a', 't', 'c', 'h']) {
        Some(Token::Catch)
    } else if word_is(w, &['t', 'h', 'r', 'o', 'w']) {
        Some(Token::Throw)
    } else if word_is(w, &['f', 'i', 'n', 'a', 'l', 'l', 'y']) {
        Some(Token::Finally)
    } else if word_is(w, &['i', 'n', 't', 'e', 'r', 'f', 'a', 'c', 'e']) {
        Some(Token::Interface)
    } else if word_is(w, &['t', 'y', 'p', 'e']) {
        Some(Token::Type)
    } else {
        None
    }
}

/// Relies on `FromIterator<char>` for `String`: the string holds the characters
/// in iteration order.
#[verifier::external_body]
pub(crate) fn string_of(cs: &Vec<char>) -> (r: String)
    ensures
        r@ == cs@,
{
    cs.iter().collect()
}

} // verus!
