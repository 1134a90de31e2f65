use vstd::prelude::*;

use crate::token::{keyword, Lexeme, Token};

verus! {

/// The character at `i`, or the end-of-input sentinel `'\0'` outside the text.
pub open spec fn char_at(s: Seq<char>, i: int) -> char {
    if 0 <= i < s.len() {
        s[i]
    } else {
        '\0'
    }
}

/// Unicode White_Space, the set that `char::is_whitespace` accepts.
pub open spec fn is_white_space(c: char) -> bool {
    ('\u{9}' <= c <= '\u{d}') || c == ' ' || c == '\u{85}' || c == '\u{a0}' || c == '\u{1680}'
        || ('\u{2000}' <= c <= '\u{200a}') || c == '\u{2028}' || c == '\u{2029}' || c
        == '\u{202f}' || c == '\u{205f}' || c == '\u{3000}'
}

pub open spec fn is_digit(c: char) -> bool {
    '0' <= c <= '9'
}

pub open spec fn is_letter(c: char) -> bool {
    ('a' <= c <= 'z') || ('A' <= c <= 'Z')
}

pub open spec fn is_quote(c: char) -> bool {
    c == '"' || c == '\''
}

/// A character that may continue a numeric literal.
pub open spec fn is_number_char(c: char) -> bool {
    is_digit(c) || c == '.'
}

/// The first position at or after `p` that does not hold whitespace.
pub open spec fn skip_white_space(s: Seq<char>, p: int) -> int
    decreases s.len() - p,
{
    if 0 <= p < s.len() && is_white_space(s[p]) {
        skip_white_space(s, p + 1)
    } else {
        p
    }
}

/// The end of the run of ASCII letters that starts at `p`.
pub open spec fn letters_end(s: Seq<char>, p: int) -> int
    decreases s.len() - p,
{
    if 0 <= p < s.len() && is_letter(s[p]) {
        letters_end(s, p + 1)
    } else {
        p
    }
}

/// The end of the run of digits and dots that starts at `p`.
pub open spec fn number_end(s: Seq<char>, p: int) -> int
    decreases s.len() - p,
{
    if 0 <= p < s.len() && is_number_char(s[p]) {
        number_end(s, p + 1)
    } else {
        p
    }
}

/// The first quote character at or after `p`, or the end of the text.
pub open spec fn closing_quote(s: Seq<char>, p: int) -> int
    decreases s.len() - p,
{
    if 0 <= p < s.len() && !is_quote(s[p]) {
        closing_quote(s, p + 1)
    } else {
        p
    }
}

/// The number of `.` characters in `t`.
pub open spec fn count_dots(t: Seq<char>) -> nat
    decreases t.len(),
{
    if t.len() == 0 {
        0
    } else {
        count_dots(t.drop_last()) + if t.last() == '.' {
            1nat
        } else {
            0nat
        }
    }
}

/// The value of a decimal digit string.
pub open spec fn decimal_value(t: Seq<char>) -> int
    decreases t.len(),
{
    if t.len() == 0 {
        0
    } else {
        decimal_value(t.drop_last()) * 10 + (t.last() as int - '0' as int)
    }
}

/// The value of a digit string with an optional leading sign.
pub open spec fn signed_value(t: Seq<char>) -> int {
    if t.len() > 0 && t[0] == '-' {
        -decimal_value(t.drop_first())
    } else if t.len() > 0 && t[0] == '+' {
        decimal_value(t.drop_first())
    } else {
        decimal_value(t)
    }
}

pub open spec fn fits_isize(v: int) -> bool {
    isize::MIN <= v <= isize::MAX
}

/// The token for the text of a numeric literal: a float where it holds one dot,
/// an integer where it holds none and its value fits `isize`. Any other text is
/// malformed and becomes an illegal token carrying it.
pub open spec fn number_lexeme(t: Seq<char>) -> Lexeme {
    if count_dots(t) == 1 {
        Lexeme::Float(t)
    } else if count_dots(t) == 0 && fits_isize(signed_value(t)) {
        Lexeme::Int(signed_value(t))
    } else {
        Lexeme::Illegal(t)
    }
}

/// A numeric literal that starts at `p` with a digit or a sign.
pub open spec fn scan_number(s: Seq<char>, p: int) -> (Lexeme, int) {
    let e = number_end(s, p + 1);
    (number_lexeme(s.subrange(p, e)), e)
}

/// A string literal whose opening quote is at `p`. Either quote character closes
/// it. Without a closing quote the rest of the text, opening quote included,
/// becomes an illegal token.
pub open spec fn scan_string(s: Seq<char>, p: int) -> (Lexeme, int) {
    let q = closing_quote(s, p + 1);
    if q < s.len() {
        (Lexeme::Str(s.subrange(p + 1, q)), q + 1)
    } else {
        (Lexeme::Illegal(s.subrange(p, s.len() as int)), s.len() as int)
    }
}

/// An identifier or reserved word that starts with the letter at `p`.
pub open spec fn scan_ident(s: Seq<char>, p: int) -> (Lexeme, int) {
    let e = letters_end(s, p + 1);
    let w = s.subrange(p, e);
    match keyword(w) {
        Some(k) => (k@, e),
        None => (Lexeme::Ident(w), e),
    }
}

/// The token that starts at `p` (a position that holds no whitespace) and the
/// position just after it. At the end of the text the end-of-input token comes
/// back and the position stays. Operators take the longest form the text
/// offers. Two dots without a third are an illegal token carrying `.`; they are
/// not read back as a single dot. A backtick opens no literal body: it yields an
/// empty template-literal token and takes only itself. A `'\0'` inside the text
/// reads as end of input, and scanning goes on after it.
pub open spec fn scan(s: Seq<char>, p: int) -> (Lexeme, int) {
    let c = char_at(s, p);
    let c1 = char_at(s, p + 1);
    let c2 = char_at(s, p + 2);
    if p >= s.len() {
        (Lexeme::Fixed(Token::Eof), p)
    } else if c == '(' {
        (Lexeme::Fixed(Token::Lparen), p + 1)
    } else if c == ')' {
        (Lexeme::Fixed(Token::Rparen), p + 1)
    } else if c == '{' {
        (Lexeme::Fixed(Token::Lbrace), p + 1)
    } else if c == '}' {
        (Lexeme::Fixed(Token::Rbrace), p + 1)
    } else if c == '[' {
        (Lexeme::Fixed(Token::Lbracket), p + 1)
    } else if c == ']' {
        (Lexeme::Fixed(Token::Rbracket), p + 1)
    } else if c == ',' {
        (Lexeme::Fixed(Token::Comma), p + 1)
    } else if c == ';' {
        (Lexeme::Fixed(Token::Semicolon), p + 1)
    } else if c == ':' {
        (Lexeme::Fixed(Token::Colon), p + 1)
    } else if c == '*' {
        (Lexeme::Fixed(Token::Asterisk), p + 1)
    } else if c == '/' {
        (Lexeme::Fixed(Token::Slash), p + 1)
    } else if c == '%' {
        (Lexeme::Fixed(Token::REMAINDER), p + 1)
    } else if c == '~' {
        (Lexeme::Fixed(Token::BitNot), p + 1)
    } else if c == '^' {
        (Lexeme::Fixed(Token::BitXor), p + 1)
    } else if c == '+' {
        if is_digit(c1) {
            scan_number(s, p)
        } else {
            (Lexeme::Fixed(Token::Plus), p + 1)
        }
    } else if c == '-' {
        if is_digit(c1) {
            scan_number(s, p)
        } else {
            (Lexeme::Fixed(Token::Minus), p + 1)
        }
    } else if c == '=' {
        if c1 == '=' && c2 == '=' {
            (Lexeme::Fixed(Token::StrictEq), p + 3)
        } else if c1 == '=' {
            (Lexeme::Fixed(Token::Eq), p + 2)
        } else {
            (Lexeme::Fixed(Token::Assign), p + 1)
        }
    } else if c == '!' {
        if c1 == '=' && c2 == '=' {
            (Lexeme::Fixed(Token::NotStrictEq), p + 3)
        } else if c1 == '=' {
            (Lexeme::Fixed(Token::NotEq), p + 2)
        } else {
            (Lexeme::Fixed(Token::Bang), p + 1)
        }
    } else if c == '<' {
        if c1 == '=' && c2 == '=' {
            (Lexeme::Fixed(Token::LtStrictEq), p + 3)
        } else if c1 == '=' {
            (Lexeme::Fixed(Token::LtEq), p + 2)
        } else if c1 == '<' {
            (Lexeme::Fixed(Token::BitShiftLeft), p + 2)
        } else {
            (Lexeme::Fixed(Token::Lt), p + 1)
        }
    } else if c == '>' {
        if c1 == '=' && c2 == '=' {
            (Lexeme::Fixed(Token::GtStrictEq), p + 3)
        } else if c1 == '=' {
            (Lexeme::Fixed(Token::GtEq), p + 2)
        } else if c1 == '>' {
            (Lexeme::Fixed(Token::BitShiftRight), p + 2)
        } else {
            (Lexeme::Fixed(Token::Gt), p + 1)
        }
    } else if c == '|' {
        if c1 == '|' {
            (Lexeme::Fixed(Token::Or), p + 2)
        } else {
            (Lexeme::Fixed(Token::BitOr), p + 1)
        }
    } else if c == '&' {
        if c1 == '&' {
            (Lexeme::Fixed(Token::And), p + 2)
        } else {
            (Lexeme::Fixed(Token::BitAnd), p + 1)
        }
    } else if c == '.' {
        if c1 == '.' && c2 == '.' {
            (Lexeme::Fixed(Token::Spread), p + 3)
        } else if c1 == '.' {
            (Lexeme::Illegal(seq!['.']), p + 2)
        } else {
            (Lexeme::Fixed(Token::Dot), p + 1)
        }
    } else if c == '`' {
        (Lexeme::Template(Seq::empty()), p + 1)
    } else if is_digit(c) {
        scan_number(s, p)
    } else if is_quote(c) {
        scan_string(s, p)
    } else if is_letter(c) {
        scan_ident(s, p)
    } else if c == '\0' {
        (Lexeme::Fixed(Token::Eof), p + 1)
    } else {
        (Lexeme::Illegal(seq![c]), p + 1)
    }
}

/// The next token from position `p`, whitespace skipped, and the position after it.
pub open spec fn next_lexeme(s: Seq<char>, p: int) -> (Lexeme, int) {
    scan(s, skip_white_space(s, p))
}

} // verus!
