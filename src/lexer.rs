use vstd::prelude::*;

use crate::model::{
    char_at, closing_quote, count_dots, decimal_value, fits_isize, is_digit, is_letter,
    is_number_char, is_quote, is_white_space, letters_end, next_lexeme, number_end, scan,
    scan_ident, scan_number, scan_string, skip_white_space,
};
use crate::token::{lookup_keyword, string_of, Token};

verus! {

/// Whether `c` is Unicode whitespace, as `char::is_whitespace` decides.
pub fn char_is_white_space(c: char) -> (r: bool)
    ensures
        r == is_white_space(c),
{
    ('\u{9}' <= c && c <= '\u{d}') || c == ' ' || c == '\u{85}' || c == '\u{a0}' || c == '\u{1680}'
        || ('\u{2000}' <= c && c <= '\u{200a}') || c == '\u{2028}' || c == '\u{2029}' || c
        == '\u{202f}' || c == '\u{205f}' || c == '\u{3000}'
}

fn char_is_digit(c: char) -> (r: bool)
    ensures
        r == is_digit(c),
{
    '0' <= c && c <= '9'
}

fn char_is_letter(c: char) -> (r: bool)
    ensures
        r == is_letter(c),
{
    ('a' <= c && c <= 'z') || ('A' <= c && c <= 'Z')
}

fn is_number_char_exec(c: char) -> (r: bool)
    ensures
        r == is_number_char(c),
{
    ('0' <= c && c <= '9') || c == '.'
}

fn char_is_quote(c: char) -> (r: bool)
    ensures
        r == is_quote(c),
{
    c == '"' || c == '\''
}

/// The one-character sequence `c`.
fn single(c: char) -> (v: Vec<char>)
    ensures
        v@ == seq![c],
{
    let mut v: Vec<char> = Vec::new();
    v.push(c);
    assert(v@ =~= seq![c]);
    v
}

/// The characters of `s`, in order.
fn to_chars(s: &String) -> (r: Vec<char>)
    ensures
        r@ == s@,
{
    let mut v: Vec<char> = Vec::new();
    for c in it: s.as_str().chars()
        invariant
            v@ == it.seq().take(it.index()),
    {
        v.push(c);
    }
    v
}

/// A scanner that owns its input text and a cursor into it, and hands out one
/// token per request.
///
/// Lexical surprises never stop the stream: an unknown character, a malformed
/// number (more than one dot, or an integer beyond `isize`) and a string without
/// its closing quote each become an illegal token carrying the offending text.
pub struct Lexer {
    input: Vec<char>,
    ch: char,
    position: usize,
}

impl Lexer {
    /// The input text.
    pub closed spec fn text(&self) -> Seq<char> {
        self.input@
    }

    /// The index of the character under the cursor.
    pub closed spec fn cursor(&self) -> int {
        self.position as int
    }

    /// The character under the cursor.
    pub closed spec fn current(&self) -> char {
        self.ch
    }

    /// The cursor lies within the text (or just past it) and the current
    /// character is the one it points at.
    pub open spec fn wf(&self) -> bool {
        &&& 0 <= self.cursor() <= self.text().len()
        &&& self.current() == char_at(self.text(), self.cursor())
    }

    /// Creates a lexer over `input`, with its first character loaded.
    pub fn new(input: String) -> (r: Lexer)
        ensures
            r.wf(),
            r.text() == input@,
            r.cursor() == 0,
    {
        let chars = to_chars(&input);
        let mut lexer = Lexer { input: chars, ch: '\0', position: 0 };
        lexer.ch = lexer.char_after(0);
        lexer
    }

    /// The character `k` places after the cursor, or `'\0'` past the end.
    fn char_after(&self, k: usize) -> (c: char)
        requires
            self.position <= self.input.len(),
        ensures
            c == char_at(self.input@, self.position + k),
    {
        if k < self.input.len() - self.position {
            self.input[self.position + k]
        } else {
            '\0'
        }
    }

    /// Moves the cursor one character on. At the end of the text it stays put.
    pub fn read(&mut self)
        requires
            old(self).wf(),
        ensures
            final(self).wf(),
            final(self).text() == old(self).text(),
            final(self).cursor() == if old(self).cursor() < old(self).text().len() {
                old(self).cursor() + 1
            } else {
                old(self).cursor()
            },
    {
        if self.position < self.input.len() {
            self.position = self.position + 1;
        }
        self.ch = self.char_after(0);
    }

    /// The character just after the cursor, or `'\0'` past the end.
    pub fn peek(&self) -> (c: char)
        requires
            self.wf(),
        ensures
            c == char_at(self.text(), self.cursor() + 1),
    {
        self.char_after(1)
    }

    /// Puts the cursor on position `e`.
    fn seek(&mut self, e: usize)
        requires
            old(self).wf(),
            e <= old(self).text().len(),
        ensures
            final(self).wf(),
            final(self).text() == old(self).text(),
            final(self).cursor() == e,
    {
        self.position = e;
        self.ch = self.char_after(0);
    }

    /// The characters from `from` up to `to`.
    fn chars_between(&self, from: usize, to: usize) -> (r: Vec<char>)
        requires
            from <= to <= self.input.len(),
        ensures
            r@ == self.input@.subrange(from as int, to as int),
    {
        let mut v: Vec<char> = Vec::new();
        let mut i: usize = from;
        while i < to
            invariant
                from <= i <= to <= self.input.len(),
                v@ == self.input@.subrange(from as int, i as int),
            decreases to - i,
        {
            v.push(self.input[i]);
            i = i + 1;
            assert(v@ =~= self.input@.subrange(from as int, i as int));
        }
        v
    }

    /// Scans the numeric literal that starts at `p` with a digit or a sign:
    /// the run of digits and dots after it, as `scan_number` describes.
    fn read_number(&self, p: usize) -> (r: (Token, usize))
        requires
            p < self.input.len(),
            is_digit(self.input@[p as int]) || self.input@[p as int] == '+' || self.input@[p as int]
                == '-',
        ensures
            (r.0@, r.1 as int) == scan_number(self.input@, p as int),
            p < r.1 <= self.input.len(),
    {
        let ghost s = self.input@;
        let neg = self.input[p] == '-';
        let start: usize = if self.input[p] == '-' || self.input[p] == '+' {
            p + 1
        } else {
            p
        };
        let mut i: usize = start;
        let mut dots: usize = 0;
        let mut value: isize = 0;
        let mut overflow = false;
        assert(s.subrange(p as int, p as int) =~= Seq::<char>::empty());
        assert(s.subrange(start as int, start as int) =~= Seq::<char>::empty());
        if start == p + 1 {
            assert(s.subrange(p as int, start as int).drop_last() =~= s.subrange(p as int, p as int));
            assert(count_dots(s.subrange(p as int, p as int)) == 0);
            assert(s.subrange(p as int, start as int).last() == s[p as int]);
            assert(count_dots(s.subrange(p as int, start as int)) == 0);
        }
        while i < self.input.len() && is_number_char_exec(self.input[i])
            invariant
                self.input@ == s,
                p < s.len(),
                start == p || (start == p + 1 && (s[p as int] == '+' || s[p as int] == '-')),
                neg == (s[p as int] == '-'),
                start <= i <= s.len(),
                number_end(s, i as int) == number_end(s, p + 1),
                dots as int == count_dots(s.subrange(p as int, i as int)),
                dots <= i - p,
                dots == 0 ==> decimal_value(s.subrange(start as int, i as int)) >= 0,
                dots == 0 && !overflow ==> value == (if neg {
                    -decimal_value(s.subrange(start as int, i as int))
                } else {
                    decimal_value(s.subrange(start as int, i as int))
                }),
                dots == 0 && overflow ==> !fits_isize(
                    if neg {
                        -decimal_value(s.subrange(start as int, i as int))
                    } else {
                        decimal_value(s.subrange(start as int, i as int))
                    },
                ),
            decreases s.len() - i,
        {
            let c = self.input[i];
            assert(s.subrange(p as int, i + 1).drop_last() =~= s.subrange(p as int, i as int));
            assert(s.subrange(start as int, i + 1).drop_last() =~= s.subrange(
                start as int,
                i as int,
            ));
            if c == '.' {
                dots = dots + 1;
            } else if dots == 0 && !overflow {
                let d = (c as u32 - '0' as u32) as isize;
                match value.checked_mul(10) {
                    Some(m) => {
                        let n = if neg {
                            m.checked_sub(d)
                        } else {
                            m.checked_add(d)
                        };
                        match n {
                            Some(x) => {
                                value = x;
                            },
                            None => {
                                overflow = true;
                            },
                        }
                    },
                    None => {
                        overflow = true;
                    },
                }
            }
            i = i + 1;
        }
        let text = self.chars_between(p, i);
        let ghost t = s.subrange(p as int, i as int);
        if start == p + 1 {
            assert(t.drop_first() =~= s.subrange(start as int, i as int));
        } else {
            assert(t =~= s.subrange(start as int, i as int));
        }
        if dots == 1 {
            (Token::Float(string_of(&text)), i)
        } else if dots == 0 && !overflow {
            (Token::Int(value), i)
        } else {
            (Token::Illegal(string_of(&text)), i)
        }
    }

    /// Scans the string literal whose opening quote is at `p`, as `scan_string`
    /// describes.
    fn read_string(&self, p: usize) -> (r: (Token, usize))
        requires
            p < self.input.len(),
        ensures
            (r.0@, r.1 as int) == scan_string(self.input@, p as int),
            p < r.1 <= self.input.len(),
    {
        let mut i: usize = p + 1;
        while i < self.input.len() && !char_is_quote(self.input[i])
            invariant
                p < i <= self.input.len(),
                closing_quote(self.input@, i as int) == closing_quote(self.input@, p + 1),
            decreases self.input.len() - i,
        {
            i = i + 1;
        }
        if i < self.input.len() {
            (Token::String(string_of(&self.chars_between(p + 1, i))), i + 1)
        } else {
            (Token::Illegal(string_of(&self.chars_between(p, i))), i)
        }
    }

    /// Scans the identifier or reserved word that starts with the letter at `p`,
    /// as `scan_ident` describes.
    fn read_ident(&self, p: usize) -> (r: (Token, usize))
        requires
            p < self.input.len(),
        ensures
            (r.0@, r.1 as int) == scan_ident(self.input@, p as int),
            p < r.1 <= self.input.len(),
    {
        let mut i: usize = p + 1;
        while i < self.input.len() && char_is_letter(self.input[i])
            invariant
                p < i <= self.input.len(),
                letters_end(self.input@, i as int) == letters_end(self.input@, p + 1),
            decreases self.input.len() - i,
        {
            i = i + 1;
        }
        let word = self.chars_between(p, i);
        match lookup_keyword(&word) {
            Some(k) => (k, i),
            None => (Token::Ident(string_of(&word)), i),
        }
    }

    /// Classifies the token that starts at `p`, the cursor, and says where it
    /// ends; each rule states how many characters it takes.
    fn scan_at(&self, p: usize) -> (r: (Token, usize))
        requires
            self.wf(),
            p == self.cursor(),
        ensures
            (r.0@, r.1 as int) == scan(self.text(), p as int),
            p <= r.1 <= self.text().len(),
    {
        if p >= self.input.len() {
            return (Token::Eof, p);
        }
        let c = self.ch;
        let c1 = self.char_after(1);
        let c2 = self.char_after(2);
        match c {
            '(' => (Token::Lparen, p + 1),
            ')' => (Token::Rparen, p + 1),
            '{' => (Token::Lbrace, p + 1),
            '}' => (Token::Rbrace, p + 1),
            '[' => (Token::Lbracket, p + 1),
            ']' => (Token::Rbracket, p + 1),
            ',' => (Token::Comma, p + 1),
            ';' => (Token::Semicolon, p + 1),
            ':' => (Token::Colon, p + 1),
            '*' => (Token::Asterisk, p + 1),
            '/' => (Token::Slash, p + 1),
            '%' => (Token::REMAINDER, p + 1),
            '~' => (Token::BitNot, p + 1),
            '^' => (Token::BitXor, p + 1),
            '+' => if char_is_digit(c1) {
                self.read_number(p)
            } else {
                (Token::Plus, p + 1)
            },
            '-' => if char_is_digit(c1) {
                self.read_number(p)
            } else {
                (Token::Minus, p + 1)
            },
            '=' => if c1 == '=' && c2 == '=' {
                (Token::StrictEq, p + 3)
            } else if c1 == '=' {
                (Token::Eq, p + 2)
            } else {
                (Token::Assign, p + 1)
            },
            '!' => if c1 == '=' && c2 == '=' {
                (Token::NotStrictEq, p + 3)
            } else if c1 == '=' {
                (Token::NotEq, p + 2)
            } else {
                (Token::Bang, p + 1)
            },
            '<' => if c1 == '=' && c2 == '=' {
                (Token::LtStrictEq, p + 3)
            } else if c1 == '=' {
                (Token::LtEq, p + 2)
            } else if c1 == '<' {
                (Token::BitShiftLeft, p + 2)
            } else {
                (Token::Lt, p + 1)
            },
            '>' => if c1 == '=' && c2 == '=' {
                (Token::GtStrictEq, p + 3)
            } else if c1 == '=' {
                (Token::GtEq, p + 2)
            } else if c1 == '>' {
                (Token::BitShiftRight, p + 2)
            } else {
                (Token::Gt, p + 1)
            },
            '|' => if c1 == '|' {
                (Token::Or, p + 2)
            } else {
                (Token::BitOr, p + 1)
            },
            '&' => if c1 == '&' {
                (Token::And, p + 2)
            } else {
                (Token::BitAnd, p + 1)
            },
            '.' => if c1 == '.' && c2 == '.' {
                (Token::Spread, p + 3)
            } else if c1 == '.' {
                (Token::Illegal(string_of(&single('.'))), p + 2)
            } else {
                (Token::Dot, p + 1)
            },
            '`' => (Token::TemplateLiteral(String::new()), p + 1),
            _ => if char_is_digit(c) {
                self.read_number(p)
            } else if char_is_quote(c) {
                self.read_string(p)
            } else if char_is_letter(c) {
                self.read_ident(p)
            } else if c == '\0' {
                (Token::Eof, p + 1)
            } else {
                (Token::Illegal(string_of(&single(c))), p + 1)
            },
        }
    }

    /// Skips whitespace, then takes the next token and moves the cursor just
    /// past it. At the end of the text the end-of-input token comes back and
    /// the lexer is left as it was.
    pub fn next_token(&mut self) -> (t: Token)
        requires
            old(self).wf(),
        ensures
            final(self).wf(),
            final(self).text() == old(self).text(),
            (t@, final(self).cursor()) == next_lexeme(old(self).text(), old(self).cursor()),
    {
        let ghost s = self.text();
        let ghost p0 = self.cursor();
        while char_is_white_space(self.ch)
            invariant
                self.wf(),
                self.text() == s,
                skip_white_space(s, self.cursor()) == skip_white_space(s, p0),
            decreases s.len() - self.cursor(),
        {
            self.read();
        }
        let p = self.position;
        let (tok, e) = self.scan_at(p);
        self.seek(e);
        tok
    }

    /// The next token, always present: past the end of the text it is the
    /// end-of-input token.
    pub fn next(&mut self) -> (r: Option<Token>)
        requires
            old(self).wf(),
        ensures
            final(self).wf(),
            final(self).text() == old(self).text(),
            r matches Some(t) && (t@, final(self).cursor()) == next_lexeme(
                old(self).text(),
                old(self).cursor(),
            ),
    {
        Some(self.next_token())
    }
}

} // verus!
