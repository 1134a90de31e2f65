use vstd::prelude::*;

use crate::model::{
    char_at, closing_quote, count_dots, decimal_value, is_digit, is_letter, is_number_char,
    is_quote, is_white_space, letters_end, next_lexeme, number_end, signed_value,
    skip_white_space,
};
use crate::token::{keyword, Lexeme, Token};

verus! {

proof fn lemma_skip_blank_tail(s: Seq<char>, i: int)
    requires
        0 <= i <= s.len(),
        forall|j: int| i <= j < s.len() ==> is_white_space(#[trigger] s[j]),
    ensures
        skip_white_space(s, i) == s.len(),
    decreases s.len() - i,
{
    if i < s.len() {
        lemma_skip_blank_tail(s, i + 1);
    }
}

proof fn lemma_number_end(s: Seq<char>, i: int, e: int)
    requires
        0 <= i <= e <= s.len(),
        forall|j: int| i <= j < e ==> is_number_char(#[trigger] s[j]),
        !is_number_char(char_at(s, e)),
    ensures
        number_end(s, i) == e,
    decreases e - i,
{
    if i < e {
        lemma_number_end(s, i + 1, e);
    }
}

proof fn lemma_letters_end(s: Seq<char>, i: int, e: int)
    requires
        0 <= i <= e <= s.len(),
        forall|j: int| i <= j < e ==> is_letter(#[trigger] s[j]),
        !is_letter(char_at(s, e)),
    ensures
        letters_end(s, i) == e,
    decreases e - i,
{
    if i < e {
        lemma_letters_end(s, i + 1, e);
    }
}

proof fn lemma_closing_quote(s: Seq<char>, i: int, q: int)
    requires
        0 <= i <= q < s.len(),
        forall|j: int| i <= j < q ==> !is_quote(#[trigger] s[j]),
        is_quote(s[q]),
    ensures
        closing_quote(s, i) == q,
    decreases q - i,
{
    if i < q {
        lemma_closing_quote(s, i + 1, q);
    }
}

proof fn lemma_digits_facts(t: Seq<char>)
    requires
        forall|j: int| 0 <= j < t.len() ==> is_digit(#[trigger] t[j]),
    ensures
        count_dots(t) == 0,
        decimal_value(t) >= 0,
    decreases t.len(),
{
    if t.len() > 0 {
        lemma_digits_facts(t.drop_last());
    }
}

proof fn lemma_keyword_is_letters(w: Seq<char>)
    requires
        keyword(w) is Some,
    ensures
        w.len() > 0,
        forall|j: int| 0 <= j < w.len() ==> is_letter(#[trigger] w[j]),
        keyword(w)->0@ == Lexeme::Fixed(keyword(w)->0),
{
}

/// Text made only of whitespace yields the end-of-input token at once.
pub proof fn lemma_blank_input_ends(s: Seq<char>)
    requires
        forall|j: int| 0 <= j < s.len() ==> is_white_space(#[trigger] s[j]),
    ensures
        next_lexeme(s, 0) == (Lexeme::Fixed(Token::Eof), s.len() as int),
{
    lemma_skip_blank_tail(s, 0);
}

/// Once only whitespace is left, the end-of-input token comes back, and it keeps
/// coming back with the cursor left at the end of the text.
pub proof fn lemma_end_is_repeatable(s: Seq<char>, p: int)
    requires
        0 <= p <= s.len(),
        forall|j: int| p <= j < s.len() ==> is_white_space(#[trigger] s[j]),
    ensures
        next_lexeme(s, p) == (Lexeme::Fixed(Token::Eof), s.len() as int),
        next_lexeme(s, s.len() as int) == (Lexeme::Fixed(Token::Eof), s.len() as int),
{
    lemma_skip_blank_tail(s, p);
    lemma_skip_blank_tail(s, s.len() as int);
}

/// A run of digits without a dot, ended by anything that cannot continue a
/// number, is an integer token holding its decimal value, where that value fits
/// `isize`.
pub proof fn lemma_digit_run_is_int(s: Seq<char>, p: int, e: int)
    requires
        0 <= p < e <= s.len(),
        forall|j: int| p <= j < e ==> is_digit(#[trigger] s[j]),
        !is_number_char(char_at(s, e)),
        decimal_value(s.subrange(p, e)) <= isize::MAX,
    ensures
        next_lexeme(s, p) == (Lexeme::Int(decimal_value(s.subrange(p, e))), e),
{
    let t = s.subrange(p, e);
    assert(forall|j: int| 0 <= j < t.len() ==> #[trigger] t[j] == s[p + j]);
    assert(forall|j: int| 0 <= j < t.len() ==> is_digit(#[trigger] t[j]));
    lemma_digits_facts(t);
    lemma_number_end(s, p + 1, e);
    assert(signed_value(t) == decimal_value(t));
}

/// A run of digits holding exactly one dot, starting with a digit and ended by
/// anything that cannot continue a number, is a float token holding that text.
pub proof fn lemma_dotted_run_is_float(s: Seq<char>, p: int, e: int)
    requires
        0 <= p < e <= s.len(),
        is_digit(s[p]),
        forall|j: int| p <= j < e ==> is_number_char(#[trigger] s[j]),
        count_dots(s.subrange(p, e)) == 1,
        !is_number_char(char_at(s, e)),
    ensures
        next_lexeme(s, p) == (Lexeme::Float(s.subrange(p, e)), e),
{
    lemma_number_end(s, p + 1, e);
}

/// Text between two quotes, with no quote inside, is a string token holding
/// exactly that text.
pub proof fn lemma_quoted_text(s: Seq<char>, p: int, q: int)
    requires
        0 <= p < q < s.len(),
        is_quote(s[p]),
        is_quote(s[q]),
        forall|j: int| p < j < q ==> !is_quote(#[trigger] s[j]),
    ensures
        next_lexeme(s, p) == (Lexeme::Str(s.subrange(p + 1, q)), q + 1),
{
    lemma_closing_quote(s, p + 1, q);
}

/// `<==` and `>==` are taken whole, before the shorter `<=` and `>=`.
pub proof fn lemma_relational_strict_eq_is_longest(s: Seq<char>, p: int)
    requires
        0 <= p,
        p + 3 <= s.len(),
        s[p] == '<' || s[p] == '>',
        s[p + 1] == '=',
        s[p + 2] == '=',
    ensures
        next_lexeme(s, p) == (Lexeme::Fixed(
            if s[p] == '<' {
                Token::LtStrictEq
            } else {
                Token::GtStrictEq
            },
        ), p + 3),
{
}

/// A reserved word is its keyword token wherever the letters around it end,
/// also when punctuation follows with no space between.
pub proof fn lemma_reserved_word_is_keyword(s: Seq<char>, p: int, e: int)
    requires
        0 <= p < e <= s.len(),
        keyword(s.subrange(p, e)) is Some,
        !is_letter(char_at(s, e)),
    ensures
        next_lexeme(s, p) == (Lexeme::Fixed(keyword(s.subrange(p, e))->0), e),
{
    let w = s.subrange(p, e);
    lemma_keyword_is_letters(w);
    assert(forall|j: int| p <= j < e ==> #[trigger] s[j] == w[j - p]);
    assert(forall|j: int| p <= j < e ==> is_letter(#[trigger] s[j]));
    lemma_letters_end(s, p + 1, e);
}

} // verus!
