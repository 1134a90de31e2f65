use jslex::{Lexer, Token};

enum Want {
    T(Token),
    F(f64),
}

fn check(input: &str, wants: Vec<Want>) {
    let mut l = Lexer::new(input.into());
    for (i, want) in wants.iter().enumerate() {
        let got = l.next().unwrap();
        match want {
            Want::T(t) => assert_eq!(got, *t, "[{}] in {:?}", i, input),
            Want::F(f) => match got {
                Token::Float(text) => assert_eq!(text.parse::<f64>().unwrap(), *f),
                other => panic!("[{}] got={:?}, want float {}", i, other, f),
            },
        }
    }
}

fn tokens(input: &str) -> Vec<Token> {
    let mut l = Lexer::new(input.into());
    let mut out = Vec::new();
    loop {
        let t = l.next_token();
        let end = t == Token::Eof;
        out.push(t);
        if end {
            return out;
        }
    }
}

fn ident(s: &str) -> Token {
    Token::Ident(s.into())
}

#[test]
fn read_valid_token() {
    check("", vec![Want::T(Token::Eof)]);
    check("abc", vec![Want::T(Token::Ident("abc".into()))]);
    check("101", vec![Want::T(Token::Int(101))]);
    check("10.1", vec![Want::F(10.1)]);
    check("\"hello world\"", vec![Want::T(Token::String("hello world".into()))]);
    check(
        "=+-!*/(){}[]!=,!==;==:===&&||&|.<...><=>=>==^~<<>>",
        vec![
            Want::T(Token::Assign),
            Want::T(Token::Plus),
            Want::T(Token::Minus),
            Want::T(Token::Bang),
            Want::T(Token::Asterisk),
            Want::T(Token::Slash),
            Want::T(Token::Lparen),
            Want::T(Token::Rparen),
            Want::T(Token::Lbrace),
            Want::T(Token::Rbrace),
            Want::T(Token::Lbracket),
            Want::T(Token::Rbracket),
            Want::T(Token::NotEq),
            Want::T(Token::Comma),
            Want::T(Token::NotStrictEq),
            Want::T(Token::Semicolon),
            Want::T(Token::Eq),
            Want::T(Token::Colon),
            Want::T(Token::StrictEq),
            Want::T(Token::And),
            Want::T(Token::Or),
            Want::T(Token::BitAnd),
            Want::T(Token::BitOr),
            Want::T(Token::Dot),
            Want::T(Token::Lt),
            Want::T(Token::Spread),
            Want::T(Token::Gt),
            Want::T(Token::LtEq),
            Want::T(Token::GtEq),
            Want::T(Token::GtStrictEq),
            Want::T(Token::BitXor),
            Want::T(Token::BitNot),
            Want::T(Token::BitShiftLeft),
            Want::T(Token::BitShiftRight),
        ],
    );
    check(
        "var foo = 1;let bar=1.5;const baz=\"hello\"
                true == false
                null === undefined
                this.foo
                function f() { return 1 }
                new class Hoge { super() }
                if (true) { 1 } else if { 2 } else { 3 }
                switch some {
                    case 'foo':
                      break;
                    default:
                      break;
                }
                for (let el in array) {  }
                obj instanceof class
                try {
                  something
                } catch (e) {
                  throw e
                } finally {
                  dosomething
                }
                type Foo {}
                interface I {}
                ",
        vec![
            Want::T(Token::Var),
            Want::T(Token::Ident("foo".into())),
            Want::T(Token::Assign),
            Want::T(Token::Int(1)),
            Want::T(Token::Semicolon),
            Want::T(Token::Let),
            Want::T(Token::Ident("bar".into())),
            Want::T(Token::Assign),
            Want::F(1.5),
            Want::T(Token::Semicolon),
            Want::T(Token::Const),
            Want::T(Token::Ident("baz".into())),
            Want::T(Token::Assign),
            Want::T(Token::String("hello".into())),
            Want::T(Token::True),
            Want::T(Token::Eq),
            Want::T(Token::False),
            Want::T(Token::Null),
            Want::T(Token::StrictEq),
            Want::T(Token::Undefined),
            Want::T(Token::This),
            Want::T(Token::Dot),
            Want::T(Token::Ident("foo".into())),
            Want::T(Token::Function),
            Want::T(Token::Ident("f".into())),
            Want::T(Token::Lparen),
            Want::T(Token::Rparen),
            Want::T(Token::Lbrace),
            Want::T(Token::Return),
            Want::T(Token::Int(1)),
            Want::T(Token::Rbrace),
            Want::T(Token::New),
            Want::T(Token::Class),
            Want::T(Token::Ident("Hoge".into())),
            Want::T(Token::Lbrace),
            Want::T(Token::Super),
            Want::T(Token::Lparen),
            Want::T(Token::Rparen),
            Want::T(Token::Rbrace),
            Want::T(Token::If),
            Want::T(Token::Lparen),
            Want::T(Token::True),
            Want::T(Token::Rparen),
            Want::T(Token::Lbrace),
            Want::T(Token::Int(1)),
            Want::T(Token::Rbrace),
            Want::T(Token::Else),
            Want::T(Token::If),
            Want::T(Token::Lbrace),
            Want::T(Token::Int(2)),
            Want::T(Token::Rbrace),
            Want::T(Token::Else),
            Want::T(Token::Lbrace),
            Want::T(Token::Int(3)),
            Want::T(Token::Rbrace),
            Want::T(Token::Switch),
            Want::T(Token::Ident("some".into())),
            Want::T(Token::Lbrace),
            Want::T(Token::Case),
            Want::T(Token::String("foo".into())),
            Want::T(Token::Colon),
            Want::T(Token::Break),
            Want::T(Token::Semicolon),
            Want::T(Token::Default),
            Want::T(Token::Colon),
            Want::T(Token::Break),
            Want::T(Token::Semicolon),
            Want::T(Token::Rbrace),
            Want::T(Token::For),
            Want::T(Token::Lparen),
            Want::T(Token::Let),
            Want::T(Token::Ident("el".into())),
            Want::T(Token::In),
            Want::T(Token::Ident("array".into())),
            Want::T(Token::Rparen),
            Want::T(Token::Lbrace),
            Want::T(Token::Rbrace),
            Want::T(Token::Ident("obj".into())),
            Want::T(Token::Instanceof),
            Want::T(Token::Class),
            Want::T(Token::Try),
            Want::T(Token::Lbrace),
            Want::T(Token::Ident("something".into())),
            Want::T(Token::Rbrace),
            Want::T(Token::Catch),
            Want::T(Token::Lparen),
            Want::T(Token::Ident("e".into())),
            Want::T(Token::Rparen),
            Want::T(Token::Lbrace),
            Want::T(Token::Throw),
            Want::T(Token::Ident("e".into())),
            Want::T(Token::Rbrace),
            Want::T(Token::Finally),
            Want::T(Token::Lbrace),
            Want::T(Token::Ident("dosomething".into())),
            Want::T(Token::Rbrace),
            Want::T(Token::Type),
            Want::T(Token::Ident("Foo".into())),
            Want::T(Token::Lbrace),
            Want::T(Token::Rbrace),
            Want::T(Token::Interface),
            Want::T(Token::Ident("I".into())),
            Want::T(Token::Lbrace),
            Want::T(Token::Rbrace),
        ],
    );
}

#[test]
fn blank_input_ends_at_once() {
    assert_eq!(tokens(" \t\r\n  "), vec![Token::Eof]);
    assert_eq!(tokens("\u{3000}\u{a0}\u{2028}"), vec![Token::Eof]);
    assert_eq!(tokens(""), vec![Token::Eof]);
}

#[test]
fn digit_run_is_int() {
    assert_eq!(tokens("101"), vec![Token::Int(101), Token::Eof]);
    assert_eq!(tokens("0"), vec![Token::Int(0), Token::Eof]);
    assert_eq!(tokens("007;"), vec![Token::Int(7), Token::Semicolon, Token::Eof]);
}

#[test]
fn dotted_run_is_float() {
    assert_eq!(tokens("10.1"), vec![Token::Float("10.1".into()), Token::Eof]);
    let t = tokens("10.1")[0].clone();
    match t {
        Token::Float(text) => assert_eq!(text.parse::<f64>().unwrap(), 10.1),
        other => panic!("got {:?}", other),
    }
    assert_eq!(tokens("3.)"), vec![Token::Float("3.".into()), Token::Rparen, Token::Eof]);
}

#[test]
fn quoted_text_is_string() {
    assert_eq!(tokens("\"hello world\""), vec![Token::String("hello world".into()), Token::Eof]);
    assert_eq!(tokens("'hello world'"), vec![Token::String("hello world".into()), Token::Eof]);
    assert_eq!(tokens("\"\""), vec![Token::String("".into()), Token::Eof]);
    assert_eq!(
        tokens("'a\"b'"),
        vec![Token::String("a".into()), ident("b"), Token::Illegal("'".into()), Token::Eof]
    );
}

#[test]
fn relational_strict_eq_is_longest() {
    assert_eq!(tokens("<=="), vec![Token::LtStrictEq, Token::Eof]);
    assert_eq!(tokens(">=="), vec![Token::GtStrictEq, Token::Eof]);
    assert_eq!(tokens("<= ="), vec![Token::LtEq, Token::Assign, Token::Eof]);
    assert_eq!(tokens("<<="), vec![Token::BitShiftLeft, Token::Assign, Token::Eof]);
}

#[test]
fn end_of_input_repeats() {
    let mut l = Lexer::new("x  ".into());
    assert_eq!(l.next_token(), ident("x"));
    for _ in 0..5 {
        assert_eq!(l.next_token(), Token::Eof);
        assert_eq!(l.next(), Some(Token::Eof));
    }
}

#[test]
fn reserved_word_before_punctuation() {
    assert_eq!(
        tokens("if(x){1}"),
        vec![
            Token::If,
            Token::Lparen,
            ident("x"),
            Token::Rparen,
            Token::Lbrace,
            Token::Int(1),
            Token::Rbrace,
            Token::Eof
        ]
    );
    assert_eq!(tokens("function("), vec![Token::Function, Token::Lparen, Token::Eof]);
    assert_eq!(tokens("class;"), vec![Token::Class, Token::Semicolon, Token::Eof]);
    assert_eq!(tokens("instanceof."), vec![Token::Instanceof, Token::Dot, Token::Eof]);
    assert_eq!(tokens("iff"), vec![ident("iff"), Token::Eof]);
    assert_eq!(tokens("async await of in"), vec![Token::Async, Token::Await, Token::Of, Token::In, Token::Eof]);
}

#[test]
fn var_declaration() {
    assert_eq!(
        tokens("var foo = 1;"),
        vec![Token::Var, ident("foo"), Token::Assign, Token::Int(1), Token::Semicolon, Token::Eof]
    );
}

#[test]
fn member_chain() {
    assert_eq!(
        tokens("a.b.c"),
        vec![ident("a"), Token::Dot, ident("b"), Token::Dot, ident("c"), Token::Eof]
    );
}

#[test]
fn spread_then_comma() {
    assert_eq!(tokens("...,"), vec![Token::Spread, Token::Comma, Token::Eof]);
}

#[test]
fn signed_numbers() {
    assert_eq!(tokens("-5"), vec![Token::Int(-5), Token::Eof]);
    assert_eq!(tokens("+5"), vec![Token::Int(5), Token::Eof]);
    assert_eq!(tokens("-2.5"), vec![Token::Float("-2.5".into()), Token::Eof]);
    assert_eq!(tokens("- 5"), vec![Token::Minus, Token::Int(5), Token::Eof]);
    assert_eq!(tokens("x-1"), vec![ident("x"), Token::Int(-1), Token::Eof]);
    assert_eq!(tokens("+a"), vec![Token::Plus, ident("a"), Token::Eof]);
}

#[test]
fn integer_limits() {
    let max = isize::MAX.to_string();
    let min = isize::MIN.to_string();
    assert_eq!(tokens(&max), vec![Token::Int(isize::MAX), Token::Eof]);
    assert_eq!(tokens(&min), vec![Token::Int(isize::MIN), Token::Eof]);
    let over = format!("{}0", max);
    assert_eq!(tokens(&over), vec![Token::Illegal(over.clone()), Token::Eof]);
    let under = format!("{}0", min);
    assert_eq!(tokens(&under), vec![Token::Illegal(under.clone()), Token::Eof]);
}

#[test]
fn malformed_number_is_illegal() {
    assert_eq!(tokens("1.2.3"), vec![Token::Illegal("1.2.3".into()), Token::Eof]);
    assert_eq!(tokens("1..;"), vec![Token::Illegal("1..".into()), Token::Semicolon, Token::Eof]);
}

#[test]
fn unterminated_string_is_illegal() {
    assert_eq!(tokens("\"abc"), vec![Token::Illegal("\"abc".into()), Token::Eof]);
    assert_eq!(tokens("'"), vec![Token::Illegal("'".into()), Token::Eof]);
}

#[test]
fn two_dots_are_illegal() {
    assert_eq!(tokens("..a"), vec![Token::Illegal(".".into()), ident("a"), Token::Eof]);
    assert_eq!(tokens(".."), vec![Token::Illegal(".".into()), Token::Eof]);
}

#[test]
fn unknown_characters_are_illegal() {
    assert_eq!(tokens("#"), vec![Token::Illegal("#".into()), Token::Eof]);
    assert_eq!(tokens("é?"), vec![Token::Illegal("é".into()), Token::Illegal("?".into()), Token::Eof]);
    assert_eq!(tokens("a_b"), vec![ident("a"), Token::Illegal("_".into()), ident("b"), Token::Eof]);
    assert_eq!(tokens("x1"), vec![ident("x"), Token::Int(1), Token::Eof]);
}

#[test]
fn template_literal_is_empty_placeholder() {
    assert_eq!(
        tokens("`ab`"),
        vec![Token::TemplateLiteral("".into()), ident("ab"), Token::TemplateLiteral("".into()), Token::Eof]
    );
}

#[test]
fn remaining_single_char_operators() {
    assert_eq!(
        tokens("% ~ ^ | & ! = < >"),
        vec![
            Token::REMAINDER,
            Token::BitNot,
            Token::BitXor,
            Token::BitOr,
            Token::BitAnd,
            Token::Bang,
            Token::Assign,
            Token::Lt,
            Token::Gt,
            Token::Eof
        ]
    );
}

#[test]
fn nul_character_reads_as_end() {
    let mut l = Lexer::new("a\0b".into());
    assert_eq!(l.next_token(), ident("a"));
    assert_eq!(l.next_token(), Token::Eof);
    assert_eq!(l.next_token(), ident("b"));
    assert_eq!(l.next_token(), Token::Eof);
}

#[test]
fn cursor_read_and_peek() {
    let mut l = Lexer::new("ab".into());
    assert_eq!(l.peek(), 'b');
    l.read();
    assert_eq!(l.peek(), '\0');
    l.read();
    l.read();
    assert_eq!(l.peek(), '\0');
    assert_eq!(l.next_token(), Token::Eof);
}
