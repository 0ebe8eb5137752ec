use bytes::Bytes;
use monkey::lexer::{ByteClass, Lexer};
use monkey::token::{Token, TokenType};

fn tokens_of(input: &str) -> Vec<(TokenType, Vec<u8>)> {
    let mut l = Lexer::new(input.to_string());
    let mut out = Vec::new();
    loop {
        let token = l.next_token();
        let done = token.typ == TokenType::Eof;
        out.push((token.typ, token.literal.to_vec()));
        if done {
            return out;
        }
    }
}

fn expect_tokens(input: &str, want: Vec<(TokenType, &str)>) {
    let got = tokens_of(input);
    let want: Vec<(TokenType, Vec<u8>)> = want
        .into_iter()
        .map(|(typ, literal)| (typ, literal.as_bytes().to_vec()))
        .collect();
    assert_eq!(got, want);
}

#[test]
fn test_next_token() {
    let input = r"let five = 5;
        let ten = 10;

        let add = fn(x, y) {
            x + y;
        };
        let result = add(five, ten);
        !-/*5;
        5 < 10 > 5;
        if (5 < 10) {
            return true;
        } else {
            return false;
        }

        10 == 10;
        10 != 9;
        "
    .to_string();

    let mut l = Lexer::new(input);
    for (i, expect) in vec![
        Token::new(TokenType::Let, Bytes::from(&b"let"[..])),
        Token::new(TokenType::Ident, Bytes::from(&b"five"[..])),
        Token::new(TokenType::Assign, Bytes::from(&b"="[..])),
        Token::new(TokenType::Int, Bytes::from(&b"5"[..])),
        Token::new(TokenType::Semicolon, Bytes::from(&b";"[..])),
        Token::new(TokenType::Let, Bytes::from(&b"let"[..])),
        Token::new(TokenType::Ident, Bytes::from(&b"ten"[..])),
        Token::new(TokenType::Assign, Bytes::from(&b"="[..])),
        Token::new(TokenType::Int, Bytes::from(&b"10"[..])),
        Token::new(TokenType::Semicolon, Bytes::from(&b";"[..])),
        Token::new(TokenType::Let, Bytes::from(&b"let"[..])),
        Token::new(TokenType::Ident, Bytes::from(&b"add"[..])),
        Token::new(TokenType::Assign, Bytes::from(&b"="[..])),
        Token::new(TokenType::Function, Bytes::from(&b"fn"[..])),
        Token::new(TokenType::Lparne, Bytes::from(&b"("[..])),
        Token::new(TokenType::Ident, Bytes::from(&b"x"[..])),
        Token::new(TokenType::Comma, Bytes::from(&b","[..])),
        Token::new(TokenType::Ident, Bytes::from(&b"y"[..])),
        Token::new(TokenType::Rparne, Bytes::from(&b")"[..])),
        Token::new(TokenType::Lbrace, Bytes::from(&b"{"[..])),
        Token::new(TokenType::Ident, Bytes::from(&b"x"[..])),
        Token::new(TokenType::Plus, Bytes::from(&b"+"[..])),
        Token::new(TokenType::Ident, Bytes::from(&b"y"[..])),
        Token::new(TokenType::Semicolon, Bytes::from(&b";"[..])),
        Token::new(TokenType::Rbrace, Bytes::from(&b"}"[..])),
        Token::new(TokenType::Semicolon, Bytes::from(&b";"[..])),
        Token::new(TokenType::Let, Bytes::from(&b"let"[..])),
        Token::new(TokenType::Ident, Bytes::from(&b"result"[..])),
        Token::new(TokenType::Assign, Bytes::from(&b"="[..])),
        Token::new(TokenType::Ident, Bytes::from(&b"add"[..])),
        Token::new(TokenType::Lparne, Bytes::from(&b"("[..])),
        Token::new(TokenType::Ident, Bytes::from(&b"five"[..])),
        Token::new(TokenType::Comma, Bytes::from(&b","[..])),
        Token::new(TokenType::Ident, Bytes::from(&b"ten"[..])),
        Token::new(TokenType::Rparne, Bytes::from(&b")"[..])),
        Token::new(TokenType::Semicolon, Bytes::from(&b";"[..])),
        Token::new(TokenType::Bang, Bytes::from(&b"!"[..])),
        Token::new(TokenType::Minus, Bytes::from(&b"-"[..])),
        Token::new(TokenType::Slash, Bytes::from(&b"/"[..])),
        Token::new(TokenType::Asterisk, Bytes::from(&b"*"[..])),
        Token::new(TokenType::Int, Bytes::from(&b"5"[..])),
        Token::new(TokenType::Semicolon, Bytes::from(&b";"[..])),
        Token::new(TokenType::Int, Bytes::from(&b"5"[..])),
        Token::new(TokenType::Lt, Bytes::from(&b"<"[..])),
        Token::new(TokenType::Int, Bytes::from(&b"10"[..])),
        Token::new(TokenType::Gt, Bytes::from(&b">"[..])),
        Token::new(TokenType::Int, Bytes::from(&b"5"[..])),
        Token::new(TokenType::Semicolon, Bytes::from(&b";"[..])),
        Token::new(TokenType::If, Bytes::from(&b"if"[..])),
        Token::new(TokenType::Lparne, Bytes::from(&b"("[..])),
        Token::new(TokenType::Int, Bytes::from(&b"5"[..])),
        Token::new(TokenType::Lt, Bytes::from(&b"<"[..])),
        Token::new(TokenType::Int, Bytes::from(&b"10"[..])),
        Token::new(TokenType::Rparne, Bytes::from(&b")"[..])),
        Token::new(TokenType::Lbrace, Bytes::from(&b"{"[..])),
        Token::new(TokenType::Retrun, Bytes::from(&b"return"[..])),
        Token::new(TokenType::True, Bytes::from(&b"true"[..])),
        Token::new(TokenType::Semicolon, Bytes::from(&b";"[..])),
        Token::new(TokenType::Rbrace, Bytes::from(&b"}"[..])),
        Token::new(TokenType::Else, Bytes::from(&b"else"[..])),
        Token::new(TokenType::Lbrace, Bytes::from(&b"{"[..])),
        Token::new(TokenType::Retrun, Bytes::from(&b"return"[..])),
        Token::new(TokenType::False, Bytes::from(&b"false"[..])),
        Token::new(TokenType::Semicolon, Bytes::from(&b";"[..])),
        Token::new(TokenType::Rbrace, Bytes::from(&b"}"[..])),
        Token::new(TokenType::Int, Bytes::from(&b"10"[..])),
        Token::new(TokenType::Eq, Bytes::from(&b"=="[..])),
        Token::new(TokenType::Int, Bytes::from(&b"10"[..])),
        Token::new(TokenType::Semicolon, Bytes::from(&b";"[..])),
        Token::new(TokenType::Int, Bytes::from(&b"10"[..])),
        Token::new(TokenType::NotEq, Bytes::from(&b"!="[..])),
        Token::new(TokenType::Int, Bytes::from(&b"9"[..])),
        Token::new(TokenType::Semicolon, Bytes::from(&b";"[..])),
        Token::new(TokenType::Eof, Bytes::new()),
    ]
    .iter()
    .enumerate()
    {
        let token = l.next_token();
        assert_eq!(
            token.typ, expect.typ,
            "[{}]got={:?}, want={:?}",
            i, token.typ, expect.typ
        );
        assert_eq!(
            &token.literal[..],
            &expect.literal[..],
            "[{}]got={:?}, want={:?}",
            i,
            std::str::from_utf8(&token.literal[..]).unwrap(),
            std::str::from_utf8(&expect.literal[..]).unwrap(),
        );
    }
    assert!(
        l.remaining().iter().all(|s: &u8| Lexer::is_whitespace(*s)),
        "{:?}",
        l.remaining().to_ascii_lowercase()
    )
}

#[test]
fn explain() {
    let input = r"ab sb ab".to_string();
    let mut input = Bytes::from(input);
    let mut by = input.split(|s| !Lexer::is_letter(*s));
    println!("{:?}", input.to_ascii_lowercase());
    let x = by.next().unwrap().len();
    let _ = input.split_to(x);
    println!("{:?}", x);
    println!("{:?}", input.to_ascii_lowercase());
}

#[test]
fn single_byte_symbols_then_eof() {
    expect_tokens(
        "=+(){},;",
        vec![
            (TokenType::Assign, "="),
            (TokenType::Plus, "+"),
            (TokenType::Lparne, "("),
            (TokenType::Rparne, ")"),
            (TokenType::Lbrace, "{"),
            (TokenType::Rbrace, "}"),
            (TokenType::Comma, ","),
            (TokenType::Semicolon, ";"),
            (TokenType::Eof, ""),
        ],
    );
}

#[test]
fn two_byte_operators_are_single_tokens() {
    expect_tokens(
        "10 == 10; 10 != 9;",
        vec![
            (TokenType::Int, "10"),
            (TokenType::Eq, "=="),
            (TokenType::Int, "10"),
            (TokenType::Semicolon, ";"),
            (TokenType::Int, "10"),
            (TokenType::NotEq, "!="),
            (TokenType::Int, "9"),
            (TokenType::Semicolon, ";"),
            (TokenType::Eof, ""),
        ],
    );
}

#[test]
fn remaining_operators() {
    expect_tokens(
        "- ! * / < >",
        vec![
            (TokenType::Minus, "-"),
            (TokenType::Bang, "!"),
            (TokenType::Asterisk, "*"),
            (TokenType::Slash, "/"),
            (TokenType::Lt, "<"),
            (TokenType::Gt, ">"),
            (TokenType::Eof, ""),
        ],
    );
}

#[test]
fn assign_and_bang_at_end_of_input() {
    expect_tokens("=", vec![(TokenType::Assign, "="), (TokenType::Eof, "")]);
    expect_tokens("!", vec![(TokenType::Bang, "!"), (TokenType::Eof, "")]);
    expect_tokens(
        "= =",
        vec![
            (TokenType::Assign, "="),
            (TokenType::Assign, "="),
            (TokenType::Eof, ""),
        ],
    );
    expect_tokens(
        "===",
        vec![
            (TokenType::Eq, "=="),
            (TokenType::Assign, "="),
            (TokenType::Eof, ""),
        ],
    );
    expect_tokens(
        "!==",
        vec![
            (TokenType::NotEq, "!="),
            (TokenType::Assign, "="),
            (TokenType::Eof, ""),
        ],
    );
}

#[test]
fn every_keyword_has_its_own_type() {
    expect_tokens(
        "fn let true false if else return",
        vec![
            (TokenType::Function, "fn"),
            (TokenType::Let, "let"),
            (TokenType::True, "true"),
            (TokenType::False, "false"),
            (TokenType::If, "if"),
            (TokenType::Else, "else"),
            (TokenType::Retrun, "return"),
            (TokenType::Eof, ""),
        ],
    );
}

#[test]
fn other_letter_runs_are_identifiers() {
    expect_tokens(
        "lets f Fn LET _ returns el_se iff",
        vec![
            (TokenType::Ident, "lets"),
            (TokenType::Ident, "f"),
            (TokenType::Ident, "Fn"),
            (TokenType::Ident, "LET"),
            (TokenType::Ident, "_"),
            (TokenType::Ident, "returns"),
            (TokenType::Ident, "el_se"),
            (TokenType::Ident, "iff"),
            (TokenType::Eof, ""),
        ],
    );
}

#[test]
fn keyword_table() {
    assert_eq!(Lexer::literal_to_token_type(b"fn"), TokenType::Function);
    assert_eq!(Lexer::literal_to_token_type(b"let"), TokenType::Let);
    assert_eq!(Lexer::literal_to_token_type(b"true"), TokenType::True);
    assert_eq!(Lexer::literal_to_token_type(b"false"), TokenType::False);
    assert_eq!(Lexer::literal_to_token_type(b"if"), TokenType::If);
    assert_eq!(Lexer::literal_to_token_type(b"else"), TokenType::Else);
    assert_eq!(Lexer::literal_to_token_type(b"return"), TokenType::Retrun);
    assert_eq!(Lexer::literal_to_token_type(b"retur"), TokenType::Ident);
    assert_eq!(Lexer::literal_to_token_type(b"returm"), TokenType::Ident);
    assert_eq!(Lexer::literal_to_token_type(b""), TokenType::Ident);
}

#[test]
fn letters_and_digits_split_into_separate_runs() {
    expect_tokens(
        "abc123 12ab let5",
        vec![
            (TokenType::Ident, "abc"),
            (TokenType::Int, "123"),
            (TokenType::Int, "12"),
            (TokenType::Ident, "ab"),
            (TokenType::Let, "let"),
            (TokenType::Int, "5"),
            (TokenType::Eof, ""),
        ],
    );
}

#[test]
fn integers_are_not_validated() {
    expect_tokens(
        "007 0",
        vec![
            (TokenType::Int, "007"),
            (TokenType::Int, "0"),
            (TokenType::Eof, ""),
        ],
    );
}

#[test]
fn empty_and_blank_input_is_eof() {
    expect_tokens("", vec![(TokenType::Eof, "")]);
    expect_tokens(" \t\r\n ", vec![(TokenType::Eof, "")]);
}

#[test]
fn eof_repeats() {
    let mut l = Lexer::new("x".to_string());
    assert_eq!(l.next_token().typ, TokenType::Ident);
    for _ in 0..3 {
        let token = l.next_token();
        assert_eq!(token.typ, TokenType::Eof);
        assert!(token.literal.is_empty());
        assert!(l.remaining().is_empty());
    }
}

#[test]
fn illegal_byte_is_dropped_and_consumed() {
    let mut l = Lexer::new("@x".to_string());
    let token = l.next_token();
    assert_eq!(token.typ, TokenType::Illegal);
    assert!(token.literal.is_empty());
    assert_eq!(l.remaining(), &b"x"[..]);
    let token = l.next_token();
    assert_eq!(token.typ, TokenType::Ident);
    assert_eq!(&token.literal[..], b"x");
    assert_eq!(l.next_token().typ, TokenType::Eof);
}

#[test]
fn every_byte_outside_ascii_is_illegal() {
    // U+00E9 is two bytes in UTF-8.
    expect_tokens(
        "\u{e9}",
        vec![
            (TokenType::Illegal, ""),
            (TokenType::Illegal, ""),
            (TokenType::Eof, ""),
        ],
    );
}

#[test]
fn next_token_consumes_exactly_its_bytes() {
    let mut l = Lexer::new("  let  x".to_string());
    assert_eq!(l.remaining(), &b"  let  x"[..]);
    let token = l.next_token();
    assert_eq!(token.typ, TokenType::Let);
    assert_eq!(l.remaining(), &b"  x"[..]);
    let token = l.next_token();
    assert_eq!(&token.literal[..], b"x");
    assert_eq!(l.remaining(), &b""[..]);
}

#[test]
fn consume_white_space_stops_at_first_other_byte() {
    let mut l = Lexer::new(" \t\n\r;  ".to_string());
    l.consume_white_space();
    assert_eq!(l.remaining(), &b";  "[..]);
    l.consume_white_space();
    assert_eq!(l.remaining(), &b";  "[..]);
}

#[test]
fn byte_classes() {
    for b in 0u8..=255 {
        let letter = b.is_ascii_alphabetic() || b == b'_';
        let digit = b.is_ascii_digit();
        let space = b == b' ' || b == b'\t' || b == b'\n' || b == b'\r';
        assert_eq!(Lexer::is_letter(b), letter);
        assert_eq!(Lexer::is_digit(b), digit);
        assert_eq!(Lexer::is_whitespace(b), space);
        assert_eq!(ByteClass::Letter.test(b), letter);
        assert_eq!(ByteClass::Digit.test(b), digit);
        assert_eq!(ByteClass::Whitespace.test(b), space);
    }
}

#[test]
fn display_names() {
    assert_eq!(TokenType::Assign.to_string(), "=");
    assert_eq!(TokenType::Let.to_string(), "Let");
    assert_eq!(TokenType::Eof.to_string(), "Eof");
    assert_eq!(TokenType::Retrun.to_string(), "Return");
    assert_eq!(TokenType::Function.to_string(), "Function");
    assert_eq!(TokenType::NotEq.to_string(), "!=");
    assert_eq!(TokenType::Eq.to_string(), "==");
    assert_eq!(TokenType::Illegal.to_string(), "Illegal");
    assert_eq!(TokenType::Ident.to_string(), "Ident");
    assert_eq!(TokenType::Int.to_string(), "Int");
    assert_eq!(TokenType::Lparne.to_string(), "(");
    assert_eq!(TokenType::Rbrace.to_string(), "}");
}

#[test]
fn token_text_is_the_literal() {
    let token = Token::new(TokenType::Ident, Bytes::from("foobar"));
    assert_eq!(token.text(), "foobar");
    let token = Token::new(TokenType::Eof, Bytes::new());
    assert_eq!(token.text(), "");
    let token = Token::new(TokenType::Ident, Bytes::from("\u{3b1}\u{3b2}"));
    assert_eq!(token.text(), "\u{3b1}\u{3b2}");
}

#[test]
fn try_text_rejects_bytes_that_are_not_utf8() {
    let token = Token::new(TokenType::Ident, Bytes::from(vec![0x66u8, 0xff, 0x6e]));
    assert_eq!(token.try_text(), None);
    let token = Token::new(TokenType::Ident, Bytes::from(vec![0xc3u8]));
    assert_eq!(token.try_text(), None);
    let token = Token::new(TokenType::Ident, Bytes::from(vec![0xc3u8, 0xa9]));
    assert_eq!(token.try_text(), Some("\u{e9}"));
    let token = Token::new(TokenType::Function, Bytes::from("fn"));
    assert_eq!(token.try_text(), Some("fn"));
}
