//! The lexer: turns a byte buffer into tokens, one per call.
//!
//! The grammar is stated once, as the spec function [`lex`] from the
//! remaining input to the next token and the input left after it.
//! [`Lexer::next_token`] is proved to compute exactly that.

use crate::buffer::{as_slice, contents, from_string, get_u8};
use crate::token::{is_ascii_bytes, lemma_ascii_is_text, Token, TokenType, TokenView};
use bytes::Bytes;
use vstd::prelude::*;
use vstd::string::*;
use vstd::utf8::encode_utf8;

verus! {

/// `[A-Za-z_]`
pub open spec fn letter(b: u8) -> bool {
    ('a' as u8 <= b <= 'z' as u8) || ('A' as u8 <= b <= 'Z' as u8) || b == '_' as u8
}

/// `[0-9]`
pub open spec fn digit(b: u8) -> bool {
    '0' as u8 <= b <= '9' as u8
}

/// Space, tab, line feed, carriage return.
pub open spec fn whitespace(b: u8) -> bool {
    b == ' ' as u8 || b == '\t' as u8 || b == '\n' as u8 || b == '\r' as u8
}

/// The three byte classes whose maximal runs the lexer consumes.
#[derive(Debug, PartialEq, Eq, Clone, Copy, Structural)]
pub enum ByteClass {
    Letter,
    Digit,
    Whitespace,
}

impl ByteClass {
    /// Whether `b` belongs to the class.
    pub open spec fn holds(self, b: u8) -> bool {
        match self {
            ByteClass::Letter => letter(b),
            ByteClass::Digit => digit(b),
            ByteClass::Whitespace => whitespace(b),
        }
    }

    /// Tests `b` for membership in the class.
    pub fn test(self, b: u8) -> (r: bool)
        ensures
            r == self.holds(b),
    {
        match self {
            ByteClass::Letter => Lexer::is_letter(b),
            ByteClass::Digit => Lexer::is_digit(b),
            ByteClass::Whitespace => Lexer::is_whitespace(b),
        }
    }
}

/// The length of the longest prefix of `s` whose bytes all belong to `class`.
pub open spec fn run_len(s: Seq<u8>, class: ByteClass) -> nat
    decreases s.len(),
{
    if s.len() > 0 && class.holds(s[0]) {
        1 + run_len(s.drop_first(), class)
    } else {
        0
    }
}

/// The bytes of a text made of ASCII characters only.
pub open spec fn ascii(chars: Seq<char>) -> Seq<u8> {
    Seq::new(chars.len(), |i: int| chars[i] as u8)
}

/// The keyword table: the category of a maximal letter run. The seven
/// reserved words map to their own category, every other run is an
/// identifier.
pub open spec fn keyword(literal: Seq<u8>) -> TokenType {
    if literal == ascii("fn"@) {
        TokenType::Function
    } else if literal == ascii("let"@) {
        TokenType::Let
    } else if literal == ascii("true"@) {
        TokenType::True
    } else if literal == ascii("false"@) {
        TokenType::False
    } else if literal == ascii("if"@) {
        TokenType::If
    } else if literal == ascii("else"@) {
        TokenType::Else
    } else if literal == ascii("return"@) {
        TokenType::Retrun
    } else {
        TokenType::Ident
    }
}

/// The category of a one-byte operator or delimiter, if `b` is one.
pub open spec fn symbol(b: u8) -> Option<TokenType> {
    if b == '=' as u8 {
        Some(TokenType::Assign)
    } else if b == ';' as u8 {
        Some(TokenType::Semicolon)
    } else if b == '(' as u8 {
        Some(TokenType::Lparne)
    } else if b == ')' as u8 {
        Some(TokenType::Rparne)
    } else if b == ',' as u8 {
        Some(TokenType::Comma)
    } else if b == '+' as u8 {
        Some(TokenType::Plus)
    } else if b == '-' as u8 {
        Some(TokenType::Minus)
    } else if b == '!' as u8 {
        Some(TokenType::Bang)
    } else if b == '/' as u8 {
        Some(TokenType::Slash)
    } else if b == '*' as u8 {
        Some(TokenType::Asterisk)
    } else if b == '<' as u8 {
        Some(TokenType::Lt)
    } else if b == '>' as u8 {
        Some(TokenType::Gt)
    } else if b == '{' as u8 {
        Some(TokenType::Lbrace)
    } else if b == '}' as u8 {
        Some(TokenType::Rbrace)
    } else {
        None
    }
}

/// One step of lexing: the token found and the input left after it.
pub struct Lexed {
    pub token: TokenView,
    pub rest: Seq<u8>,
}

/// The token whose literal is the first `n` bytes of `t`, leaving the rest.
pub open spec fn cut(typ: TokenType, t: Seq<u8>, n: int) -> Lexed {
    Lexed { token: TokenView { typ, literal: t.take(n) }, rest: t.skip(n) }
}

/// The token grammar. Leading whitespace is dropped; then
/// - exhausted input gives `Eof` with an empty literal;
/// - `==` and `!=` are single two-byte tokens;
/// - a letter starts a maximal letter run, classified by [`keyword`];
/// - a digit starts a maximal digit run, an `Int`;
/// - a one-byte operator or delimiter is its own token;
/// - any other byte is consumed and gives `Illegal` with an empty literal.
pub open spec fn lex(s: Seq<u8>) -> Lexed {
    let t = s.skip(run_len(s, ByteClass::Whitespace) as int);
    if t.len() == 0 {
        Lexed { token: TokenView { typ: TokenType::Eof, literal: Seq::empty() }, rest: t }
    } else if t[0] == '=' as u8 && t.len() > 1 && t[1] == '=' as u8 {
        cut(TokenType::Eq, t, 2)
    } else if t[0] == '!' as u8 && t.len() > 1 && t[1] == '=' as u8 {
        cut(TokenType::NotEq, t, 2)
    } else if letter(t[0]) {
        let n = run_len(t, ByteClass::Letter) as int;
        cut(keyword(t.take(n)), t, n)
    } else if digit(t[0]) {
        cut(TokenType::Int, t, run_len(t, ByteClass::Digit) as int)
    } else {
        match symbol(t[0]) {
            Some(typ) => cut(typ, t, 1),
            None => Lexed {
                token: TokenView { typ: TokenType::Illegal, literal: Seq::empty() },
                rest: t.skip(1),
            },
        }
    }
}

/// A run whose first `i` bytes are known to belong to the class continues
/// with the run of what follows them.
proof fn lemma_run_len_prefix(s: Seq<u8>, class: ByteClass, i: int)
    requires
        0 <= i <= s.len(),
        forall|j: int| 0 <= j < i ==> class.holds(s[j]),
    ensures
        run_len(s, class) == i + run_len(s.skip(i), class),
    decreases i,
{
    if i == 0 {
        assert(s.skip(0) =~= s);
    } else {
        let tail = s.drop_first();
        lemma_run_len_prefix(tail, class, i - 1);
        assert(tail.skip(i - 1) =~= s.skip(i));
    }
}

/// The run is a prefix, every byte in it belongs to the class, and the byte
/// after it, if there is one, does not: the run is maximal.
pub proof fn lemma_run_len_maximal(s: Seq<u8>, class: ByteClass)
    ensures
        run_len(s, class) <= s.len(),
        forall|j: int| 0 <= j < run_len(s, class) ==> class.holds(#[trigger] s[j]),
        run_len(s, class) < s.len() ==> !class.holds(s[run_len(s, class) as int]),
    decreases s.len(),
{
    if s.len() > 0 && class.holds(s[0]) {
        let tail = s.drop_first();
        lemma_run_len_maximal(tail, class);
        assert forall|j: int| 0 <= j < run_len(s, class) implies class.holds(
            #[trigger] s[j],
        ) by {
            if j > 0 {
                assert(s[j] == tail[j - 1]);
            }
        }
    }
}

/// Conversely, a prefix of class bytes that ends at the end of the input or
/// before a byte outside the class is the run.
pub proof fn lemma_run_len_is(s: Seq<u8>, class: ByteClass, n: int)
    requires
        0 <= n <= s.len(),
        forall|j: int| 0 <= j < n ==> class.holds(s[j]),
        n < s.len() ==> !class.holds(s[n]),
    ensures
        run_len(s, class) == n,
{
    lemma_run_len_prefix(s, class, n);
}

/// Lexing never lengthens the input, and every token but `Eof` consumes at
/// least one byte. After `Eof` nothing is left.
pub proof fn lemma_lex_consumes(s: Seq<u8>)
    ensures
        lex(s).rest.len() <= s.len(),
        lex(s).token.typ != TokenType::Eof ==> lex(s).rest.len() < s.len(),
        lex(s).token.typ == TokenType::Eof ==> lex(s).rest.len() == 0,
{
    lemma_run_len_maximal(s, ByteClass::Whitespace);
    let t = s.skip(run_len(s, ByteClass::Whitespace) as int);
    if t.len() > 0 {
        lemma_run_len_maximal(t, ByteClass::Letter);
        lemma_run_len_maximal(t, ByteClass::Digit);
    }
}

/// The tokens of `s` in order, up to and including the first `Eof`.
pub open spec fn tokens(s: Seq<u8>) -> Seq<TokenView>
    decreases s.len(),
{
    if lex(s).token.typ == TokenType::Eof {
        seq![lex(s).token]
    } else {
        proof {
            lemma_lex_consumes(s);
        }
        seq![lex(s).token] + tokens(lex(s).rest)
    }
}

/// The token sequence of any input ends with its only `Eof`. Every token
/// before it consumes at least one byte, so there are at most as many of
/// them as the input has bytes.
pub proof fn lemma_tokens_end_with_eof(s: Seq<u8>)
    ensures
        1 <= tokens(s).len() <= s.len() + 1,
        tokens(s).last().typ == TokenType::Eof,
        forall|i: int| 0 <= i < tokens(s).len() - 1 ==> (#[trigger] tokens(s)[i]).typ != TokenType::Eof,
    decreases s.len(),
{
    if lex(s).token.typ != TokenType::Eof {
        lemma_lex_consumes(s);
        lemma_tokens_end_with_eof(lex(s).rest);
    }
}

/// Once the input is exhausted, lexing what is left gives `Eof` again and
/// leaves the same input: `Eof` repeats for as long as the caller asks.
pub proof fn lemma_eof_repeats(s: Seq<u8>)
    requires
        lex(s).token.typ == TokenType::Eof,
    ensures
        lex(lex(s).rest) == lex(s),
{
    let r = lex(s).rest;
    assert(r.skip(run_len(r, ByteClass::Whitespace) as int) =~= r);
}

/// A token's literal is the exact contiguous range of the input behind it:
/// unless the token is `Illegal`, the input is the skipped whitespace, then
/// the literal, then what is left.
pub proof fn lemma_literal_is_source_range(s: Seq<u8>)
    requires
        lex(s).token.typ != TokenType::Illegal,
    ensures
        s == s.take(run_len(s, ByteClass::Whitespace) as int) + lex(s).token.literal + lex(
            s,
        ).rest,
{
    lemma_run_len_maximal(s, ByteClass::Whitespace);
    let w = run_len(s, ByteClass::Whitespace) as int;
    let t = s.skip(w);
    if t.len() > 0 {
        lemma_run_len_maximal(t, ByteClass::Letter);
        lemma_run_len_maximal(t, ByteClass::Digit);
    }
}

/// Whatever the input, the literal of the token found is made of ASCII bytes
/// only, and so is text.
pub proof fn lemma_lex_literal_is_text(s: Seq<u8>)
    ensures
        is_ascii_bytes(lex(s).token.literal),
        lex(s).token.is_text(),
{
    let t = s.skip(run_len(s, ByteClass::Whitespace) as int);
    if t.len() > 0 {
        lemma_run_len_maximal(t, ByteClass::Letter);
        lemma_run_len_maximal(t, ByteClass::Digit);
    }
    lemma_ascii_is_text(lex(s).token.literal);
}

/// A maximal letter run lexes as one token whose literal is the whole run:
/// the keyword's category if the run is one of the seven reserved words, an
/// identifier otherwise. Whitespace before the run is ignored and the input
/// after the run is left untouched.
pub proof fn lemma_word_token(space: Seq<u8>, word: Seq<u8>, tail: Seq<u8>)
    requires
        forall|i: int| 0 <= i < space.len() ==> whitespace(space[i]),
        word.len() > 0,
        forall|i: int| 0 <= i < word.len() ==> letter(word[i]),
        tail.len() > 0 ==> !letter(tail[0]),
    ensures
        lex(space + word + tail) == (Lexed {
            token: TokenView { typ: keyword(word), literal: word },
            rest: tail,
        }),
        word == ascii("fn"@) ==> keyword(word) == TokenType::Function,
        word == ascii("let"@) ==> keyword(word) == TokenType::Let,
        word == ascii("true"@) ==> keyword(word) == TokenType::True,
        word == ascii("false"@) ==> keyword(word) == TokenType::False,
        word == ascii("if"@) ==> keyword(word) == TokenType::If,
        word == ascii("else"@) ==> keyword(word) == TokenType::Else,
        word == ascii("return"@) ==> keyword(word) == TokenType::Retrun,
        word != ascii("fn"@) && word != ascii("let"@) && word != ascii("true"@) && word != ascii(
            "false"@,
        ) && word != ascii("if"@) && word != ascii("else"@) && word != ascii("return"@)
            ==> keyword(word) == TokenType::Ident,
{
    reveal_strlit("fn");
    reveal_strlit("let");
    reveal_strlit("true");
    reveal_strlit("false");
    reveal_strlit("if");
    reveal_strlit("else");
    reveal_strlit("return");
    let s = space + word + tail;
    let w = space.len() as int;
    lemma_run_len_is(s, ByteClass::Whitespace, w);
    let t = s.skip(w);
    let n = word.len() as int;
    lemma_run_len_is(t, ByteClass::Letter, n);
    assert(t.take(n) =~= word);
    assert(t.skip(n) =~= tail);
}

/// A lexer over a byte buffer. Its view is the input not yet consumed.
pub struct Lexer {
    data: Bytes,
}

impl View for Lexer {
    type V = Seq<u8>;

    closed spec fn view(&self) -> Seq<u8> {
        contents(self.data)
    }
}

impl Lexer {
    /// A lexer positioned at the start of `input`. A lexer cannot be
    /// rewound: to scan again, make a new one.
    pub fn new(input: String) -> (l: Self)
        ensures
            l@ == encode_utf8(input@),
    {
        let data = from_string(input);
        Self { data }
    }

    /// The input not yet consumed.
    pub fn remaining(&self) -> (bytes: &[u8])
        ensures
            bytes@ == self@,
    {
        as_slice(&self.data)
    }

    /// Produces the next token and consumes exactly the bytes that belong to
    /// it, together with the whitespace before it. At the end of the input
    /// every call returns `Eof`.
    pub fn next_token(&mut self) -> (tok: Token)
        ensures
            tok@ == lex(old(self)@).token,
            final(self)@ == lex(old(self)@).rest,
            tok@.is_text(),
    {
        proof {
            lemma_lex_literal_is_text(self@);
        }
        self.consume_white_space();
        if self.data.is_empty() {
            return Token::new(TokenType::Eof, Bytes::new());
        }
        let input = as_slice(&self.data);
        let first = input[0];
        let eq_follows = input.len() > 1 && input[1] == '=' as u8;
        if first == '=' as u8 && eq_follows {
            return Token::new(TokenType::Eq, self.data.split_to(2));
        }
        if first == '!' as u8 && eq_follows {
            return Token::new(TokenType::NotEq, self.data.split_to(2));
        }
        if Lexer::is_letter(first) {
            let n = Lexer::run(input, ByteClass::Letter);
            let literal = self.data.split_to(n);
            let token_type = Lexer::literal_to_token_type(as_slice(&literal));
            return Token::new(token_type, literal);
        }
        if Lexer::is_digit(first) {
            let n = Lexer::run(input, ByteClass::Digit);
            return Token::new(TokenType::Int, self.data.split_to(n));
        }
        match Lexer::symbol_type(first) {
            Some(typ) => Token::new(typ, self.data.split_to(1)),
            None => {
                let _ = get_u8(&mut self.data);
                Token::new(TokenType::Illegal, Bytes::new())
            },
        }
    }

    /// Whether `s` can stand in an identifier or keyword.
    pub fn is_letter(s: u8) -> (r: bool)
        ensures
            r == letter(s),
    {
        ('a' as u8 <= s && s <= 'z' as u8) || ('A' as u8 <= s && s <= 'Z' as u8) || s == '_' as u8
    }

    /// Whether `s` can stand in an integer literal.
    pub fn is_digit(s: u8) -> (r: bool)
        ensures
            r == digit(s),
    {
        '0' as u8 <= s && s <= '9' as u8
    }

    /// Whether `s` separates tokens without being one.
    pub fn is_whitespace(s: u8) -> (r: bool)
        ensures
            r == whitespace(s),
    {
        s == ' ' as u8 || s == '\t' as u8 || s == '\n' as u8 || s == '\r' as u8
    }

    /// Looks a maximal letter run up in the keyword table.
    pub fn literal_to_token_type(literal: &[u8]) -> (typ: TokenType)
        ensures
            typ == keyword(literal@),
    {
        proof {
            reveal_strlit("fn");
            reveal_strlit("let");
            reveal_strlit("true");
            reveal_strlit("false");
            reveal_strlit("if");
            reveal_strlit("else");
            reveal_strlit("return");
        }
        if Lexer::spells(literal, "fn") {
            TokenType::Function
        } else if Lexer::spells(literal, "let") {
            TokenType::Let
        } else if Lexer::spells(literal, "true") {
            TokenType::True
        } else if Lexer::spells(literal, "false") {
            TokenType::False
        } else if Lexer::spells(literal, "if") {
            TokenType::If
        } else if Lexer::spells(literal, "else") {
            TokenType::Else
        } else if Lexer::spells(literal, "return") {
            TokenType::Retrun
        } else {
            TokenType::Ident
        }
    }

    /// Whether `literal` is, byte for byte, the ASCII text `word`.
    fn spells(literal: &[u8], word: &str) -> (r: bool)
        requires
            is_ascii(word),
        ensures
            r == (literal@ == ascii(word@)),
    {
        broadcast use is_ascii_spec_bytes;

        let bytes = word.as_bytes();
        if literal.len() != bytes.len() {
            return false;
        }
        let mut i: usize = 0;
        while i < literal.len()
            invariant
                literal.len() == bytes.len(),
                i <= literal.len(),
                bytes@ == ascii(word@),
                forall|j: int| 0 <= j < i ==> literal@[j] == bytes@[j],
            decreases literal.len() - i,
        {
            if literal[i] != bytes[i] {
                return false;
            }
            i += 1;
        }
        assert(literal@ =~= bytes@);
        true
    }

    /// The category of a one-byte operator or delimiter.
    fn symbol_type(b: u8) -> (typ: Option<TokenType>)
        ensures
            typ == symbol(b),
    {
        if b == '=' as u8 {
            Some(TokenType::Assign)
        } else if b == ';' as u8 {
            Some(TokenType::Semicolon)
        } else if b == '(' as u8 {
            Some(TokenType::Lparne)
        } else if b == ')' as u8 {
            Some(TokenType::Rparne)
        } else if b == ',' as u8 {
            Some(TokenType::Comma)
        } else if b == '+' as u8 {
            Some(TokenType::Plus)
        } else if b == '-' as u8 {
            Some(TokenType::Minus)
        } else if b == '!' as u8 {
            Some(TokenType::Bang)
        } else if b == '/' as u8 {
            Some(TokenType::Slash)
        } else if b == '*' as u8 {
            Some(TokenType::Asterisk)
        } else if b == '<' as u8 {
            Some(TokenType::Lt)
        } else if b == '>' as u8 {
            Some(TokenType::Gt)
        } else if b == '{' as u8 {
            Some(TokenType::Lbrace)
        } else if b == '}' as u8 {
            Some(TokenType::Rbrace)
        } else {
            None
        }
    }

    /// The length of the maximal run of `class` bytes at the start of
    /// `input`.
    fn run(input: &[u8], class: ByteClass) -> (n: usize)
        ensures
            n == run_len(input@, class),
            n <= input@.len(),
    {
        let mut i: usize = 0;
        while i < input.len() && class.test(input[i])
            invariant
                i <= input.len(),
                forall|j: int| 0 <= j < i ==> class.holds(input@[j]),
            decreases input.len() - i,
        {
            i += 1;
        }
        proof {
            lemma_run_len_is(input@, class, i as int);
        }
        i
    }

    /// Drops the maximal run of whitespace at the front of the input.
    pub fn consume_white_space(&mut self)
        ensures
            final(self)@ == old(self)@.skip(run_len(old(self)@, ByteClass::Whitespace) as int),
    {
        let n = Lexer::run(as_slice(&self.data), ByteClass::Whitespace);
        let _ = self.data.split_to(n);
    }
}

} // verus!
