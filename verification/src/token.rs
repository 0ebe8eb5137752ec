//! The token model: the closed set of lexical categories and the pairing of a
//! category with the source bytes that produced it.

use crate::buffer::{as_slice, contents};
use bytes::Bytes;
use vstd::prelude::*;
use vstd::string::*;
use vstd::utf8::{
    decode_utf8, encode_utf8, encode_utf8_decode_utf8, encode_utf8_valid_utf8, is_ascii_chars,
    is_ascii_chars_encode_utf8, valid_utf8,
};

verus! {

/// The lexical category of a token.
#[derive(Debug, PartialEq, Eq, Clone, Copy, Structural)]
pub enum TokenType {
    /// A byte that starts no token.
    Illegal,
    /// End of input.
    Eof,
    /// An identifier.
    Ident,
    /// An integer literal.
    Int,
    /// `=`
    Assign,
    /// `+`
    Plus,
    /// `-`
    Minus,
    /// `!`
    Bang,
    /// `*`
    Asterisk,
    /// `/`
    Slash,
    /// `<`
    Lt,
    /// `>`
    Gt,
    /// `,`
    Comma,
    /// `;`
    Semicolon,
    /// `(`
    Lparne,
    /// `)`
    Rparne,
    /// `{`
    Lbrace,
    /// `}`
    Rbrace,
    /// `==`
    Eq,
    /// `!=`
    NotEq,
    /// `fn`
    Function,
    /// `let`
    Let,
    /// `true`
    True,
    /// `false`
    False,
    /// `if`
    If,
    /// `else`
    Else,
    /// `return`
    Retrun,
}

impl TokenType {
    /// The stable display name of a category, as used in error messages:
    /// operators and delimiters show as their symbol, everything else as the
    /// category's name.
    pub open spec fn display_name(self) -> Seq<char> {
        match self {
            TokenType::Illegal => "Illegal"@,
            TokenType::Eof => "Eof"@,
            TokenType::Ident => "Ident"@,
            TokenType::Int => "Int"@,
            TokenType::Assign => "="@,
            TokenType::Plus => "+"@,
            TokenType::Minus => "-"@,
            TokenType::Bang => "!"@,
            TokenType::Asterisk => "*"@,
            TokenType::Slash => "/"@,
            TokenType::Lt => "<"@,
            TokenType::Gt => ">"@,
            TokenType::Comma => ","@,
            TokenType::Semicolon => ";"@,
            TokenType::Lparne => "("@,
            TokenType::Rparne => ")"@,
            TokenType::Lbrace => "{"@,
            TokenType::Rbrace => "}"@,
            TokenType::Eq => "=="@,
            TokenType::NotEq => "!="@,
            TokenType::Function => "Function"@,
            TokenType::Let => "Let"@,
            TokenType::True => "True"@,
            TokenType::False => "False"@,
            TokenType::If => "If"@,
            TokenType::Else => "Else"@,
            TokenType::Retrun => "Return"@,
        }
    }

    /// The display name as an owned string.
    pub fn to_string(&self) -> (s: String)
        ensures
            s@ == self.display_name(),
    {
        let name: &str = match self {
            TokenType::Illegal => "Illegal",
            TokenType::Eof => "Eof",
            TokenType::Ident => "Ident",
            TokenType::Int => "Int",
            TokenType::Assign => "=",
            TokenType::Plus => "+",
            TokenType::Minus => "-",
            TokenType::Bang => "!",
            TokenType::Asterisk => "*",
            TokenType::Slash => "/",
            TokenType::Lt => "<",
            TokenType::Gt => ">",
            TokenType::Comma => ",",
            TokenType::Semicolon => ";",
            TokenType::Lparne => "(",
            TokenType::Rparne => ")",
            TokenType::Lbrace => "{",
            TokenType::Rbrace => "}",
            TokenType::Eq => "==",
            TokenType::NotEq => "!=",
            TokenType::Function => "Function",
            TokenType::Let => "Let",
            TokenType::True => "True",
            TokenType::False => "False",
            TokenType::If => "If",
            TokenType::Else => "Else",
            TokenType::Retrun => "Return",
        };
        String::from_str(name)
    }
}

/// `core::str::Utf8Error`, the reason a byte slice is not UTF-8. Only ever
/// discarded here.
#[verifier::external_type_specification]
#[verifier::external_body]
pub struct ExUtf8Error(core::str::Utf8Error);

/// `core::str::from_utf8`: succeeds exactly on well-formed UTF-8, and the
/// string slice it then returns is made of the very bytes it was given.
pub assume_specification[ core::str::from_utf8 ](v: &[u8]) -> (r: Result<
    &str,
    core::str::Utf8Error,
>)
    ensures
        r is Ok <==> valid_utf8(v@),
        r matches Ok(s) ==> s.spec_bytes() == v@,
;

/// Whether every byte is an ASCII byte.
pub open spec fn is_ascii_bytes(bytes: Seq<u8>) -> bool {
    forall|i: int| 0 <= i < bytes.len() ==> #[trigger] bytes[i] < 0x80
}

/// ASCII bytes are well-formed UTF-8, and decode to one character per byte.
pub proof fn lemma_ascii_is_text(bytes: Seq<u8>)
    requires
        is_ascii_bytes(bytes),
    ensures
        valid_utf8(bytes),
        decode_utf8(bytes) == Seq::new(bytes.len(), |i: int| bytes[i] as char),
{
    let chars = Seq::new(bytes.len(), |i: int| bytes[i] as char);
    assert(is_ascii_chars(chars));
    is_ascii_chars_encode_utf8(chars);
    assert(encode_utf8(chars) =~= bytes);
    encode_utf8_valid_utf8(chars);
    encode_utf8_decode_utf8(chars);
}

/// What a token is, mathematically: its category and the bytes of its
/// literal.
pub struct TokenView {
    pub typ: TokenType,
    pub literal: Seq<u8>,
}

impl TokenView {
    /// Whether the literal is well-formed UTF-8, so that it can be shown as
    /// text. Every literal that the lexer produces is.
    pub open spec fn is_text(self) -> bool {
        valid_utf8(self.literal)
    }

    /// The literal as text.
    pub open spec fn text(self) -> Seq<char> {
        decode_utf8(self.literal)
    }
}

/// A token: a category and the source bytes that produced it.
#[derive(Debug)]
pub struct Token {
    pub typ: TokenType,
    pub literal: Bytes,
}

impl View for Token {
    type V = TokenView;

    open spec fn view(&self) -> TokenView {
        TokenView { typ: self.typ, literal: contents(self.literal) }
    }
}

impl Token {
    /// Pairs a category with a literal. Nothing is validated: any pairing is
    /// accepted.
    pub fn new(typ: TokenType, literal: Bytes) -> (t: Self)
        ensures
            t.typ == typ,
            t.literal == literal,
            t@ == (TokenView { typ, literal: contents(literal) }),
    {
        Self { typ, literal }
    }

    /// The literal as text, borrowed from the token, or `None` if the
    /// literal is not well-formed UTF-8.
    pub fn try_text(&self) -> (found: Option<&str>)
        ensures
            found is Some <==> self@.is_text(),
            found matches Some(s) ==> s@ == self@.text(),
    {
        match core::str::from_utf8(as_slice(&self.literal)) {
            Ok(s) => {
                proof {
                    encode_utf8_decode_utf8(s@);
                }
                Some(s)
            },
            Err(_) => None,
        }
    }

    /// The literal as text, borrowed from the token.
    pub fn text(&self) -> (s: &str)
        requires
            self@.is_text(),
        ensures
            s@ == self@.text(),
    {
        self.try_text().unwrap()
    }
}

} // verus!
