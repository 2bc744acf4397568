//! The tokens of the language and the errors a lexeme can raise.

use vstd::prelude::*;
use vstd::string::*;
use crate::text::append_i32;

verus! {

/// What can be wrong with a lexeme.
#[derive(Debug, Default, Clone, PartialEq)]
pub enum LexingError {
    IntliteralOverflow,
    StringliteralBadEscape,
    StringliteralUnterminated,
    StringliteralUnterminatedBadEscape,
    /// A character that starts no token; the payload is that character.
    Illegal(String),
    #[default]
    NonAsciiCharacter,
}

/// The tokens.
#[derive(Debug, Clone, PartialEq)]
pub enum TokenType {
    AND,
    MAGIC,
    BOOL,
    ELSE,
    FALSE,
    IF,
    INT,
    GIVE,
    TAKE,
    OR,
    PERFECT,
    RETURN,
    CLASS,
    TRUE,
    EXIT,
    VOID,
    WHILE,
    ID(String),
    INTLITERAL(i32),
    /// The literal as written, its quotes included.
    STRINGLITERAL(String),
    ASSIGN,
    COLON,
    COMMA,
    CROSS,
    DASH,
    EQUALS,
    GREATER,
    GREATEREQ,
    LCURLY,
    LESS,
    LESSEQ,
    LPAREN,
    NOT,
    NOTEQUALS,
    POSTDEC,
    POSTINC,
    RCURLY,
    RPAREN,
    SEMICOL,
    SLASH,
    STAR,
    Null,
}

/// A token over plain text.
pub enum Token {
    AND,
    MAGIC,
    BOOL,
    ELSE,
    FALSE,
    IF,
    INT,
    GIVE,
    TAKE,
    OR,
    PERFECT,
    RETURN,
    CLASS,
    TRUE,
    EXIT,
    VOID,
    WHILE,
    ID(Seq<char>),
    INTLITERAL(i32),
    STRINGLITERAL(Seq<char>),
    ASSIGN,
    COLON,
    COMMA,
    CROSS,
    DASH,
    EQUALS,
    GREATER,
    GREATEREQ,
    LCURLY,
    LESS,
    LESSEQ,
    LPAREN,
    NOT,
    NOTEQUALS,
    POSTDEC,
    POSTINC,
    RCURLY,
    RPAREN,
    SEMICOL,
    SLASH,
    STAR,
    Null,
}

impl View for TokenType {
    type V = Token;

    open spec fn view(&self) -> Token {
        match self {
            TokenType::AND => Token::AND,
            TokenType::MAGIC => Token::MAGIC,
            TokenType::BOOL => Token::BOOL,
            TokenType::ELSE => Token::ELSE,
            TokenType::FALSE => Token::FALSE,
            TokenType::IF => Token::IF,
            TokenType::INT => Token::INT,
            TokenType::GIVE => Token::GIVE,
            TokenType::TAKE => Token::TAKE,
            TokenType::OR => Token::OR,
            TokenType::PERFECT => Token::PERFECT,
            TokenType::RETURN => Token::RETURN,
            TokenType::CLASS => Token::CLASS,
            TokenType::TRUE => Token::TRUE,
            TokenType::EXIT => Token::EXIT,
            TokenType::VOID => Token::VOID,
            TokenType::WHILE => Token::WHILE,
            TokenType::ID(s) => Token::ID(s@),
            TokenType::INTLITERAL(n) => Token::INTLITERAL(*n),
            TokenType::STRINGLITERAL(s) => Token::STRINGLITERAL(s@),
            TokenType::ASSIGN => Token::ASSIGN,
            TokenType::COLON => Token::COLON,
            TokenType::COMMA => Token::COMMA,
            TokenType::CROSS => Token::CROSS,
            TokenType::DASH => Token::DASH,
            TokenType::EQUALS => Token::EQUALS,
            TokenType::GREATER => Token::GREATER,
            TokenType::GREATEREQ => Token::GREATEREQ,
            TokenType::LCURLY => Token::LCURLY,
            TokenType::LESS => Token::LESS,
            TokenType::LESSEQ => Token::LESSEQ,
            TokenType::LPAREN => Token::LPAREN,
            TokenType::NOT => Token::NOT,
            TokenType::NOTEQUALS => Token::NOTEQUALS,
            TokenType::POSTDEC => Token::POSTDEC,
            TokenType::POSTINC => Token::POSTINC,
            TokenType::RCURLY => Token::RCURLY,
            TokenType::RPAREN => Token::RPAREN,
            TokenType::SEMICOL => Token::SEMICOL,
            TokenType::SLASH => Token::SLASH,
            TokenType::STAR => Token::STAR,
            TokenType::Null => Token::Null,
        }
    }
}

/// What can be wrong with a lexeme, over plain text.
pub enum LexingFault {
    IntliteralOverflow,
    StringliteralBadEscape,
    StringliteralUnterminated,
    StringliteralUnterminatedBadEscape,
    Illegal(Seq<char>),
    NonAsciiCharacter,
}

impl View for LexingError {
    type V = LexingFault;

    open spec fn view(&self) -> LexingFault {
        match self {
            LexingError::IntliteralOverflow => LexingFault::IntliteralOverflow,
            LexingError::StringliteralBadEscape => LexingFault::StringliteralBadEscape,
            LexingError::StringliteralUnterminated => LexingFault::StringliteralUnterminated,
            LexingError::StringliteralUnterminatedBadEscape => LexingFault::StringliteralUnterminatedBadEscape,
            LexingError::Illegal(s) => LexingFault::Illegal(s@),
            LexingError::NonAsciiCharacter => LexingFault::NonAsciiCharacter,
        }
    }
}

impl LexingFault {
    /// The message that goes with the error.
    pub open spec fn spec_message(self) -> Seq<char> {
        match self {
            LexingFault::IntliteralOverflow => "Integer literal overflow"@,
            LexingFault::StringliteralBadEscape => "String literal with bad escape sequence detected"@,
            LexingFault::StringliteralUnterminated => "Unterminated string literal detected"@,
            LexingFault::StringliteralUnterminatedBadEscape => "Unterminated string literal with bad escape sequence detected"@,
            LexingFault::Illegal(v) => "Illegal character: "@ + v,
            LexingFault::NonAsciiCharacter => "Non ASCII character detected"@,
        }
    }
}

impl LexingError {
    /// The message that goes with the error.
    pub fn message(&self) -> (s: String)
        ensures
            s@ == self@.spec_message(),
    {
        match self {
            LexingError::IntliteralOverflow => String::from_str("Integer literal overflow"),
            LexingError::StringliteralBadEscape => String::from_str(
                "String literal with bad escape sequence detected",
            ),
            LexingError::StringliteralUnterminated => String::from_str(
                "Unterminated string literal detected",
            ),
            LexingError::StringliteralUnterminatedBadEscape => String::from_str(
                "Unterminated string literal with bad escape sequence detected",
            ),
            LexingError::Illegal(v) => String::from_str("Illegal character: ").concat(v.as_str()),
            LexingError::NonAsciiCharacter => String::from_str("Non ASCII character detected"),
        }
    }

    /// A copy of the error.
    pub fn copy(&self) -> (r: LexingError)
        ensures
            r == *self,
    {
        match self {
            LexingError::IntliteralOverflow => LexingError::IntliteralOverflow,
            LexingError::StringliteralBadEscape => LexingError::StringliteralBadEscape,
            LexingError::StringliteralUnterminated => LexingError::StringliteralUnterminated,
            LexingError::StringliteralUnterminatedBadEscape => LexingError::StringliteralUnterminatedBadEscape,
            LexingError::Illegal(v) => LexingError::Illegal(v.clone()),
            LexingError::NonAsciiCharacter => LexingError::NonAsciiCharacter,
        }
    }
}

impl Token {
    /// The place of the token's variant in the list of variants.
    pub open spec fn spec_code(self) -> u8 {
        match self {
            Token::AND => 0,
            Token::MAGIC => 1,
            Token::BOOL => 2,
            Token::ELSE => 3,
            Token::FALSE => 4,
            Token::IF => 5,
            Token::INT => 6,
            Token::GIVE => 7,
            Token::TAKE => 8,
            Token::OR => 9,
            Token::PERFECT => 10,
            Token::RETURN => 11,
            Token::CLASS => 12,
            Token::TRUE => 13,
            Token::EXIT => 14,
            Token::VOID => 15,
            Token::WHILE => 16,
            Token::ID(_) => 17,
            Token::INTLITERAL(_) => 18,
            Token::STRINGLITERAL(_) => 19,
            Token::ASSIGN => 20,
            Token::COLON => 21,
            Token::COMMA => 22,
            Token::CROSS => 23,
            Token::DASH => 24,
            Token::EQUALS => 25,
            Token::GREATER => 26,
            Token::GREATEREQ => 27,
            Token::LCURLY => 28,
            Token::LESS => 29,
            Token::LESSEQ => 30,
            Token::LPAREN => 31,
            Token::NOT => 32,
            Token::NOTEQUALS => 33,
            Token::POSTDEC => 34,
            Token::POSTINC => 35,
            Token::RCURLY => 36,
            Token::RPAREN => 37,
            Token::SEMICOL => 38,
            Token::SLASH => 39,
            Token::STAR => 40,
            Token::Null => 41,
        }
    }

    /// The name of the token as the token listing shows it, without any
    /// payload.
    pub open spec fn spec_label(self) -> Seq<char> {
        match self {
            Token::AND => "AND"@,
            Token::MAGIC => "MAGIC"@,
            Token::BOOL => "BOOL"@,
            Token::ELSE => "ELSE"@,
            Token::FALSE => "FALSE"@,
            Token::IF => "IF"@,
            Token::INT => "INT"@,
            Token::GIVE => "GIVE"@,
            Token::TAKE => "TAKE"@,
            Token::OR => "OR"@,
            Token::PERFECT => "PERFECT"@,
            Token::RETURN => "RETURN"@,
            Token::CLASS => "CLASS"@,
            Token::TRUE => "TRUE"@,
            Token::EXIT => "EXIT"@,
            Token::VOID => "VOID"@,
            Token::WHILE => "WHILE"@,
            Token::ID(_) => "ID"@,
            Token::INTLITERAL(_) => "INTLITERAL"@,
            Token::STRINGLITERAL(_) => "STRINGLITERAL"@,
            Token::ASSIGN => "ASSIGN"@,
            Token::COLON => "COLON"@,
            Token::COMMA => "COMMA"@,
            Token::CROSS => "CROSS"@,
            Token::DASH => "DASH"@,
            Token::EQUALS => "EQUALS"@,
            Token::GREATER => "GREATER"@,
            Token::GREATEREQ => "GREATEREQ"@,
            Token::LCURLY => "LCURLY"@,
            Token::LESS => "LESS"@,
            Token::LESSEQ => "LESSEQ"@,
            Token::LPAREN => "LPAREN"@,
            Token::NOT => "NOT"@,
            Token::NOTEQUALS => "NOTEQUALS"@,
            Token::POSTDEC => "POSTDEC"@,
            Token::POSTINC => "POSTINC"@,
            Token::RCURLY => "RCURLY"@,
            Token::RPAREN => "RPAREN"@,
            Token::SEMICOL => "SEMICOL"@,
            Token::SLASH => "SLASH"@,
            Token::STAR => "STAR"@,
            Token::Null => "Null"@,
        }
    }

    /// The token as the token listing shows it: `ID:name`,
    /// `INTLITERAL:value`, `STRINGLITERAL:text`, or the bare name.
    pub open spec fn spec_text(self) -> Seq<char> {
        match self {
            Token::ID(v) => "ID:"@ + v,
            Token::STRINGLITERAL(v) => "STRINGLITERAL:"@ + v,
            Token::INTLITERAL(v) => "INTLITERAL:"@ + crate::text::signed_decimal(v as int),
            _ => self.spec_label(),
        }
    }
}

impl TokenType {
    /// A copy of the token.
    pub fn copy(&self) -> (r: TokenType)
        ensures
            r == *self,
    {
        match self {
            TokenType::AND => TokenType::AND,
            TokenType::MAGIC => TokenType::MAGIC,
            TokenType::BOOL => TokenType::BOOL,
            TokenType::ELSE => TokenType::ELSE,
            TokenType::FALSE => TokenType::FALSE,
            TokenType::IF => TokenType::IF,
            TokenType::INT => TokenType::INT,
            TokenType::GIVE => TokenType::GIVE,
            TokenType::TAKE => TokenType::TAKE,
            TokenType::OR => TokenType::OR,
            TokenType::PERFECT => TokenType::PERFECT,
            TokenType::RETURN => TokenType::RETURN,
            TokenType::CLASS => TokenType::CLASS,
            TokenType::TRUE => TokenType::TRUE,
            TokenType::EXIT => TokenType::EXIT,
            TokenType::VOID => TokenType::VOID,
            TokenType::WHILE => TokenType::WHILE,
            TokenType::ID(s) => TokenType::ID(s.clone()),
            TokenType::INTLITERAL(n) => TokenType::INTLITERAL(*n),
            TokenType::STRINGLITERAL(s) => TokenType::STRINGLITERAL(s.clone()),
            TokenType::ASSIGN => TokenType::ASSIGN,
            TokenType::COLON => TokenType::COLON,
            TokenType::COMMA => TokenType::COMMA,
            TokenType::CROSS => TokenType::CROSS,
            TokenType::DASH => TokenType::DASH,
            TokenType::EQUALS => TokenType::EQUALS,
            TokenType::GREATER => TokenType::GREATER,
            TokenType::GREATEREQ => TokenType::GREATEREQ,
            TokenType::LCURLY => TokenType::LCURLY,
            TokenType::LESS => TokenType::LESS,
            TokenType::LESSEQ => TokenType::LESSEQ,
            TokenType::LPAREN => TokenType::LPAREN,
            TokenType::NOT => TokenType::NOT,
            TokenType::NOTEQUALS => TokenType::NOTEQUALS,
            TokenType::POSTDEC => TokenType::POSTDEC,
            TokenType::POSTINC => TokenType::POSTINC,
            TokenType::RCURLY => TokenType::RCURLY,
            TokenType::RPAREN => TokenType::RPAREN,
            TokenType::SEMICOL => TokenType::SEMICOL,
            TokenType::SLASH => TokenType::SLASH,
            TokenType::STAR => TokenType::STAR,
            TokenType::Null => TokenType::Null,
        }
    }

    /// The place of the token's variant in the list of variants.
    pub open spec fn spec_code(self) -> u8 {
        self@.spec_code()
    }

    /// The place of the token's variant in the list of variants.
    pub fn code(&self) -> (c: u8)
        ensures
            c == self.spec_code(),
    {
        match self {
            TokenType::AND => 0,
            TokenType::MAGIC => 1,
            TokenType::BOOL => 2,
            TokenType::ELSE => 3,
            TokenType::FALSE => 4,
            TokenType::IF => 5,
            TokenType::INT => 6,
            TokenType::GIVE => 7,
            TokenType::TAKE => 8,
            TokenType::OR => 9,
            TokenType::PERFECT => 10,
            TokenType::RETURN => 11,
            TokenType::CLASS => 12,
            TokenType::TRUE => 13,
            TokenType::EXIT => 14,
            TokenType::VOID => 15,
            TokenType::WHILE => 16,
            TokenType::ID(_) => 17,
            TokenType::INTLITERAL(_) => 18,
            TokenType::STRINGLITERAL(_) => 19,
            TokenType::ASSIGN => 20,
            TokenType::COLON => 21,
            TokenType::COMMA => 22,
            TokenType::CROSS => 23,
            TokenType::DASH => 24,
            TokenType::EQUALS => 25,
            TokenType::GREATER => 26,
            TokenType::GREATEREQ => 27,
            TokenType::LCURLY => 28,
            TokenType::LESS => 29,
            TokenType::LESSEQ => 30,
            TokenType::LPAREN => 31,
            TokenType::NOT => 32,
            TokenType::NOTEQUALS => 33,
            TokenType::POSTDEC => 34,
            TokenType::POSTINC => 35,
            TokenType::RCURLY => 36,
            TokenType::RPAREN => 37,
            TokenType::SEMICOL => 38,
            TokenType::SLASH => 39,
            TokenType::STAR => 40,
            TokenType::Null => 41,
        }
    }

    /// Whether two tokens are of the same variant, whatever they carry.
    pub fn same_kind(&self, other: &TokenType) -> (b: bool)
        ensures
            b == (self.spec_code() == other.spec_code()),
    {
        self.code() == other.code()
    }

    /// The name of the token, without any payload.
    pub fn label(&self) -> (s: &'static str)
        ensures
            s@ == self@.spec_label(),
    {
        match self {
            TokenType::AND => "AND",
            TokenType::MAGIC => "MAGIC",
            TokenType::BOOL => "BOOL",
            TokenType::ELSE => "ELSE",
            TokenType::FALSE => "FALSE",
            TokenType::IF => "IF",
            TokenType::INT => "INT",
            TokenType::GIVE => "GIVE",
            TokenType::TAKE => "TAKE",
            TokenType::OR => "OR",
            TokenType::PERFECT => "PERFECT",
            TokenType::RETURN => "RETURN",
            TokenType::CLASS => "CLASS",
            TokenType::TRUE => "TRUE",
            TokenType::EXIT => "EXIT",
            TokenType::VOID => "VOID",
            TokenType::WHILE => "WHILE",
            TokenType::ID(_) => "ID",
            TokenType::INTLITERAL(_) => "INTLITERAL",
            TokenType::STRINGLITERAL(_) => "STRINGLITERAL",
            TokenType::ASSIGN => "ASSIGN",
            TokenType::COLON => "COLON",
            TokenType::COMMA => "COMMA",
            TokenType::CROSS => "CROSS",
            TokenType::DASH => "DASH",
            TokenType::EQUALS => "EQUALS",
            TokenType::GREATER => "GREATER",
            TokenType::GREATEREQ => "GREATEREQ",
            TokenType::LCURLY => "LCURLY",
            TokenType::LESS => "LESS",
            TokenType::LESSEQ => "LESSEQ",
            TokenType::LPAREN => "LPAREN",
            TokenType::NOT => "NOT",
            TokenType::NOTEQUALS => "NOTEQUALS",
            TokenType::POSTDEC => "POSTDEC",
            TokenType::POSTINC => "POSTINC",
            TokenType::RCURLY => "RCURLY",
            TokenType::RPAREN => "RPAREN",
            TokenType::SEMICOL => "SEMICOL",
            TokenType::SLASH => "SLASH",
            TokenType::STAR => "STAR",
            TokenType::Null => "Null",
        }
    }

    /// The token as the token listing shows it.
    pub fn to_text(&self) -> (s: String)
        ensures
            s@ == self@.spec_text(),
    {
        match self {
            TokenType::ID(v) => String::from_str("ID:").concat(v.as_str()),
            TokenType::STRINGLITERAL(v) => String::from_str("STRINGLITERAL:").concat(v.as_str()),
            TokenType::INTLITERAL(v) => {
                let mut s = String::from_str("INTLITERAL:");
                append_i32(&mut s, *v);
                s
            },
            _ => String::from_str(self.label()),
        }
    }
}

} // verus!
