use vstd::prelude::*;
use crate::text::{append, append_debug, append_int, append_nat, debug_quoted, int_text, nat_text};

verus! {

/// The kind of a token: keywords, punctuation and literals of the Vit language.
/// A float literal is held by the IEEE-754 bits of its `f64` value.
#[derive(Debug, Clone)]
pub enum TokenType {
    Eof,
    Fn,
    Let,
    Extern,
    Struct,
    Identifier(String),
    LBrace,
    RBrace,
    Comma,
    Colon,
    LParen,
    RParen,
    Arrow,
    Semicolon,
    I32,
    I64,
    F32,
    F64,
    Bool,
    Str,
    Void,
    LBracket,
    RBracket,
    IntLiteral(i64),
    /// The `map` keyword; its debug name is `Map`.
    KwMap,
    Assign,
    Return,
    If,
    Else,
    While,
    For,
    In,
    Print,
    Input,
    Break,
    Continue,
    PlusAssign,
    MinusAssign,
    StarAssign,
    SlashAssign,
    PercentAssign,
    Dot,
    DotDot,
    Or,
    And,
    Equal,
    NotEqual,
    Less,
    Greater,
    LessEqual,
    GreaterEqual,
    Plus,
    Minus,
    Star,
    Slash,
    Percent,
    Ampersand,
    Pipe,
    Caret,
    LShift,
    RShift,
    Bang,
    As,
    FloatLiteral(u64),
    True,
    False,
    StringLiteral(String),
    /// A float literal as written, before its value is computed.
    FloatText(String),
}

/// A token with the source position (line and column) where it starts.
#[derive(Debug, Clone)]
pub struct Token {
    pub typ: TokenType,
    pub line: usize,
    pub column: usize,
}

/// The variant of a token kind, as a number: two kinds have the same number
/// exactly when they are the same variant, whatever their payloads.
pub open spec fn kind_number(t: TokenType) -> nat {
    match t {
        TokenType::Eof => 0,
        TokenType::Fn => 1,
        TokenType::Let => 2,
        TokenType::Extern => 3,
        TokenType::Struct => 4,
        TokenType::Identifier(..) => 5,
        TokenType::LBrace => 6,
        TokenType::RBrace => 7,
        TokenType::Comma => 8,
        TokenType::Colon => 9,
        TokenType::LParen => 10,
        TokenType::RParen => 11,
        TokenType::Arrow => 12,
        TokenType::Semicolon => 13,
        TokenType::I32 => 14,
        TokenType::I64 => 15,
        TokenType::F32 => 16,
        TokenType::F64 => 17,
        TokenType::Bool => 18,
        TokenType::Str => 19,
        TokenType::Void => 20,
        TokenType::LBracket => 21,
        TokenType::RBracket => 22,
        TokenType::IntLiteral(..) => 23,
        TokenType::KwMap => 24,
        TokenType::Assign => 25,
        TokenType::Return => 26,
        TokenType::If => 27,
        TokenType::Else => 28,
        TokenType::While => 29,
        TokenType::For => 30,
        TokenType::In => 31,
        TokenType::Print => 32,
        TokenType::Input => 33,
        TokenType::Break => 34,
        TokenType::Continue => 35,
        TokenType::PlusAssign => 36,
        TokenType::MinusAssign => 37,
        TokenType::StarAssign => 38,
        TokenType::SlashAssign => 39,
        TokenType::PercentAssign => 40,
        TokenType::Dot => 41,
        TokenType::DotDot => 42,
        TokenType::Or => 43,
        TokenType::And => 44,
        TokenType::Equal => 45,
        TokenType::NotEqual => 46,
        TokenType::Less => 47,
        TokenType::Greater => 48,
        TokenType::LessEqual => 49,
        TokenType::GreaterEqual => 50,
        TokenType::Plus => 51,
        TokenType::Minus => 52,
        TokenType::Star => 53,
        TokenType::Slash => 54,
        TokenType::Percent => 55,
        TokenType::Ampersand => 56,
        TokenType::Pipe => 57,
        TokenType::Caret => 58,
        TokenType::LShift => 59,
        TokenType::RShift => 60,
        TokenType::Bang => 61,
        TokenType::As => 62,
        TokenType::FloatLiteral(..) => 63,
        TokenType::True => 64,
        TokenType::False => 65,
        TokenType::StringLiteral(..) => 66,
        TokenType::FloatText(..) => 67,
    }
}

/// Whether two token kinds are the same variant (payloads are not compared).
pub open spec fn same_kind(a: TokenType, b: TokenType) -> bool {
    kind_number(a) == kind_number(b)
}

/// The text that Rust's derived `Debug` writes for a token kind. A float literal
/// shows the decimal value of its bits.
pub open spec fn kind_debug(t: TokenType) -> Seq<char> {
    match t {
        TokenType::Eof => "Eof"@,
        TokenType::Fn => "Fn"@,
        TokenType::Let => "Let"@,
        TokenType::Extern => "Extern"@,
        TokenType::Struct => "Struct"@,
        TokenType::Identifier(s) => "Identifier("@ + debug_quoted(s@) + ")"@,
        TokenType::LBrace => "LBrace"@,
        TokenType::RBrace => "RBrace"@,
        TokenType::Comma => "Comma"@,
        TokenType::Colon => "Colon"@,
        TokenType::LParen => "LParen"@,
        TokenType::RParen => "RParen"@,
        TokenType::Arrow => "Arrow"@,
        TokenType::Semicolon => "Semicolon"@,
        TokenType::I32 => "I32"@,
        TokenType::I64 => "I64"@,
        TokenType::F32 => "F32"@,
        TokenType::F64 => "F64"@,
        TokenType::Bool => "Bool"@,
        TokenType::Str => "Str"@,
        TokenType::Void => "Void"@,
        TokenType::LBracket => "LBracket"@,
        TokenType::RBracket => "RBracket"@,
        TokenType::IntLiteral(v) => "IntLiteral("@ + int_text(v as int) + ")"@,
        TokenType::KwMap => "Map"@,
        TokenType::Assign => "Assign"@,
        TokenType::Return => "Return"@,
        TokenType::If => "If"@,
        TokenType::Else => "Else"@,
        TokenType::While => "While"@,
        TokenType::For => "For"@,
        TokenType::In => "In"@,
        TokenType::Print => "Print"@,
        TokenType::Input => "Input"@,
        TokenType::Break => "Break"@,
        TokenType::Continue => "Continue"@,
        TokenType::PlusAssign => "PlusAssign"@,
        TokenType::MinusAssign => "MinusAssign"@,
        TokenType::StarAssign => "StarAssign"@,
        TokenType::SlashAssign => "SlashAssign"@,
        TokenType::PercentAssign => "PercentAssign"@,
        TokenType::Dot => "Dot"@,
        TokenType::DotDot => "DotDot"@,
        TokenType::Or => "Or"@,
        TokenType::And => "And"@,
        TokenType::Equal => "Equal"@,
        TokenType::NotEqual => "NotEqual"@,
        TokenType::Less => "Less"@,
        TokenType::Greater => "Greater"@,
        TokenType::LessEqual => "LessEqual"@,
        TokenType::GreaterEqual => "GreaterEqual"@,
        TokenType::Plus => "Plus"@,
        TokenType::Minus => "Minus"@,
        TokenType::Star => "Star"@,
        TokenType::Slash => "Slash"@,
        TokenType::Percent => "Percent"@,
        TokenType::Ampersand => "Ampersand"@,
        TokenType::Pipe => "Pipe"@,
        TokenType::Caret => "Caret"@,
        TokenType::LShift => "LShift"@,
        TokenType::RShift => "RShift"@,
        TokenType::Bang => "Bang"@,
        TokenType::As => "As"@,
        TokenType::FloatLiteral(b) => "FloatLiteral("@ + nat_text(b as nat) + ")"@,
        TokenType::True => "True"@,
        TokenType::False => "False"@,
        TokenType::StringLiteral(s) => "StringLiteral("@ + debug_quoted(s@) + ")"@,
        TokenType::FloatText(s) => "FloatText("@ + debug_quoted(s@) + ")"@,
    }
}

impl TokenType {
    /// The variant number of this kind.
    pub fn kind_index(&self) -> (r: u8)
        ensures
            r as nat == kind_number(*self),
    {
        match self {
            TokenType::Eof => 0,
            TokenType::Fn => 1,
            TokenType::Let => 2,
            TokenType::Extern => 3,
            TokenType::Struct => 4,
            TokenType::Identifier(..) => 5,
            TokenType::LBrace => 6,
            TokenType::RBrace => 7,
            TokenType::Comma => 8,
            TokenType::Colon => 9,
            TokenType::LParen => 10,
            TokenType::RParen => 11,
            TokenType::Arrow => 12,
            TokenType::Semicolon => 13,
            TokenType::I32 => 14,
            TokenType::I64 => 15,
            TokenType::F32 => 16,
            TokenType::F64 => 17,
            TokenType::Bool => 18,
            TokenType::Str => 19,
            TokenType::Void => 20,
            TokenType::LBracket => 21,
            TokenType::RBracket => 22,
            TokenType::IntLiteral(..) => 23,
            TokenType::KwMap => 24,
            TokenType::Assign => 25,
            TokenType::Return => 26,
            TokenType::If => 27,
            TokenType::Else => 28,
            TokenType::While => 29,
            TokenType::For => 30,
            TokenType::In => 31,
            TokenType::Print => 32,
            TokenType::Input => 33,
            TokenType::Break => 34,
            TokenType::Continue => 35,
            TokenType::PlusAssign => 36,
            TokenType::MinusAssign => 37,
            TokenType::StarAssign => 38,
            TokenType::SlashAssign => 39,
            TokenType::PercentAssign => 40,
            TokenType::Dot => 41,
            TokenType::DotDot => 42,
            TokenType::Or => 43,
            TokenType::And => 44,
            TokenType::Equal => 45,
            TokenType::NotEqual => 46,
            TokenType::Less => 47,
            TokenType::Greater => 48,
            TokenType::LessEqual => 49,
            TokenType::GreaterEqual => 50,
            TokenType::Plus => 51,
            TokenType::Minus => 52,
            TokenType::Star => 53,
            TokenType::Slash => 54,
            TokenType::Percent => 55,
            TokenType::Ampersand => 56,
            TokenType::Pipe => 57,
            TokenType::Caret => 58,
            TokenType::LShift => 59,
            TokenType::RShift => 60,
            TokenType::Bang => 61,
            TokenType::As => 62,
            TokenType::FloatLiteral(..) => 63,
            TokenType::True => 64,
            TokenType::False => 65,
            TokenType::StringLiteral(..) => 66,
            TokenType::FloatText(..) => 67,
        }
    }

    /// Whether `self` and `other` are the same variant.
    pub fn same_kind_as(&self, other: &TokenType) -> (r: bool)
        ensures
            r == same_kind(*self, *other),
    {
        self.kind_index() == other.kind_index()
    }

    /// Appends the `Debug` text of this kind to `s`.
    pub fn append_debug_to(&self, s: &mut String)
        ensures
            final(s)@ == old(s)@ + kind_debug(*self),
    {
        match self {
            TokenType::Eof => append(s, "Eof"),
            TokenType::Fn => append(s, "Fn"),
            TokenType::Let => append(s, "Let"),
            TokenType::Extern => append(s, "Extern"),
            TokenType::Struct => append(s, "Struct"),
            TokenType::Identifier(v) => { append(s, "Identifier("); append_debug(s, v.as_str()); append(s, ")"); }
            TokenType::LBrace => append(s, "LBrace"),
            TokenType::RBrace => append(s, "RBrace"),
            TokenType::Comma => append(s, "Comma"),
            TokenType::Colon => append(s, "Colon"),
            TokenType::LParen => append(s, "LParen"),
            TokenType::RParen => append(s, "RParen"),
            TokenType::Arrow => append(s, "Arrow"),
            TokenType::Semicolon => append(s, "Semicolon"),
            TokenType::I32 => append(s, "I32"),
            TokenType::I64 => append(s, "I64"),
            TokenType::F32 => append(s, "F32"),
            TokenType::F64 => append(s, "F64"),
            TokenType::Bool => append(s, "Bool"),
            TokenType::Str => append(s, "Str"),
            TokenType::Void => append(s, "Void"),
            TokenType::LBracket => append(s, "LBracket"),
            TokenType::RBracket => append(s, "RBracket"),
            TokenType::IntLiteral(v) => { append(s, "IntLiteral("); append_int(s, *v); append(s, ")"); }
            TokenType::KwMap => append(s, "Map"),
            TokenType::Assign => append(s, "Assign"),
            TokenType::Return => append(s, "Return"),
            TokenType::If => append(s, "If"),
            TokenType::Else => append(s, "Else"),
            TokenType::While => append(s, "While"),
            TokenType::For => append(s, "For"),
            TokenType::In => append(s, "In"),
            TokenType::Print => append(s, "Print"),
            TokenType::Input => append(s, "Input"),
            TokenType::Break => append(s, "Break"),
            TokenType::Continue => append(s, "Continue"),
            TokenType::PlusAssign => append(s, "PlusAssign"),
            TokenType::MinusAssign => append(s, "MinusAssign"),
            TokenType::StarAssign => append(s, "StarAssign"),
            TokenType::SlashAssign => append(s, "SlashAssign"),
            TokenType::PercentAssign => append(s, "PercentAssign"),
            TokenType::Dot => append(s, "Dot"),
            TokenType::DotDot => append(s, "DotDot"),
            TokenType::Or => append(s, "Or"),
            TokenType::And => append(s, "And"),
            TokenType::Equal => append(s, "Equal"),
            TokenType::NotEqual => append(s, "NotEqual"),
            TokenType::Less => append(s, "Less"),
            TokenType::Greater => append(s, "Greater"),
            TokenType::LessEqual => append(s, "LessEqual"),
            TokenType::GreaterEqual => append(s, "GreaterEqual"),
            TokenType::Plus => append(s, "Plus"),
            TokenType::Minus => append(s, "Minus"),
            TokenType::Star => append(s, "Star"),
            TokenType::Slash => append(s, "Slash"),
            TokenType::Percent => append(s, "Percent"),
            TokenType::Ampersand => append(s, "Ampersand"),
            TokenType::Pipe => append(s, "Pipe"),
            TokenType::Caret => append(s, "Caret"),
            TokenType::LShift => append(s, "LShift"),
            TokenType::RShift => append(s, "RShift"),
            TokenType::Bang => append(s, "Bang"),
            TokenType::As => append(s, "As"),
            TokenType::FloatLiteral(v) => { append(s, "FloatLiteral("); append_nat(s, *v); append(s, ")"); }
            TokenType::True => append(s, "True"),
            TokenType::False => append(s, "False"),
            TokenType::StringLiteral(v) => { append(s, "StringLiteral("); append_debug(s, v.as_str()); append(s, ")"); }
            TokenType::FloatText(v) => { append(s, "FloatText("); append_debug(s, v.as_str()); append(s, ")"); }
        }
        assert(s@ =~= old(s)@ + kind_debug(*self));
    }
}

} // verus!
