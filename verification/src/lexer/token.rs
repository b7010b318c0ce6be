use vstd::prelude::*;

verus! {

/// The kind of a lexical token; four kinds carry their text.
#[derive(Debug, Clone, PartialEq)]
pub enum TokenType {
    Def,
    Return,
    Val,
    Var,
    Mut,
    If,
    Else,
    While,
    Loop,
    For,
    In,
    Break,
    Continue,
    Struct,
    Impl,
    SelfKeyword,
    I8,
    I16,
    I32,
    I64,
    U8,
    U16,
    U32,
    U64,
    F32,
    F64,
    Bool,
    Void,
    String,
    True,
    False,
    Identifier(String),
    IntLiteral(String),
    FloatLiteral(String),
    StringLiteral(String),
    Plus,
    Minus,
    Star,
    Slash,
    Percent,
    EqualEqual,
    BangEqual,
    Less,
    Greater,
    LessEqual,
    GreaterEqual,
    AmpAmp,
    PipePipe,
    Bang,
    Amp,
    Equal,
    LeftParen,
    RightParen,
    LeftBrace,
    RightBrace,
    LeftBracket,
    RightBracket,
    Arrow,
    LeftArrow,
    DotDot,
    Dot,
    ColonColon,
    Colon,
    Semicolon,
    Comma,
    Eof,
}

/// The mathematical image of a `TokenType`: the same kinds, with text as character sequences.
pub enum TokenKind {
    Def,
    Return,
    Val,
    Var,
    Mut,
    If,
    Else,
    While,
    Loop,
    For,
    In,
    Break,
    Continue,
    Struct,
    Impl,
    SelfKeyword,
    I8,
    I16,
    I32,
    I64,
    U8,
    U16,
    U32,
    U64,
    F32,
    F64,
    Bool,
    Void,
    String,
    True,
    False,
    Identifier(Seq<char>),
    IntLiteral(Seq<char>),
    FloatLiteral(Seq<char>),
    StringLiteral(Seq<char>),
    Plus,
    Minus,
    Star,
    Slash,
    Percent,
    EqualEqual,
    BangEqual,
    Less,
    Greater,
    LessEqual,
    GreaterEqual,
    AmpAmp,
    PipePipe,
    Bang,
    Amp,
    Equal,
    LeftParen,
    RightParen,
    LeftBrace,
    RightBrace,
    LeftBracket,
    RightBracket,
    Arrow,
    LeftArrow,
    DotDot,
    Dot,
    ColonColon,
    Colon,
    Semicolon,
    Comma,
    Eof,
}

impl View for TokenType {
    type V = TokenKind;

    open spec fn view(&self) -> TokenKind {
        match self {
            TokenType::Def => TokenKind::Def,
            TokenType::Return => TokenKind::Return,
            TokenType::Val => TokenKind::Val,
            TokenType::Var => TokenKind::Var,
            TokenType::Mut => TokenKind::Mut,
            TokenType::If => TokenKind::If,
            TokenType::Else => TokenKind::Else,
            TokenType::While => TokenKind::While,
            TokenType::Loop => TokenKind::Loop,
            TokenType::For => TokenKind::For,
            TokenType::In => TokenKind::In,
            TokenType::Break => TokenKind::Break,
            TokenType::Continue => TokenKind::Continue,
            TokenType::Struct => TokenKind::Struct,
            TokenType::Impl => TokenKind::Impl,
            TokenType::SelfKeyword => TokenKind::SelfKeyword,
            TokenType::I8 => TokenKind::I8,
            TokenType::I16 => TokenKind::I16,
            TokenType::I32 => TokenKind::I32,
            TokenType::I64 => TokenKind::I64,
            TokenType::U8 => TokenKind::U8,
            TokenType::U16 => TokenKind::U16,
            TokenType::U32 => TokenKind::U32,
            TokenType::U64 => TokenKind::U64,
            TokenType::F32 => TokenKind::F32,
            TokenType::F64 => TokenKind::F64,
            TokenType::Bool => TokenKind::Bool,
            TokenType::Void => TokenKind::Void,
            TokenType::String => TokenKind::String,
            TokenType::True => TokenKind::True,
            TokenType::False => TokenKind::False,
            TokenType::Identifier(s) => TokenKind::Identifier(s@),
            TokenType::IntLiteral(s) => TokenKind::IntLiteral(s@),
            TokenType::FloatLiteral(s) => TokenKind::FloatLiteral(s@),
            TokenType::StringLiteral(s) => TokenKind::StringLiteral(s@),
            TokenType::Plus => TokenKind::Plus,
            TokenType::Minus => TokenKind::Minus,
            TokenType::Star => TokenKind::Star,
            TokenType::Slash => TokenKind::Slash,
            TokenType::Percent => TokenKind::Percent,
            TokenType::EqualEqual => TokenKind::EqualEqual,
            TokenType::BangEqual => TokenKind::BangEqual,
            TokenType::Less => TokenKind::Less,
            TokenType::Greater => TokenKind::Greater,
            TokenType::LessEqual => TokenKind::LessEqual,
            TokenType::GreaterEqual => TokenKind::GreaterEqual,
            TokenType::AmpAmp => TokenKind::AmpAmp,
            TokenType::PipePipe => TokenKind::PipePipe,
            TokenType::Bang => TokenKind::Bang,
            TokenType::Amp => TokenKind::Amp,
            TokenType::Equal => TokenKind::Equal,
            TokenType::LeftParen => TokenKind::LeftParen,
            TokenType::RightParen => TokenKind::RightParen,
            TokenType::LeftBrace => TokenKind::LeftBrace,
            TokenType::RightBrace => TokenKind::RightBrace,
            TokenType::LeftBracket => TokenKind::LeftBracket,
            TokenType::RightBracket => TokenKind::RightBracket,
            TokenType::Arrow => TokenKind::Arrow,
            TokenType::LeftArrow => TokenKind::LeftArrow,
            TokenType::DotDot => TokenKind::DotDot,
            TokenType::Dot => TokenKind::Dot,
            TokenType::ColonColon => TokenKind::ColonColon,
            TokenType::Colon => TokenKind::Colon,
            TokenType::Semicolon => TokenKind::Semicolon,
            TokenType::Comma => TokenKind::Comma,
            TokenType::Eof => TokenKind::Eof,
        }
    }
}

/// The text that spells a token of fixed text: a keyword, a type name, `true` or `false`, an
/// operator or a symbol. Names, numbers and the end of input have no fixed text.
pub open spec fn spelling(k: TokenKind) -> Option<Seq<char>> {
    match k {
        TokenKind::Def => Some("def"@),
        TokenKind::Return => Some("return"@),
        TokenKind::Val => Some("val"@),
        TokenKind::Var => Some("var"@),
        TokenKind::Mut => Some("mut"@),
        TokenKind::If => Some("if"@),
        TokenKind::Else => Some("else"@),
        TokenKind::While => Some("while"@),
        TokenKind::Loop => Some("loop"@),
        TokenKind::For => Some("for"@),
        TokenKind::In => Some("in"@),
        TokenKind::Break => Some("break"@),
        TokenKind::Continue => Some("continue"@),
        TokenKind::Struct => Some("struct"@),
        TokenKind::Impl => Some("impl"@),
        TokenKind::SelfKeyword => Some("self"@),
        TokenKind::I8 => Some("i8"@),
        TokenKind::I16 => Some("i16"@),
        TokenKind::I32 => Some("i32"@),
        TokenKind::I64 => Some("i64"@),
        TokenKind::U8 => Some("u8"@),
        TokenKind::U16 => Some("u16"@),
        TokenKind::U32 => Some("u32"@),
        TokenKind::U64 => Some("u64"@),
        TokenKind::F32 => Some("f32"@),
        TokenKind::F64 => Some("f64"@),
        TokenKind::Bool => Some("bool"@),
        TokenKind::Void => Some("void"@),
        TokenKind::True => Some("true"@),
        TokenKind::False => Some("false"@),
        TokenKind::Plus => Some("+"@),
        TokenKind::Minus => Some("-"@),
        TokenKind::Star => Some("*"@),
        TokenKind::Slash => Some("/"@),
        TokenKind::Percent => Some("%"@),
        TokenKind::EqualEqual => Some("=="@),
        TokenKind::BangEqual => Some("!="@),
        TokenKind::Less => Some("<"@),
        TokenKind::Greater => Some(">"@),
        TokenKind::LessEqual => Some("<="@),
        TokenKind::GreaterEqual => Some(">="@),
        TokenKind::AmpAmp => Some("&&"@),
        TokenKind::PipePipe => Some("||"@),
        TokenKind::Bang => Some("!"@),
        TokenKind::Amp => Some("&"@),
        TokenKind::Equal => Some("="@),
        TokenKind::LeftParen => Some("("@),
        TokenKind::RightParen => Some(")"@),
        TokenKind::LeftBrace => Some("{"@),
        TokenKind::RightBrace => Some("}"@),
        TokenKind::LeftBracket => Some("["@),
        TokenKind::RightBracket => Some("]"@),
        TokenKind::Arrow => Some("->"@),
        TokenKind::LeftArrow => Some("<-"@),
        TokenKind::DotDot => Some(".."@),
        TokenKind::Dot => Some("."@),
        TokenKind::ColonColon => Some("::"@),
        TokenKind::Colon => Some(":"@),
        TokenKind::Semicolon => Some(";"@),
        TokenKind::Comma => Some(","@),
        _ => None,
    }
}

/// Whether a token's text is what its kind says: a name or a number carries its own text (a
/// name is never empty), the end of input has none, and any other token is spelled as its kind.
pub open spec fn text_matches(t: TokenView) -> bool {
    match t.kind {
        TokenKind::Identifier(n) => n == t.lexeme && n.len() > 0,
        TokenKind::IntLiteral(v) => v == t.lexeme && v.len() > 0,
        TokenKind::FloatLiteral(v) => v == t.lexeme && v.len() > 0,
        TokenKind::Eof => t.lexeme.len() == 0,
        _ => spelling(t.kind) == Some(t.lexeme),
    }
}

/// The position of a token's kind in the list of kinds; two tokens have the same kind iff these agree.
pub open spec fn kind_index(k: TokenKind) -> nat {
    match k {
        TokenKind::Def => 0,
        TokenKind::Return => 1,
        TokenKind::Val => 2,
        TokenKind::Var => 3,
        TokenKind::Mut => 4,
        TokenKind::If => 5,
        TokenKind::Else => 6,
        TokenKind::While => 7,
        TokenKind::Loop => 8,
        TokenKind::For => 9,
        TokenKind::In => 10,
        TokenKind::Break => 11,
        TokenKind::Continue => 12,
        TokenKind::Struct => 13,
        TokenKind::Impl => 14,
        TokenKind::SelfKeyword => 15,
        TokenKind::I8 => 16,
        TokenKind::I16 => 17,
        TokenKind::I32 => 18,
        TokenKind::I64 => 19,
        TokenKind::U8 => 20,
        TokenKind::U16 => 21,
        TokenKind::U32 => 22,
        TokenKind::U64 => 23,
        TokenKind::F32 => 24,
        TokenKind::F64 => 25,
        TokenKind::Bool => 26,
        TokenKind::Void => 27,
        TokenKind::String => 28,
        TokenKind::True => 29,
        TokenKind::False => 30,
        TokenKind::Identifier(_) => 31,
        TokenKind::IntLiteral(_) => 32,
        TokenKind::FloatLiteral(_) => 33,
        TokenKind::StringLiteral(_) => 34,
        TokenKind::Plus => 35,
        TokenKind::Minus => 36,
        TokenKind::Star => 37,
        TokenKind::Slash => 38,
        TokenKind::Percent => 39,
        TokenKind::EqualEqual => 40,
        TokenKind::BangEqual => 41,
        TokenKind::Less => 42,
        TokenKind::Greater => 43,
        TokenKind::LessEqual => 44,
        TokenKind::GreaterEqual => 45,
        TokenKind::AmpAmp => 46,
        TokenKind::PipePipe => 47,
        TokenKind::Bang => 48,
        TokenKind::Amp => 49,
        TokenKind::Equal => 50,
        TokenKind::LeftParen => 51,
        TokenKind::RightParen => 52,
        TokenKind::LeftBrace => 53,
        TokenKind::RightBrace => 54,
        TokenKind::LeftBracket => 55,
        TokenKind::RightBracket => 56,
        TokenKind::Arrow => 57,
        TokenKind::LeftArrow => 58,
        TokenKind::DotDot => 59,
        TokenKind::Dot => 60,
        TokenKind::ColonColon => 61,
        TokenKind::Colon => 62,
        TokenKind::Semicolon => 63,
        TokenKind::Comma => 64,
        TokenKind::Eof => 65,
    }
}

/// The position of the token's kind, as `kind_index` gives it.
pub fn token_kind_index(t: &TokenType) -> (r: u8)
    ensures
        r as nat == kind_index(t@),
{
    match t {
        TokenType::Def => 0,
        TokenType::Return => 1,
        TokenType::Val => 2,
        TokenType::Var => 3,
        TokenType::Mut => 4,
        TokenType::If => 5,
        TokenType::Else => 6,
        TokenType::While => 7,
        TokenType::Loop => 8,
        TokenType::For => 9,
        TokenType::In => 10,
        TokenType::Break => 11,
        TokenType::Continue => 12,
        TokenType::Struct => 13,
        TokenType::Impl => 14,
        TokenType::SelfKeyword => 15,
        TokenType::I8 => 16,
        TokenType::I16 => 17,
        TokenType::I32 => 18,
        TokenType::I64 => 19,
        TokenType::U8 => 20,
        TokenType::U16 => 21,
        TokenType::U32 => 22,
        TokenType::U64 => 23,
        TokenType::F32 => 24,
        TokenType::F64 => 25,
        TokenType::Bool => 26,
        TokenType::Void => 27,
        TokenType::String => 28,
        TokenType::True => 29,
        TokenType::False => 30,
        TokenType::Identifier(_) => 31,
        TokenType::IntLiteral(_) => 32,
        TokenType::FloatLiteral(_) => 33,
        TokenType::StringLiteral(_) => 34,
        TokenType::Plus => 35,
        TokenType::Minus => 36,
        TokenType::Star => 37,
        TokenType::Slash => 38,
        TokenType::Percent => 39,
        TokenType::EqualEqual => 40,
        TokenType::BangEqual => 41,
        TokenType::Less => 42,
        TokenType::Greater => 43,
        TokenType::LessEqual => 44,
        TokenType::GreaterEqual => 45,
        TokenType::AmpAmp => 46,
        TokenType::PipePipe => 47,
        TokenType::Bang => 48,
        TokenType::Amp => 49,
        TokenType::Equal => 50,
        TokenType::LeftParen => 51,
        TokenType::RightParen => 52,
        TokenType::LeftBrace => 53,
        TokenType::RightBrace => 54,
        TokenType::LeftBracket => 55,
        TokenType::RightBracket => 56,
        TokenType::Arrow => 57,
        TokenType::LeftArrow => 58,
        TokenType::DotDot => 59,
        TokenType::Dot => 60,
        TokenType::ColonColon => 61,
        TokenType::Colon => 62,
        TokenType::Semicolon => 63,
        TokenType::Comma => 64,
        TokenType::Eof => 65,
    }
}
/// Whether two token kinds are the same, ignoring the text that a kind carries.
pub fn same_kind(a: &TokenType, b: &TokenType) -> (r: bool)
    ensures
        r == (kind_index(a@) == kind_index(b@)),
{
    token_kind_index(a) == token_kind_index(b)
}

/// A token: its kind, the source text it was made from, and where scanning stood after it.
#[derive(Debug, Clone)]
pub struct Token {
    pub token_type: TokenType,
    pub lexeme: String,
    pub line: usize,
    pub column: usize,
}

/// The mathematical image of a `Token`.
pub struct TokenView {
    pub kind: TokenKind,
    pub lexeme: Seq<char>,
    pub line: nat,
    pub column: nat,
}

impl View for Token {
    type V = TokenView;

    open spec fn view(&self) -> TokenView {
        TokenView {
            kind: self.token_type@,
            lexeme: self.lexeme@,
            line: self.line as nat,
            column: self.column as nat,
        }
    }
}

impl Token {
    pub fn new(token_type: TokenType, lexeme: String, line: usize, column: usize) -> (t: Token)
        ensures
            t.token_type == token_type,
            t.lexeme == lexeme,
            t.line == line,
            t.column == column,
    {
        Token { token_type, lexeme, line, column }
    }
}

} // verus!
