use vstd::prelude::*;

verus! {

/// The lexical category of a token. The text of identifiers, string literals
/// and number literals is carried by the token's lexeme.
#[derive(Debug, Clone, Copy, PartialEq, Eq, Structural)]
pub enum TokenType {
    LeftParen,
    RightParen,
    LeftBrace,
    RightBrace,
    Comma,
    Dot,
    Minus,
    Plus,
    Semicolon,
    Slash,
    Star,
    Bang,
    BangEqual,
    Equal,
    EqualEqual,
    Greater,
    GreaterEqual,
    Less,
    LessEqual,
    Id,
    String,
    Number,
    And,
    Class,
    Else,
    False,
    Fn,
    For,
    If,
    Nil,
    Or,
    Print,
    Return,
    Super,
    This,
    True,
    Var,
    While,
    Eof,
}

/// A token: its kind, the text it was scanned from (for a string literal, the
/// text between the quotes) and the line it ends on.
#[derive(Debug, Clone)]
pub struct Token {
    pub ty: TokenType,
    pub lexeme: String,
    pub ln: usize,
}

/// The mathematical model of a token.
pub struct TokenView {
    pub ty: TokenType,
    pub lexeme: Seq<char>,
    pub ln: nat,
}

impl View for Token {
    type V = TokenView;

    open spec fn view(&self) -> TokenView {
        TokenView { ty: self.ty, lexeme: self.lexeme@, ln: self.ln as nat }
    }
}

pub open spec fn tokens_view(ts: Seq<Token>) -> Seq<TokenView> {
    ts.map_values(|t: Token| t@)
}

impl Token {
    pub fn new(ty: TokenType, lexeme: String, ln: usize) -> (r: Self)
        ensures
            r.ty == ty,
            r.lexeme@ == lexeme@,
            r.ln == ln,
    {
        Token { ty, lexeme, ln }
    }

    /// A copy of the token.
    pub fn duplicate(&self) -> (r: Self)
        ensures
            r@ == self@,
    {
        Token { ty: self.ty, lexeme: self.lexeme.clone(), ln: self.ln }
    }
}

} // verus!
