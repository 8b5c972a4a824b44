use vstd::prelude::*;

verus! {

/// The kinds of token that the scanner produces.
#[derive(Clone, Copy, Debug, PartialEq, Eq, Structural)]
pub enum TokenType {
    // Single-character tokens
    LeftParen,
    RightParen,
    LeftBrace,
    RightBrace,
    Comma,
    DOT,
    MINUS,
    PLUS,
    SemiColon,
    SLASH,
    STAR,
    // One or two character tokens
    BANG,
    BangEqual,
    EQUAL,
    EqualEqual,
    GREATER,
    GreatEqual,
    LESS,
    LessEqual,
    // Literals
    IDENTIFIER,
    STRING,
    NUMBER,
    // Keywords
    AND,
    CLASS,
    ELSE,
    FALSE,
    FUN,
    FOR,
    IF,
    NIL,
    OR,
    PRINT,
    RETURN,
    SUPER,
    THIS,
    TRUE,
    VAR,
    While,
    // End of input
    EOF,
}

/// The value a token carries.
///
/// A `Number` holds the numeral as it was written. The scanner only emits one
/// whose text is a decimal numeral that reads as a finite 64-bit float; that
/// conversion happens where the value is used.
#[derive(Clone, Debug, PartialEq, Eq)]
pub enum Literal {
    /// A name: function names, variables and the like.
    Identifier(String),
    /// A string value, or a run that looked like a number but is not one.
    Str(String),
    /// A numeral.
    Number(String),
}

/// What a literal means, over character sequences.
pub enum LiteralModel {
    Identifier(Seq<char>),
    Str(Seq<char>),
    Number(Seq<char>),
}

impl View for Literal {
    type V = LiteralModel;

    open spec fn view(&self) -> LiteralModel {
        match self {
            Literal::Identifier(s) => LiteralModel::Identifier(s@),
            Literal::Str(s) => LiteralModel::Str(s@),
            Literal::Number(s) => LiteralModel::Number(s@),
        }
    }
}

/// One token of the source text.
#[derive(Clone, Debug, PartialEq, Eq)]
pub struct Token {
    /// The kind of token.
    pub token_type: TokenType,
    /// The characters the token was built from, where it keeps them.
    pub lexeme: Option<Vec<char>>,
    /// The value the token carries, if any.
    pub literal: Option<Literal>,
    /// The line on which the token starts, counting from 0.
    pub line: usize,
}

/// What a token means, over mathematical values.
pub struct TokenModel {
    pub kind: TokenType,
    pub lexeme: Option<Seq<char>>,
    pub literal: Option<LiteralModel>,
    pub line: nat,
}

pub open spec fn chars_model(v: Option<Vec<char>>) -> Option<Seq<char>> {
    match v {
        Some(v) => Some(v@),
        None => None,
    }
}

pub open spec fn literal_model(l: Option<Literal>) -> Option<LiteralModel> {
    match l {
        Some(l) => Some(l@),
        None => None,
    }
}

impl View for Token {
    type V = TokenModel;

    open spec fn view(&self) -> TokenModel {
        TokenModel {
            kind: self.token_type,
            lexeme: chars_model(self.lexeme),
            literal: literal_model(self.literal),
            line: self.line as nat,
        }
    }
}

/// The models of a sequence of tokens.
pub open spec fn token_models(ts: Seq<Token>) -> Seq<TokenModel> {
    ts.map_values(|t: Token| t@)
}

/// A token that keeps neither lexeme nor literal.
pub open spec fn bare_token(kind: TokenType, line: nat) -> TokenModel {
    TokenModel { kind, lexeme: None, literal: None, line }
}

impl Token {
    /// Builds a token from its parts.
    pub fn new(
        token_type: TokenType,
        lexeme: Option<Vec<char>>,
        literal: Option<Literal>,
        line: usize,
    ) -> (r: Self)
        ensures
            r.token_type == token_type,
            r.lexeme == lexeme,
            r.literal == literal,
            r.line == line,
    {
        Token { token_type, lexeme, literal, line }
    }

    /// A token of the given kind on line 0, with neither lexeme nor literal.
    pub fn new_token(token_type: TokenType) -> (r: Self)
        ensures
            r@ == bare_token(token_type, 0),
    {
        Token::new(token_type, None, None, 0)
    }
}

} // verus!
