use vstd::prelude::*;

verus! {

/// A place in the source text: 1-based line and column, plus the name of
/// the file the text came from. Attached to every token and carried into
/// error values for diagnostics.
#[derive(Debug, PartialEq)]
pub struct Loc {
    pub file: String,
    pub line: usize,
    pub col: usize,
}

/// Mathematical image of a `Loc`.
pub ghost struct LocV {
    pub file: Seq<char>,
    pub line: nat,
    pub col: nat,
}

impl View for Loc {
    type V = LocV;

    open spec fn view(&self) -> LocV {
        LocV { file: self.file@, line: self.line as nat, col: self.col as nat }
    }
}

impl Loc {
    /// Builds a location from the scanner's 0-based counters; the stored
    /// line and column are 1-based.
    pub fn new(file: String, line: usize, col: usize) -> (r: Self)
        requires
            line < usize::MAX,
            col < usize::MAX,
        ensures
            r@ == (LocV { file: file@, line: (line + 1) as nat, col: (col + 1) as nat }),
    {
        Self { file, line: line + 1, col: col + 1 }
    }
}

impl Clone for Loc {
    fn clone(&self) -> (r: Self)
        ensures
            r == *self,
    {
        Loc { file: self.file.clone(), line: self.line, col: self.col }
    }
}

/// The two builtin functions callable from source.
#[derive(Debug, Clone, Copy, PartialEq, Eq, Structural)]
pub enum BIn {
    Println,
    Abs,
}

/// The keywords of the language.
#[derive(Debug, Clone, Copy, PartialEq, Eq, Structural)]
pub enum Kw {
    Let,
}

/// The lexical alphabet. A numeric literal is an IEEE-754 double, carried
/// as its bit pattern.
#[derive(Debug)]
pub enum TokenType {
    Ident(String),
    Builtin(BIn),
    NumLit(u64),
    Keyword(Kw),
    Assign,
    OpPlus,
    OpMinus,
    OpStar,
    OpSlash,
    ParenLeft,
    ParenRight,
    Semicolon,
    Eof,
}

/// Mathematical image of a `TokenType`.
pub ghost enum TokenTypeV {
    Ident(Seq<char>),
    Builtin(BIn),
    NumLit(u64),
    Keyword(Kw),
    Assign,
    OpPlus,
    OpMinus,
    OpStar,
    OpSlash,
    ParenLeft,
    ParenRight,
    Semicolon,
    Eof,
}

impl View for TokenType {
    type V = TokenTypeV;

    open spec fn view(&self) -> TokenTypeV {
        match self {
            TokenType::Ident(name) => TokenTypeV::Ident(name@),
            TokenType::Builtin(b) => TokenTypeV::Builtin(*b),
            TokenType::NumLit(v) => TokenTypeV::NumLit(*v),
            TokenType::Keyword(k) => TokenTypeV::Keyword(*k),
            TokenType::Assign => TokenTypeV::Assign,
            TokenType::OpPlus => TokenTypeV::OpPlus,
            TokenType::OpMinus => TokenTypeV::OpMinus,
            TokenType::OpStar => TokenTypeV::OpStar,
            TokenType::OpSlash => TokenTypeV::OpSlash,
            TokenType::ParenLeft => TokenTypeV::ParenLeft,
            TokenType::ParenRight => TokenTypeV::ParenRight,
            TokenType::Semicolon => TokenTypeV::Semicolon,
            TokenType::Eof => TokenTypeV::Eof,
        }
    }
}

impl Clone for TokenType {
    fn clone(&self) -> (r: Self)
        ensures
            r@ == self@,
    {
        match self {
            TokenType::Ident(name) => TokenType::Ident(name.clone()),
            TokenType::Builtin(b) => TokenType::Builtin(*b),
            TokenType::NumLit(v) => TokenType::NumLit(*v),
            TokenType::Keyword(k) => TokenType::Keyword(*k),
            TokenType::Assign => TokenType::Assign,
            TokenType::OpPlus => TokenType::OpPlus,
            TokenType::OpMinus => TokenType::OpMinus,
            TokenType::OpStar => TokenType::OpStar,
            TokenType::OpSlash => TokenType::OpSlash,
            TokenType::ParenLeft => TokenType::ParenLeft,
            TokenType::ParenRight => TokenType::ParenRight,
            TokenType::Semicolon => TokenType::Semicolon,
            TokenType::Eof => TokenType::Eof,
        }
    }
}

impl PartialEq for TokenType {
    fn eq(&self, other: &Self) -> (r: bool)
        ensures
            r == (self@ == other@),
    {
        match self {
            TokenType::Ident(a) => match other {
                TokenType::Ident(b) => *a == *b,
                _ => false,
            },
            TokenType::Builtin(a) => match other {
                TokenType::Builtin(b) => a == b,
                _ => false,
            },
            TokenType::NumLit(a) => match other {
                TokenType::NumLit(b) => a == b,
                _ => false,
            },
            TokenType::Keyword(a) => match other {
                TokenType::Keyword(b) => a == b,
                _ => false,
            },
            TokenType::Assign => matches!(other, TokenType::Assign),
            TokenType::OpPlus => matches!(other, TokenType::OpPlus),
            TokenType::OpMinus => matches!(other, TokenType::OpMinus),
            TokenType::OpStar => matches!(other, TokenType::OpStar),
            TokenType::OpSlash => matches!(other, TokenType::OpSlash),
            TokenType::ParenLeft => matches!(other, TokenType::ParenLeft),
            TokenType::ParenRight => matches!(other, TokenType::ParenRight),
            TokenType::Semicolon => matches!(other, TokenType::Semicolon),
            TokenType::Eof => matches!(other, TokenType::Eof),
        }
    }
}

impl vstd::std_specs::cmp::PartialEqSpecImpl for TokenType {
    open spec fn obeys_eq_spec() -> bool {
        true
    }

    open spec fn eq_spec(&self, other: &Self) -> bool {
        self@ == other@
    }
}

/// One token: its kind and where it starts in the source.
#[derive(Debug, PartialEq)]
pub struct Token {
    pub ttype: TokenType,
    pub loc: Loc,
}

/// Mathematical image of a `Token`.
pub ghost struct TokenV {
    pub ttype: TokenTypeV,
    pub loc: LocV,
}

impl View for Token {
    type V = TokenV;

    open spec fn view(&self) -> TokenV {
        TokenV { ttype: self.ttype@, loc: self.loc@ }
    }
}

impl Token {
    pub fn new(ttype: TokenType, loc: Loc) -> (r: Self)
        ensures
            r@ == (TokenV { ttype: ttype@, loc: loc@ }),
    {
        Self { ttype, loc }
    }
}

impl Clone for Token {
    fn clone(&self) -> (r: Self)
        ensures
            r@ == self@,
    {
        Token { ttype: self.ttype.clone(), loc: self.loc.clone() }
    }
}

/// The view of a whole token list.
pub open spec fn tokens_view(tokens: Seq<Token>) -> Seq<TokenV> {
    tokens.map_values(|t: Token| t@)
}

} // verus!
