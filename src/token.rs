use vstd::prelude::*;
use crate::text::{chars_are, string_from_chars};

verus! {

/// The tokens that lexing produces: the lexical categories of the language.
#[derive(Debug, Clone)]
pub enum Token {
    /// A character that starts no token of the language.
    Illegal,
    /// The end of the input.
    EndOfFile,
    /// A real number, kept as the text of its literal (digits and one `.`).
    Real(String),
    /// A non-negative integer.
    NNInteger(i32),
    /// An identifier.
    Id(String),
    /// The version header keyword `OPENQASM`.
    OpenQASM,
    /// `;`
    Semicolon,
    /// `,`
    Comma,
    /// `(`
    LParen,
    /// `[`
    LSParen,
    /// `{`
    LCParen,
    /// `)`
    RParen,
    /// `]`
    RSParen,
    /// `}`
    RCParen,
    /// `->`
    Arrow,
    /// `==`
    Equals,
    /// `+`
    Plus,
    /// `-`
    Minus,
    /// `*`
    Times,
    /// `/`
    Divide,
    /// `^`
    Power,
    /// The unary function `sin`.
    Sin,
    /// The unary function `cos`.
    Cos,
    /// The unary function `tan`.
    Tan,
    /// The unary function `exp`.
    Exp,
    /// The unary function `ln` (natural logarithm).
    Ln,
    /// The unary function `sqrt`.
    Sqrt,
    /// The constant `pi`.
    Pi,
    /// The keyword `qreg`.
    QReg,
    /// The keyword `creg`.
    CReg,
    /// The keyword `barrier`.
    Barrier,
    /// The keyword `gate`.
    Gate,
    /// The keyword `measure`.
    Measure,
    /// The keyword `reset`.
    Reset,
    /// The keyword `include`.
    Include,
    /// The keyword `opaque`.
    Opaque,
    /// The keyword `if`.
    If,
}

/// The mathematical value of a [`Token`]: the same variants, with the text of
/// a literal as a sequence of characters.
pub enum SpecToken {
    Illegal,
    EndOfFile,
    Real(Seq<char>),
    NNInteger(i32),
    Id(Seq<char>),
    OpenQASM,
    Semicolon,
    Comma,
    LParen,
    LSParen,
    LCParen,
    RParen,
    RSParen,
    RCParen,
    Arrow,
    Equals,
    Plus,
    Minus,
    Times,
    Divide,
    Power,
    Sin,
    Cos,
    Tan,
    Exp,
    Ln,
    Sqrt,
    Pi,
    QReg,
    CReg,
    Barrier,
    Gate,
    Measure,
    Reset,
    Include,
    Opaque,
    If,
}

impl View for Token {
    type V = SpecToken;

    open spec fn view(&self) -> SpecToken {
        match self {
            Token::Illegal => SpecToken::Illegal,
            Token::EndOfFile => SpecToken::EndOfFile,
            Token::Real(text) => SpecToken::Real(text@),
            Token::NNInteger(n) => SpecToken::NNInteger(*n),
            Token::Id(name) => SpecToken::Id(name@),
            Token::OpenQASM => SpecToken::OpenQASM,
            Token::Semicolon => SpecToken::Semicolon,
            Token::Comma => SpecToken::Comma,
            Token::LParen => SpecToken::LParen,
            Token::LSParen => SpecToken::LSParen,
            Token::LCParen => SpecToken::LCParen,
            Token::RParen => SpecToken::RParen,
            Token::RSParen => SpecToken::RSParen,
            Token::RCParen => SpecToken::RCParen,
            Token::Arrow => SpecToken::Arrow,
            Token::Equals => SpecToken::Equals,
            Token::Plus => SpecToken::Plus,
            Token::Minus => SpecToken::Minus,
            Token::Times => SpecToken::Times,
            Token::Divide => SpecToken::Divide,
            Token::Power => SpecToken::Power,
            Token::Sin => SpecToken::Sin,
            Token::Cos => SpecToken::Cos,
            Token::Tan => SpecToken::Tan,
            Token::Exp => SpecToken::Exp,
            Token::Ln => SpecToken::Ln,
            Token::Sqrt => SpecToken::Sqrt,
            Token::Pi => SpecToken::Pi,
            Token::QReg => SpecToken::QReg,
            Token::CReg => SpecToken::CReg,
            Token::Barrier => SpecToken::Barrier,
            Token::Gate => SpecToken::Gate,
            Token::Measure => SpecToken::Measure,
            Token::Reset => SpecToken::Reset,
            Token::Include => SpecToken::Include,
            Token::Opaque => SpecToken::Opaque,
            Token::If => SpecToken::If,
        }
    }
}

impl PartialEq for Token {
    fn eq(&self, other: &Token) -> (r: bool)
        ensures
            r == (self@ == other@),
    {
        match (self, other) {
            (Token::Real(a), Token::Real(b)) => *a == *b,
            (Token::NNInteger(a), Token::NNInteger(b)) => *a == *b,
            (Token::Id(a), Token::Id(b)) => *a == *b,
            (Token::Illegal, Token::Illegal) => true,
            (Token::EndOfFile, Token::EndOfFile) => true,
            (Token::OpenQASM, Token::OpenQASM) => true,
            (Token::Semicolon, Token::Semicolon) => true,
            (Token::Comma, Token::Comma) => true,
            (Token::LParen, Token::LParen) => true,
            (Token::LSParen, Token::LSParen) => true,
            (Token::LCParen, Token::LCParen) => true,
            (Token::RParen, Token::RParen) => true,
            (Token::RSParen, Token::RSParen) => true,
            (Token::RCParen, Token::RCParen) => true,
            (Token::Arrow, Token::Arrow) => true,
            (Token::Equals, Token::Equals) => true,
            (Token::Plus, Token::Plus) => true,
            (Token::Minus, Token::Minus) => true,
            (Token::Times, Token::Times) => true,
            (Token::Divide, Token::Divide) => true,
            (Token::Power, Token::Power) => true,
            (Token::Sin, Token::Sin) => true,
            (Token::Cos, Token::Cos) => true,
            (Token::Tan, Token::Tan) => true,
            (Token::Exp, Token::Exp) => true,
            (Token::Ln, Token::Ln) => true,
            (Token::Sqrt, Token::Sqrt) => true,
            (Token::Pi, Token::Pi) => true,
            (Token::QReg, Token::QReg) => true,
            (Token::CReg, Token::CReg) => true,
            (Token::Barrier, Token::Barrier) => true,
            (Token::Gate, Token::Gate) => true,
            (Token::Measure, Token::Measure) => true,
            (Token::Reset, Token::Reset) => true,
            (Token::Include, Token::Include) => true,
            (Token::Opaque, Token::Opaque) => true,
            (Token::If, Token::If) => true,
            _ => false,
        }
    }
}

impl vstd::std_specs::cmp::PartialEqSpecImpl for Token {
    open spec fn obeys_eq_spec() -> bool {
        true
    }

    open spec fn eq_spec(&self, other: &Token) -> bool {
        self@ == other@
    }
}

/// The views of a sequence of tokens.
pub open spec fn tokens_view(v: Seq<Token>) -> Seq<SpecToken> {
    v.map_values(|t: Token| t@)
}

impl Default for Token {
    /// The illegal token.
    fn default() -> (r: Token)
        ensures
            r == Token::Illegal,
    {
        Token::Illegal
    }
}

/// The token for an identifier-shaped word: its keyword if it is one, else
/// an identifier carrying the word.
pub open spec fn keyword(w: Seq<char>) -> SpecToken {
    if w == "qreg"@ {
        SpecToken::QReg
    } else if w == "creg"@ {
        SpecToken::CReg
    } else if w == "barrier"@ {
        SpecToken::Barrier
    } else if w == "gate"@ {
        SpecToken::Gate
    } else if w == "measure"@ {
        SpecToken::Measure
    } else if w == "reset"@ {
        SpecToken::Reset
    } else if w == "include"@ {
        SpecToken::Include
    } else if w == "opaque"@ {
        SpecToken::Opaque
    } else if w == "if"@ {
        SpecToken::If
    } else if w == "sin"@ {
        SpecToken::Sin
    } else if w == "cos"@ {
        SpecToken::Cos
    } else if w == "tan"@ {
        SpecToken::Tan
    } else if w == "exp"@ {
        SpecToken::Exp
    } else if w == "ln"@ {
        SpecToken::Ln
    } else if w == "sqrt"@ {
        SpecToken::Sqrt
    } else if w == "pi"@ {
        SpecToken::Pi
    } else if w == "OPENQASM"@ {
        SpecToken::OpenQASM
    } else {
        SpecToken::Id(w)
    }
}

/// The token for the word held in `w` (see [`keyword`]).
pub fn lookup_chars(w: &[char]) -> (r: Token)
    ensures
        r@ == keyword(w@),
{
    if chars_are(w, "qreg") {
        Token::QReg
    } else if chars_are(w, "creg") {
        Token::CReg
    } else if chars_are(w, "barrier") {
        Token::Barrier
    } else if chars_are(w, "gate") {
        Token::Gate
    } else if chars_are(w, "measure") {
        Token::Measure
    } else if chars_are(w, "reset") {
        Token::Reset
    } else if chars_are(w, "include") {
        Token::Include
    } else if chars_are(w, "opaque") {
        Token::Opaque
    } else if chars_are(w, "if") {
        Token::If
    } else if chars_are(w, "sin") {
        Token::Sin
    } else if chars_are(w, "cos") {
        Token::Cos
    } else if chars_are(w, "tan") {
        Token::Tan
    } else if chars_are(w, "exp") {
        Token::Exp
    } else if chars_are(w, "ln") {
        Token::Ln
    } else if chars_are(w, "sqrt") {
        Token::Sqrt
    } else if chars_are(w, "pi") {
        Token::Pi
    } else if chars_are(w, "OPENQASM") {
        Token::OpenQASM
    } else {
        Token::Id(string_from_chars(w))
    }
}

/// The token for the identifier-shaped word `ident`: its keyword if it is
/// one (case-sensitive), else `Id` carrying the word.
pub fn lookup_ident(ident: &str) -> (r: Token)
    ensures
        r@ == keyword(ident@),
{
    let w = chars_of(ident);
    lookup_chars(w.as_slice())
}

/// The characters of `s`, in order.
pub fn chars_of(s: &str) -> (r: Vec<char>)
    ensures
        r@ == s@,
{
    let mut v: Vec<char> = Vec::new();
    for c in it: s.chars()
        invariant
            v@ == it.seq().take(it.index() as int),
    {
        v.push(c);
    }
    v
}

} // verus!
