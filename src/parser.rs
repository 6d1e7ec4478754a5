//! Recursive-descent parsing of a token sequence, one function per rule of
//! the grammar.
//!
//! Each rule is stated as a spec function over the token sequence and a
//! position in it, which gives the value read and the position after it, or
//! the error; the executable function of the same rule reads a
//! [`TokenStream`] and is proved to agree with it.
use vstd::prelude::*;
use crate::ast::{
    Argument, AstNode, SpecArgument, SpecNode, arguments_view, node_view, nodes_view, strings_view,
};
use crate::error::Error;
use crate::text::string_from_chars;
use crate::token::{SpecToken, Token, chars_of, tokens_view};

verus! {

/// A cursor over a slice of tokens: the parser reads them front to back,
/// each once.
pub struct TokenStream<'a> {
    tokens: &'a [Token],
    pos: usize,
}

impl<'a> TokenStream<'a> {
    #[verifier::type_invariant]
    closed spec fn inv(&self) -> bool {
        self.pos <= self.tokens@.len()
    }

    /// The views of all the tokens of the stream, read or not.
    pub closed spec fn toks(&self) -> Seq<SpecToken> {
        tokens_view(self.tokens@)
    }

    /// The position of the next token to read.
    pub closed spec fn pos(&self) -> int {
        self.pos as int
    }

    /// A stream at the first of `tokens`.
    pub fn new(tokens: &'a [Token]) -> (r: TokenStream<'a>)
        ensures
            r.toks() == tokens_view(tokens@),
            r.pos() == 0,
    {
        TokenStream { tokens, pos: 0 }
    }

    /// Whether every token has been read.
    pub fn is_empty(&self) -> (r: bool)
        ensures
            r == (at(self.toks(), self.pos()) is None),
            0 <= self.pos() <= self.toks().len() <= usize::MAX,
    {
        proof {
            use_type_invariant(self);
        }
        self.pos >= self.tokens.len()
    }

    /// The next token, without reading it.
    pub fn peek(&self) -> (r: Option<&'a Token>)
        ensures
            0 <= self.pos() <= self.toks().len() <= usize::MAX,
            match at(self.toks(), self.pos()) {
                None => r is None,
                Some(k) => r is Some && r->0@ == k,
            },
    {
        proof {
            use_type_invariant(self);
        }
        if self.pos < self.tokens.len() {
            Some(&self.tokens[self.pos])
        } else {
            None
        }
    }

    /// Reads the next token.
    pub fn next(&mut self) -> (r: Option<&'a Token>)
        ensures
            final(self).toks() == old(self).toks(),
            0 <= final(self).pos() <= final(self).toks().len() <= usize::MAX,
            match at(old(self).toks(), old(self).pos()) {
                None => r is None && final(self).pos() == old(self).pos(),
                Some(k) => r is Some && r->0@ == k && final(self).pos() == old(self).pos() + 1,
            },
    {
        proof {
            use_type_invariant(&*self);
        }
        if self.pos < self.tokens.len() {
            let t = &self.tokens[self.pos];
            self.pos = self.pos + 1;
            Some(t)
        } else {
            None
        }
    }
}

/// The token at position `i` of `t`, if there is one.
pub open spec fn at(t: Seq<SpecToken>, i: int) -> Option<SpecToken> {
    if 0 <= i < t.len() {
        Some(t[i])
    } else {
        None
    }
}

/// The stream `s` is `s0` with zero or more further tokens read.
pub open spec fn moved_on(s0: TokenStream, s: TokenStream) -> bool {
    s.toks() == s0.toks() && s0.pos() <= s.pos() <= s.toks().len()
}

/// `r` is what `spec` says of a rule that gives no value: on success the
/// stream `s` stands at the position it gives.
pub open spec fn gives_unit(r: Result<(), Error>, spec: Result<int, Error>, s: TokenStream) -> bool {
    match spec {
        Ok(j) => r is Ok && s.pos() == j,
        Err(e) => r == Err::<(), Error>(e),
    }
}

/// `r` is what `spec` says of a rule that reads a string.
pub open spec fn gives_string(
    r: Result<String, Error>,
    spec: Result<(Seq<char>, int), Error>,
    s: TokenStream,
) -> bool {
    match spec {
        Ok((v, j)) => r is Ok && r->Ok_0@ == v && s.pos() == j,
        Err(e) => r is Err && r->Err_0 == e,
    }
}

/// `r` is what `spec` says of a rule that reads an integer.
pub open spec fn gives_int(r: Result<i32, Error>, spec: Result<(i32, int), Error>, s: TokenStream) -> bool {
    match spec {
        Ok((v, j)) => r == Ok::<i32, Error>(v) && s.pos() == j,
        Err(e) => r == Err::<i32, Error>(e),
    }
}

/// `r` is what `spec` says of a rule that reads an argument.
pub open spec fn gives_argument(
    r: Result<Argument, Error>,
    spec: Result<(SpecArgument, int), Error>,
    s: TokenStream,
) -> bool {
    match spec {
        Ok((v, j)) => r is Ok && r->Ok_0@ == v && s.pos() == j,
        Err(e) => r is Err && r->Err_0 == e,
    }
}

/// `r` is what `spec` says of a rule that reads a list of arguments.
pub open spec fn gives_arguments(
    r: Result<Vec<Argument>, Error>,
    spec: Result<(Seq<SpecArgument>, int), Error>,
    s: TokenStream,
) -> bool {
    match spec {
        Ok((v, j)) => r is Ok && arguments_view(r->Ok_0@) == v && s.pos() == j,
        Err(e) => r is Err && r->Err_0 == e,
    }
}

/// `r` is what `spec` says of a rule that reads a list of strings.
pub open spec fn gives_strings(
    r: Result<Vec<String>, Error>,
    spec: Result<(Seq<Seq<char>>, int), Error>,
    s: TokenStream,
) -> bool {
    match spec {
        Ok((v, j)) => r is Ok && strings_view(r->Ok_0@) == v && s.pos() == j,
        Err(e) => r is Err && r->Err_0 == e,
    }
}

/// `r` is what `spec` says of a rule that reads a statement.
pub open spec fn gives_node(r: Result<AstNode, Error>, spec: Result<(SpecNode, int), Error>, s: TokenStream) -> bool {
    match spec {
        Ok((v, j)) => r is Ok && r->Ok_0@ == v && s.pos() == j,
        Err(e) => r is Err && r->Err_0 == e,
    }
}

/// `r` is what `spec` says of a rule that reads a list of statements.
pub open spec fn gives_nodes(
    r: Result<Vec<AstNode>, Error>,
    spec: Result<(Seq<SpecNode>, int), Error>,
    s: TokenStream,
) -> bool {
    match spec {
        Ok((v, j)) => r is Ok && nodes_view(r->Ok_0@) == v && s.pos() == j,
        Err(e) => r is Err && r->Err_0 == e,
    }
}

/// A real number: its text.
pub open spec fn spec_real(t: Seq<SpecToken>, i: int) -> Result<(Seq<char>, int), Error> {
    match at(t, i) {
        None => Err(Error::SourceError),
        Some(SpecToken::Real(x)) => Ok((x, i + 1)),
        Some(_) => Err(Error::MissingReal),
    }
}

/// A non-negative integer.
pub open spec fn spec_nninteger(t: Seq<SpecToken>, i: int) -> Result<(i32, int), Error> {
    match at(t, i) {
        None => Err(Error::SourceError),
        Some(SpecToken::NNInteger(n)) => Ok((n, i + 1)),
        Some(_) => Err(Error::MissingInt),
    }
}

/// An identifier.
pub open spec fn spec_identifier(t: Seq<SpecToken>, i: int) -> Result<(Seq<char>, int), Error> {
    match at(t, i) {
        None => Err(Error::SourceError),
        Some(SpecToken::Id(x)) => Ok((x, i + 1)),
        Some(_) => Err(Error::MissingIdentifier),
    }
}

/// The token `k`.
pub open spec fn spec_token(t: Seq<SpecToken>, i: int, k: SpecToken) -> Result<int, Error> {
    if at(t, i) == Some(k) {
        Ok(i + 1)
    } else {
        Err(Error::SourceError)
    }
}

/// A semicolon.
pub open spec fn spec_semicolon(t: Seq<SpecToken>, i: int) -> Result<int, Error> {
    match at(t, i) {
        None => Err(Error::SourceError),
        Some(SpecToken::Semicolon) => Ok(i + 1),
        Some(_) => Err(Error::MissingSemicolon),
    }
}

/// An argument: `id [ int ]` is a qubit, a bare `id` a register.
pub open spec fn spec_argument(t: Seq<SpecToken>, i: int) -> Result<(SpecArgument, int), Error> {
    match spec_identifier(t, i) {
        Err(e) => Err(e),
        Ok((name, j)) => if at(t, j) == Some(SpecToken::LSParen) {
            match spec_nninteger(t, j + 1) {
                Err(e) => Err(e),
                Ok((n, k)) => match spec_token(t, k, SpecToken::RSParen) {
                    Err(e) => Err(e),
                    Ok(m) => Ok((SpecArgument::Qubit(name, n), m)),
                },
            }
        } else {
            Ok((SpecArgument::Register(name), j))
        },
    }
}

/// `head` followed by the elements that `rest` gives, or the error of `rest`.
pub open spec fn prepend<A>(head: Seq<A>, rest: Result<(Seq<A>, int), Error>) -> Result<
    (Seq<A>, int),
    Error,
> {
    match rest {
        Ok((tail, j)) => Ok((head + tail, j)),
        Err(e) => Err(e),
    }
}

/// One or more arguments, separated by commas.
pub open spec fn spec_argument_list(t: Seq<SpecToken>, i: int) -> Result<
    (Seq<SpecArgument>, int),
    Error,
>
    decreases t.len() - i,
{
    match spec_argument(t, i) {
        Err(e) => Err(e),
        Ok((a, j)) => if at(t, j) == Some(SpecToken::Comma) {
            prepend(seq![a], spec_argument_list(t, j + 1))
        } else {
            Ok((seq![a], j))
        },
    }
}

/// One or more identifiers, separated by commas.
pub open spec fn spec_id_list(t: Seq<SpecToken>, i: int) -> Result<(Seq<Seq<char>>, int), Error>
    decreases t.len() - i,
{
    match spec_identifier(t, i) {
        Err(e) => Err(e),
        Ok((a, j)) => if at(t, j) == Some(SpecToken::Comma) {
            prepend(seq![a], spec_id_list(t, j + 1))
        } else {
            Ok((seq![a], j))
        },
    }
}

/// The character of the decimal digit `d`.
pub open spec fn digit_char(d: int) -> char {
    ((d + 48) as u8) as char
}

/// The decimal digits of `n`, without leading zeros.
pub open spec fn decimal(n: nat) -> Seq<char>
    decreases n,
{
    if n < 10 {
        seq![digit_char(n as int)]
    } else {
        decimal(n / 10).push(digit_char(n as int % 10))
    }
}

/// The decimal text of `n`, with a leading `-` when it is negative.
pub open spec fn int_text(n: i32) -> Seq<char> {
    if n < 0 {
        seq!['-'] + decimal((-n) as nat)
    } else {
        decimal(n as nat)
    }
}

/// The text that a token contributes to a mathematical expression, if it
/// can stand in one: numbers, identifiers, `pi`, parentheses, the arithmetic
/// operators and the unary functions.
pub open spec fn math_text(k: SpecToken) -> Option<Seq<char>> {
    match k {
        SpecToken::Real(x) => Some(x),
        SpecToken::NNInteger(n) => Some(int_text(n)),
        SpecToken::Id(x) => Some(x),
        SpecToken::Pi => Some("pi"@),
        SpecToken::LParen => Some("("@),
        SpecToken::RParen => Some(")"@),
        SpecToken::Plus => Some("+"@),
        SpecToken::Minus => Some("-"@),
        SpecToken::Times => Some("*"@),
        SpecToken::Divide => Some("/"@),
        SpecToken::Power => Some("^"@),
        SpecToken::Sin => Some("sin"@),
        SpecToken::Cos => Some("cos"@),
        SpecToken::Tan => Some("tan"@),
        SpecToken::Exp => Some("exp"@),
        SpecToken::Ln => Some("ln"@),
        SpecToken::Sqrt => Some("sqrt"@),
        _ => None,
    }
}

/// The text of the expression that starts at `i` inside `depth` open
/// parentheses, and the position after it.
///
/// Each token's text is written with a space on either side. The expression
/// ends before the first token that cannot stand in one, and before a `)`
/// that closes no parenthesis opened within it.
pub open spec fn capture(t: Seq<SpecToken>, i: int, depth: int) -> (Seq<char>, int)
    decreases t.len() - i,
{
    match at(t, i) {
        None => (Seq::empty(), i),
        Some(k) => match math_text(k) {
            None => (Seq::empty(), i),
            Some(text) => if k == SpecToken::RParen && depth == 0 {
                (Seq::empty(), i)
            } else {
                let d = if k == SpecToken::LParen {
                    depth + 1
                } else if k == SpecToken::RParen {
                    depth - 1
                } else {
                    depth
                };
                let (rest, j) = capture(t, i + 1, d);
                (seq![' '] + text + seq![' '] + rest, j)
            },
        },
    }
}

pub proof fn lemma_capture_advances(t: Seq<SpecToken>, i: int, depth: int)
    ensures
        capture(t, i, depth).1 >= i,
        0 <= i <= t.len() ==> capture(t, i, depth).1 <= t.len(),
    decreases t.len() - i,
{
    match at(t, i) {
        None => {},
        Some(k) => match math_text(k) {
            None => {},
            Some(text) => if !(k == SpecToken::RParen && depth == 0) {
                let d = if k == SpecToken::LParen {
                    depth + 1
                } else if k == SpecToken::RParen {
                    depth - 1
                } else {
                    depth
                };
                lemma_capture_advances(t, i + 1, d);
            },
        },
    }
}

/// A mathematical expression, as text (see [`capture`]).
pub open spec fn spec_mathexpr(t: Seq<SpecToken>, i: int) -> Result<(Seq<char>, int), Error> {
    if at(t, i) is None {
        Err(Error::SourceError)
    } else {
        Ok(capture(t, i, 0))
    }
}

/// One or more mathematical expressions, separated by commas.
pub open spec fn spec_mathexpr_list(t: Seq<SpecToken>, i: int) -> Result<
    (Seq<Seq<char>>, int),
    Error,
>
    decreases t.len() - i,
{
    match spec_mathexpr(t, i) {
        Err(e) => Err(e),
        Ok((a, j)) => if at(t, j) == Some(SpecToken::Comma) {
            proof {
                lemma_capture_advances(t, i, 0);
            }
            prepend(seq![a], spec_mathexpr_list(t, j + 1))
        } else {
            Ok((seq![a], j))
        },
    }
}

pub proof fn lemma_argument_list_advances(t: Seq<SpecToken>, i: int)
    ensures
        spec_argument_list(t, i) is Ok ==> spec_argument_list(t, i)->Ok_0.1 > i,
        spec_argument_list(t, i) is Ok ==> spec_argument_list(t, i)->Ok_0.1 <= t.len(),
    decreases t.len() - i,
{
    if let Ok((a, j)) = spec_argument(t, i) {
        if at(t, j) == Some(SpecToken::Comma) {
            lemma_argument_list_advances(t, j + 1);
        }
    }
}

pub proof fn lemma_id_list_advances(t: Seq<SpecToken>, i: int)
    ensures
        spec_id_list(t, i) is Ok ==> spec_id_list(t, i)->Ok_0.1 > i,
        spec_id_list(t, i) is Ok ==> spec_id_list(t, i)->Ok_0.1 <= t.len(),
    decreases t.len() - i,
{
    if let Ok((a, j)) = spec_identifier(t, i) {
        if at(t, j) == Some(SpecToken::Comma) {
            lemma_id_list_advances(t, j + 1);
        }
    }
}

pub proof fn lemma_mathexpr_list_advances(t: Seq<SpecToken>, i: int)
    ensures
        spec_mathexpr_list(t, i) is Ok ==> spec_mathexpr_list(t, i)->Ok_0.1 >= i,
        spec_mathexpr_list(t, i) is Ok ==> spec_mathexpr_list(t, i)->Ok_0.1 <= t.len(),
    decreases t.len() - i,
{
    lemma_capture_advances(t, i, 0);
    if let Ok((a, j)) = spec_mathexpr(t, i) {
        if at(t, j) == Some(SpecToken::Comma) {
            lemma_mathexpr_list_advances(t, j + 1);
        }
    }
}

/// An optional parenthesized list of parameters, each read by `exprs`
/// (mathematical expressions) or else as an identifier: absent or `()` is
/// the empty list.
pub open spec fn spec_params(t: Seq<SpecToken>, i: int, exprs: bool) -> Result<
    (Seq<Seq<char>>, int),
    Error,
> {
    if at(t, i) == Some(SpecToken::LParen) {
        if at(t, i + 1) == Some(SpecToken::RParen) {
            Ok((Seq::empty(), i + 2))
        } else {
            let list = if exprs {
                spec_mathexpr_list(t, i + 1)
            } else {
                spec_id_list(t, i + 1)
            };
            match list {
                Err(e) => Err(e),
                Ok((ps, j)) => match spec_token(t, j, SpecToken::RParen) {
                    Err(e) => Err(e),
                    Ok(k) => Ok((ps, k)),
                },
            }
        }
    } else {
        Ok((Seq::empty(), i))
    }
}

pub proof fn lemma_params_advances(t: Seq<SpecToken>, i: int, exprs: bool)
    ensures
        spec_params(t, i, exprs) is Ok ==> spec_params(t, i, exprs)->Ok_0.1 >= i,
{
    lemma_mathexpr_list_advances(t, i + 1);
    lemma_id_list_advances(t, i + 1);
}

/// A gate application after its name `name`: optional expression
/// parameters, the arguments and a semicolon.
#[verifier::opaque]
pub open spec fn spec_application(t: Seq<SpecToken>, i: int, name: Seq<char>) -> Result<
    (SpecNode, int),
    Error,
> {
    match spec_params(t, i, true) {
        Err(e) => Err(e),
        Ok((ps, j)) => match spec_argument_list(t, j) {
            Err(e) => Err(e),
            Ok((args, k)) => match spec_semicolon(t, k) {
                Err(e) => Err(e),
                Ok(m) => Ok((SpecNode::ApplyGate(name, args, ps), m)),
            },
        },
    }
}

pub proof fn lemma_application_advances(t: Seq<SpecToken>, i: int, name: Seq<char>)
    ensures
        spec_application(t, i, name) is Ok ==> spec_application(t, i, name)->Ok_0.1 > i,
        spec_application(t, i, name) is Ok ==> spec_application(t, i, name)->Ok_0.1 <= t.len(),
{
    reveal(spec_application);
    lemma_params_advances(t, i, true);
    if let Ok((ps, j)) = spec_params(t, i, true) {
        lemma_argument_list_advances(t, j);
    }
}

/// An opaque gate declaration after `opaque`: the name, optional parameter
/// names, the arguments and a semicolon.
#[verifier::opaque]
pub open spec fn spec_opaque(t: Seq<SpecToken>, i: int) -> Result<(SpecNode, int), Error> {
    match spec_identifier(t, i) {
        Err(e) => Err(e),
        Ok((name, j)) => match spec_params(t, j, false) {
            Err(e) => Err(e),
            Ok((ps, k)) => match spec_argument_list(t, k) {
                Err(e) => Err(e),
                Ok((args, m)) => match spec_semicolon(t, m) {
                    Err(e) => Err(e),
                    Ok(n) => Ok((SpecNode::Opaque(name, args, ps), n)),
                },
            },
        },
    }
}

/// One or more gate applications, up to the first token that is not an
/// identifier.
pub open spec fn spec_application_list(t: Seq<SpecToken>, i: int) -> Result<
    (Seq<SpecNode>, int),
    Error,
>
    decreases t.len() - i,
{
    match spec_identifier(t, i) {
        Err(e) => Err(e),
        Ok((name, j)) => match spec_application(t, j, name) {
            Err(e) => Err(e),
            Ok((node, k)) => match at(t, k) {
                None => Err(Error::SourceError),
                Some(SpecToken::Id(_)) => {
                    proof {
                        lemma_application_advances(t, j, name);
                    }
                    prepend(seq![node], spec_application_list(t, k))
                },
                Some(_) => Ok((seq![node], k)),
            },
        },
    }
}

pub proof fn lemma_application_list_advances(t: Seq<SpecToken>, i: int)
    ensures
        spec_application_list(t, i) is Ok ==> spec_application_list(t, i)->Ok_0.1 > i,
        spec_application_list(t, i) is Ok ==> spec_application_list(t, i)->Ok_0.1 <= t.len(),
    decreases t.len() - i,
{
    if let Ok((name, j)) = spec_identifier(t, i) {
        lemma_application_advances(t, j, name);
        if let Ok((node, k)) = spec_application(t, j, name) {
            if let Some(SpecToken::Id(_)) = at(t, k) {
                lemma_application_list_advances(t, k);
            }
        }
    }
}

/// A gate definition after `gate`: the name, optional parameter names, the
/// qubit names, and a body of zero or more applications in braces.
#[verifier::opaque]
pub open spec fn spec_gate(t: Seq<SpecToken>, i: int) -> Result<(SpecNode, int), Error> {
    match spec_identifier(t, i) {
        Err(e) => Err(e),
        Ok((name, j)) => match spec_params(t, j, false) {
            Err(e) => Err(e),
            Ok((ps, k)) => match spec_id_list(t, k) {
                Err(e) => Err(e),
                Ok((qs, m)) => match spec_token(t, m, SpecToken::LCParen) {
                    Err(e) => Err(e),
                    Ok(n) => {
                        let body = match at(t, n) {
                            None => Err(Error::SourceError),
                            Some(SpecToken::RCParen) => Ok((Seq::empty(), n)),
                            Some(_) => spec_application_list(t, n),
                        };
                        match body {
                            Err(e) => Err(e),
                            Ok((apps, p)) => match spec_token(t, p, SpecToken::RCParen) {
                                Err(e) => Err(e),
                                Ok(q) => Ok((SpecNode::Gate(name, qs, ps, apps), q)),
                            },
                        }
                    },
                },
            },
        },
    }
}

/// A register declaration after `qreg` or `creg`: `id [ int ] ;`.
#[verifier::opaque]
pub open spec fn spec_register(t: Seq<SpecToken>, i: int) -> Result<(Seq<char>, i32, int), Error> {
    match spec_identifier(t, i) {
        Err(e) => Err(e),
        Ok((name, j)) => match spec_token(t, j, SpecToken::LSParen) {
            Err(e) => Err(e),
            Ok(k) => match spec_nninteger(t, k) {
                Err(e) => Err(e),
                Ok((n, m)) => match spec_token(t, m, SpecToken::RSParen) {
                    Err(e) => Err(e),
                    Ok(p) => match spec_semicolon(t, p) {
                        Err(e) => Err(e),
                        Ok(q) => Ok((name, n, q)),
                    },
                },
            },
        },
    }
}

/// An argument and a semicolon, as after `barrier` and `reset`.
#[verifier::opaque]
pub open spec fn spec_single(t: Seq<SpecToken>, i: int) -> Result<(SpecArgument, int), Error> {
    match spec_argument(t, i) {
        Err(e) => Err(e),
        Ok((a, j)) => match spec_semicolon(t, j) {
            Err(e) => Err(e),
            Ok(k) => Ok((a, k)),
        },
    }
}

/// A measurement after `measure`: `argument -> argument ;`.
#[verifier::opaque]
pub open spec fn spec_measure(t: Seq<SpecToken>, i: int) -> Result<(SpecNode, int), Error> {
    match spec_argument(t, i) {
        Err(e) => Err(e),
        Ok((a, j)) => match spec_token(t, j, SpecToken::Arrow) {
            Err(e) => Err(e),
            Ok(k) => match spec_argument(t, k) {
                Err(e) => Err(e),
                Ok((b, m)) => match spec_semicolon(t, m) {
                    Err(e) => Err(e),
                    Ok(n) => Ok((SpecNode::Measure(a, b), n)),
                },
            },
        },
    }
}

/// The condition of an `if`: `( id == int )`.
#[verifier::opaque]
pub open spec fn spec_condition(t: Seq<SpecToken>, i: int) -> Result<(Seq<char>, i32, int), Error> {
    match spec_token(t, i, SpecToken::LParen) {
        Err(e) => Err(e),
        Ok(j) => match spec_identifier(t, j) {
            Err(e) => Err(e),
            Ok((name, k)) => match spec_token(t, k, SpecToken::Equals) {
                Err(e) => Err(e),
                Ok(m) => match spec_nninteger(t, m) {
                    Err(e) => Err(e),
                    Ok((v, n)) => match spec_token(t, n, SpecToken::RParen) {
                        Err(e) => Err(e),
                        Ok(p) => Ok((name, v, p)),
                    },
                },
            },
        },
    }
}

/// A statement, chosen by its first token.
pub open spec fn spec_node(t: Seq<SpecToken>, i: int) -> Result<(SpecNode, int), Error>
    decreases t.len() - i,
{
    match at(t, i) {
        None => Err(Error::SourceError),
        Some(SpecToken::QReg) => match spec_register(t, i + 1) {
            Err(e) => Err(e),
            Ok((name, n, j)) => Ok((SpecNode::QReg(name, n), j)),
        },
        Some(SpecToken::CReg) => match spec_register(t, i + 1) {
            Err(e) => Err(e),
            Ok((name, n, j)) => Ok((SpecNode::CReg(name, n), j)),
        },
        Some(SpecToken::Barrier) => match spec_single(t, i + 1) {
            Err(e) => Err(e),
            Ok((a, j)) => Ok((SpecNode::Barrier(a), j)),
        },
        Some(SpecToken::Reset) => match spec_single(t, i + 1) {
            Err(e) => Err(e),
            Ok((a, j)) => Ok((SpecNode::Reset(a), j)),
        },
        Some(SpecToken::Measure) => spec_measure(t, i + 1),
        Some(SpecToken::Id(name)) => spec_application(t, i + 1, name),
        Some(SpecToken::Opaque) => spec_opaque(t, i + 1),
        Some(SpecToken::Gate) => spec_gate(t, i + 1),
        Some(SpecToken::If) => match spec_condition(t, i + 1) {
            Err(e) => Err(e),
            Ok((name, v, j)) => {
                proof {
                    reveal(spec_condition);
                }
                match spec_node(t, j) {
                    Err(e) => Err(e),
                    Ok((n, k)) => Ok((SpecNode::If(name, v, Box::new(n)), k)),
                }
            },
        },
        Some(_) => Err(Error::SourceError),
    }
}

pub proof fn lemma_node_advances(t: Seq<SpecToken>, i: int)
    ensures
        spec_node(t, i) is Ok ==> spec_node(t, i)->Ok_0.1 > i,
        spec_node(t, i) is Ok ==> spec_node(t, i)->Ok_0.1 <= t.len(),
    decreases t.len() - i,
{
    reveal(spec_opaque);
    reveal(spec_gate);
    reveal(spec_register);
    reveal(spec_single);
    reveal(spec_measure);
    reveal(spec_condition);
    match at(t, i) {
        Some(SpecToken::Id(name)) => lemma_application_advances(t, i + 1, name),
        Some(SpecToken::If) => {
            if let Ok((name, v, j)) = spec_condition(t, i + 1) {
                lemma_node_advances(t, j);
            }
        },
        Some(SpecToken::Opaque) => {
            if let Ok((name, j)) = spec_identifier(t, i + 1) {
                lemma_params_advances(t, j, false);
                if let Ok((ps, k)) = spec_params(t, j, false) {
                    lemma_argument_list_advances(t, k);
                }
            }
        },
        Some(SpecToken::Gate) => {
            if let Ok((name, j)) = spec_identifier(t, i + 1) {
                lemma_params_advances(t, j, false);
                if let Ok((ps, k)) = spec_params(t, j, false) {
                    lemma_id_list_advances(t, k);
                    if let Ok((qs, m)) = spec_id_list(t, k) {
                        lemma_application_list_advances(t, m + 1);
                    }
                }
            }
        },
        _ => {},
    }
}

/// Statements, one after another, up to the end of the tokens.
pub open spec fn spec_statements(t: Seq<SpecToken>, i: int) -> Result<(Seq<SpecNode>, int), Error>
    decreases t.len() - i,
{
    if at(t, i) is None {
        Ok((Seq::empty(), i))
    } else {
        match spec_node(t, i) {
            Err(e) => Err(e),
            Ok((n, j)) => {
                proof {
                    lemma_node_advances(t, i);
                    assert(j > i);
                }
                prepend(seq![n], spec_statements(t, j))
            },
        }
    }
}

/// The version header `OPENQASM real ;`: the text of the version number.
pub open spec fn spec_version(t: Seq<SpecToken>, i: int) -> Result<(Seq<char>, int), Error> {
    match spec_token(t, i, SpecToken::OpenQASM) {
        Err(_) => Err(Error::MissingVersion),
        Ok(j) => match spec_real(t, j) {
            Err(e) => Err(e),
            Ok((v, k)) => match spec_semicolon(t, k) {
                Err(e) => Err(e),
                Ok(m) => Ok((v, m)),
            },
        },
    }
}

/// Whether every character of `s` is `0`.
pub open spec fn all_zeros(s: Seq<char>) -> bool {
    forall|i: int| 0 <= i < s.len() ==> s[i] == '0'
}

/// Whether the text of a real number stands for the value 2: zeros, a `2`,
/// and optionally a `.` followed by zeros.
pub open spec fn denotes_two(s: Seq<char>) -> bool {
    exists|k: int|
        0 <= k < s.len() && all_zeros(#[trigger] s.take(k)) && s[k] == '2' && (k + 1 == s.len() || (
        s[k + 1] == '.' && all_zeros(s.skip(k + 2))))
}

/// A program from position `i`: the version header, which must give
/// version 2.0, then statements up to the end of the tokens.
pub open spec fn spec_program(t: Seq<SpecToken>, i: int) -> Result<Seq<SpecNode>, Error> {
    match spec_version(t, i) {
        Err(e) => Err(e),
        Ok((v, j)) => if !denotes_two(v) {
            Err(Error::UnsupportedVersion)
        } else {
            match spec_statements(t, j) {
                Err(e) => Err(e),
                Ok((nodes, _)) => Ok(nodes),
            }
        },
    }
}

pub fn match_real(tokens: &mut TokenStream) -> (r: Result<String, Error>)
    ensures
        moved_on(*old(tokens), *final(tokens)),
        gives_string(r, spec_real(old(tokens).toks(), old(tokens).pos()), *final(tokens)),
{
    match tokens.next() {
        Some(Token::Real(n)) => Ok(n.clone()),
        Some(_) => Err(Error::MissingReal),
        None => Err(Error::SourceError),
    }
}

pub fn match_nninteger(tokens: &mut TokenStream) -> (r: Result<i32, Error>)
    ensures
        moved_on(*old(tokens), *final(tokens)),
        gives_int(r, spec_nninteger(old(tokens).toks(), old(tokens).pos()), *final(tokens)),
{
    match tokens.next() {
        Some(Token::NNInteger(n)) => Ok(*n),
        Some(_) => Err(Error::MissingInt),
        None => Err(Error::SourceError),
    }
}

pub fn match_identifier(tokens: &mut TokenStream) -> (r: Result<String, Error>)
    ensures
        moved_on(*old(tokens), *final(tokens)),
        gives_string(r, spec_identifier(old(tokens).toks(), old(tokens).pos()), *final(tokens)),
{
    match tokens.next() {
        Some(Token::Id(s)) => Ok(s.clone()),
        Some(_) => Err(Error::MissingIdentifier),
        None => Err(Error::SourceError),
    }
}

pub fn match_token(tokens: &mut TokenStream, eq_token: Token) -> (r: Result<(), Error>)
    ensures
        moved_on(*old(tokens), *final(tokens)),
        gives_unit(r, spec_token(old(tokens).toks(), old(tokens).pos(), eq_token@), *final(tokens)),
{
    match tokens.next() {
        Some(token) => if *token == eq_token {
            Ok(())
        } else {
            Err(Error::SourceError)
        },
        None => Err(Error::SourceError),
    }
}

/// Whether the next token is `eq_token`, without reading it.
pub fn match_token_peek(tokens: &TokenStream, eq_token: Token) -> (r: Result<(), Error>)
    ensures
        r is Ok <==> at(tokens.toks(), tokens.pos()) == Some(eq_token@),
        r is Err ==> r->Err_0 == Error::SourceError,
        0 <= tokens.pos() <= tokens.toks().len(),
{
    match tokens.peek() {
        Some(token) => if *token == eq_token {
            Ok(())
        } else {
            Err(Error::SourceError)
        },
        None => Err(Error::SourceError),
    }
}

pub fn match_semicolon(tokens: &mut TokenStream) -> (r: Result<(), Error>)
    ensures
        moved_on(*old(tokens), *final(tokens)),
        gives_unit(r, spec_semicolon(old(tokens).toks(), old(tokens).pos()), *final(tokens)),
{
    match tokens.next() {
        Some(Token::Semicolon) => Ok(()),
        Some(_) => Err(Error::MissingSemicolon),
        None => Err(Error::SourceError),
    }
}

pub fn match_argument(tokens: &mut TokenStream) -> (r: Result<Argument, Error>)
    ensures
        moved_on(*old(tokens), *final(tokens)),
        gives_argument(r, spec_argument(old(tokens).toks(), old(tokens).pos()), *final(tokens)),
{
    let id = match match_identifier(tokens) {
        Ok(id) => id,
        Err(e) => return Err(e),
    };
    if match_token_peek(tokens, Token::LSParen).is_ok() {
        tokens.next();
        let n = match match_nninteger(tokens) {
            Ok(n) => n,
            Err(e) => return Err(e),
        };
        match match_token(tokens, Token::RSParen) {
            Ok(()) => Ok(Argument::Qubit(id, n)),
            Err(e) => Err(e),
        }
    } else {
        Ok(Argument::Register(id))
    }
}

pub fn match_argument_list(tokens: &mut TokenStream) -> (r: Result<Vec<Argument>, Error>)
    ensures
        moved_on(*old(tokens), *final(tokens)),
        gives_arguments(r, spec_argument_list(old(tokens).toks(), old(tokens).pos()), *final(tokens)),
{
    let ghost t = tokens.toks();
    let ghost i = tokens.pos();
    let head = match match_argument(tokens) {
        Ok(a) => a,
        Err(e) => return Err(e),
    };
    let mut args: Vec<Argument> = Vec::new();
    args.push(head);
    proof {
        assert(arguments_view(args@) =~= seq![head@]);
    }
    loop
        invariant
            t == old(tokens).toks(),
            i == old(tokens).pos(),
            tokens.toks() == t,
            i < tokens.pos() <= t.len(),
            spec_argument_list(t, i) == prepend(
                arguments_view(args@),
                if at(t, tokens.pos()) == Some(SpecToken::Comma) {
                    spec_argument_list(t, tokens.pos() + 1)
                } else {
                    Ok((Seq::empty(), tokens.pos()))
                },
            ),
        ensures
            tokens.toks() == t,
            i < tokens.pos() <= t.len(),
            at(t, tokens.pos()) != Some(SpecToken::Comma),
            spec_argument_list(t, i) == Ok::<_, Error>((arguments_view(args@), tokens.pos())),
        decreases t.len() - tokens.pos(),
    {
        if match_token_peek(tokens, Token::Comma).is_err() {
            assert(arguments_view(args@) + Seq::empty() =~= arguments_view(args@));
            break;
        }
        tokens.next();
        let ghost p = tokens.pos();
        let tail = match match_argument(tokens) {
            Ok(a) => a,
            Err(e) => return Err(e),
        };
        proof {
            assert(arguments_view(args@.push(tail)) =~= arguments_view(args@) + seq![tail@]);
            let rest = if at(t, tokens.pos()) == Some(SpecToken::Comma) {
                spec_argument_list(t, tokens.pos() + 1)
            } else {
                Ok((Seq::empty(), tokens.pos()))
            };
            match rest {
                Ok((v, k)) => {
                    assert(arguments_view(args@) + (seq![tail@] + v) =~= arguments_view(args@) + seq![tail@] + v);
                },
                Err(e) => {},
            }
        }
        args.push(tail);
    }
    Ok(args)
}

pub fn match_id_list(tokens: &mut TokenStream) -> (r: Result<Vec<String>, Error>)
    ensures
        moved_on(*old(tokens), *final(tokens)),
        gives_strings(r, spec_id_list(old(tokens).toks(), old(tokens).pos()), *final(tokens)),
{
    let ghost t = tokens.toks();
    let ghost i = tokens.pos();
    let head = match match_identifier(tokens) {
        Ok(a) => a,
        Err(e) => return Err(e),
    };
    let mut ids: Vec<String> = Vec::new();
    ids.push(head);
    proof {
        assert(strings_view(ids@) =~= seq![head@]);
    }
    loop
        invariant
            t == old(tokens).toks(),
            i == old(tokens).pos(),
            tokens.toks() == t,
            i < tokens.pos() <= t.len(),
            spec_id_list(t, i) == prepend(
                strings_view(ids@),
                if at(t, tokens.pos()) == Some(SpecToken::Comma) {
                    spec_id_list(t, tokens.pos() + 1)
                } else {
                    Ok((Seq::empty(), tokens.pos()))
                },
            ),
        ensures
            tokens.toks() == t,
            i < tokens.pos() <= t.len(),
            spec_id_list(t, i) == Ok::<_, Error>((strings_view(ids@), tokens.pos())),
        decreases t.len() - tokens.pos(),
    {
        if match_token_peek(tokens, Token::Comma).is_err() {
            assert(strings_view(ids@) + Seq::empty() =~= strings_view(ids@));
            break;
        }
        tokens.next();
        let tail = match match_identifier(tokens) {
            Ok(a) => a,
            Err(e) => return Err(e),
        };
        proof {
            assert(strings_view(ids@.push(tail)) =~= strings_view(ids@) + seq![tail@]);
            let rest = if at(t, tokens.pos()) == Some(SpecToken::Comma) {
                spec_id_list(t, tokens.pos() + 1)
            } else {
                Ok((Seq::empty(), tokens.pos()))
            };
            match rest {
                Ok((v, k)) => {
                    assert(strings_view(ids@) + (seq![tail@] + v) =~= strings_view(ids@) + seq![tail@] + v);
                },
                Err(e) => {},
            }
        }
        ids.push(tail);
    }
    Ok(ids)
}

fn push_digits(n: u32, out: &mut Vec<char>)
    ensures
        final(out)@ == old(out)@ + decimal(n as nat),
    decreases n,
{
    if n >= 10 {
        push_digits(n / 10, out);
    }
    let d = (n % 10) as u8;
    out.push((d + 48) as char);
    proof {
        assert(old(out)@ + decimal(n as nat) =~= old(out)@ + decimal(n as nat));
    }
}

/// The decimal text of `n` (see [`int_text`]).
pub fn int_to_text(n: i32) -> (r: String)
    ensures
        r@ == int_text(n),
{
    let mut digits: Vec<char> = Vec::new();
    if n < 0 {
        digits.push('-');
        let m = (-(n as i64)) as u32;
        push_digits(m, &mut digits);
    } else {
        push_digits(n as u32, &mut digits);
    }
    string_from_chars(digits.as_slice())
}

fn math_text_of(tok: &Token) -> (r: Option<String>)
    ensures
        match math_text(tok@) {
            Some(x) => r is Some && r->0@ == x,
            None => r is None,
        },
{
    let s = match tok {
        Token::Real(x) => return Some(x.clone()),
        Token::NNInteger(n) => return Some(int_to_text(*n)),
        Token::Id(x) => return Some(x.clone()),
        Token::Pi => "pi",
        Token::LParen => "(",
        Token::RParen => ")",
        Token::Plus => "+",
        Token::Minus => "-",
        Token::Times => "*",
        Token::Divide => "/",
        Token::Power => "^",
        Token::Sin => "sin",
        Token::Cos => "cos",
        Token::Tan => "tan",
        Token::Exp => "exp",
        Token::Ln => "ln",
        Token::Sqrt => "sqrt",
        _ => return None,
    };
    Some(String::from_str(s))
}

pub fn match_mathexpr(tokens: &mut TokenStream) -> (r: Result<String, Error>)
    ensures
        moved_on(*old(tokens), *final(tokens)),
        gives_string(r, spec_mathexpr(old(tokens).toks(), old(tokens).pos()), *final(tokens)),
{
    if tokens.is_empty() {
        return Err(Error::SourceError);
    }
    let ghost t = tokens.toks();
    let ghost i = tokens.pos();
    let mut expr = String::new();
    let mut depth: usize = 0;
    proof {
        reveal_strlit(" ");
    }
    loop
        invariant
            t == old(tokens).toks(),
            i == old(tokens).pos(),
            tokens.toks() == t,
            i <= tokens.pos() <= t.len(),
            depth <= tokens.pos() - i,
            " "@ == seq![' '],
            capture(t, i, 0) == (expr@ + capture(t, tokens.pos(), depth as int).0, capture(
                t,
                tokens.pos(),
                depth as int,
            ).1),
        ensures
            tokens.toks() == t,
            i <= tokens.pos() <= t.len(),
            capture(t, i, 0) == (expr@, tokens.pos()),
        decreases t.len() - tokens.pos(),
    {
        let ghost p = tokens.pos();
        let ghost d0 = depth as int;
        let tok = match tokens.peek() {
            None => {
                assert(expr@ + Seq::empty() =~= expr@);
                break;
            },
            Some(tok) => tok,
        };
        let text = match math_text_of(tok) {
            None => {
                assert(expr@ + Seq::empty() =~= expr@);
                break;
            },
            Some(x) => x,
        };
        if let Token::RParen = tok {
            if depth == 0 {
                assert(expr@ + Seq::empty() =~= expr@);
                break;
            }
            depth = depth - 1;
        } else if let Token::LParen = tok {
            depth = depth + 1;
        }
        tokens.next();
        let ghost before = expr@;
        expr.append(" ");
        expr.append(text.as_str());
        expr.append(" ");
        proof {
            let rest = capture(t, p + 1, depth as int);
            assert(capture(t, p, d0) == (seq![' '] + text@ + seq![' '] + rest.0, rest.1));
            assert(before + (seq![' '] + text@ + seq![' '] + rest.0) =~= expr@ + rest.0);
        }
    }
    Ok(expr)
}

pub fn match_mathexpr_list(tokens: &mut TokenStream) -> (r: Result<Vec<String>, Error>)
    ensures
        moved_on(*old(tokens), *final(tokens)),
        gives_strings(r, spec_mathexpr_list(old(tokens).toks(), old(tokens).pos()), *final(tokens)),
{
    let ghost t = tokens.toks();
    let ghost i = tokens.pos();
    let head = match match_mathexpr(tokens) {
        Ok(a) => a,
        Err(e) => return Err(e),
    };
    let mut exprs: Vec<String> = Vec::new();
    exprs.push(head);
    proof {
        assert(strings_view(exprs@) =~= seq![head@]);
    }
    loop
        invariant
            t == old(tokens).toks(),
            i == old(tokens).pos(),
            tokens.toks() == t,
            i <= tokens.pos() <= t.len(),
            spec_mathexpr_list(t, i) == prepend(
                strings_view(exprs@),
                if at(t, tokens.pos()) == Some(SpecToken::Comma) {
                    spec_mathexpr_list(t, tokens.pos() + 1)
                } else {
                    Ok((Seq::empty(), tokens.pos()))
                },
            ),
        ensures
            tokens.toks() == t,
            i <= tokens.pos() <= t.len(),
            spec_mathexpr_list(t, i) == Ok::<_, Error>((strings_view(exprs@), tokens.pos())),
        decreases t.len() - tokens.pos(),
    {
        if match_token_peek(tokens, Token::Comma).is_err() {
            assert(strings_view(exprs@) + Seq::empty() =~= strings_view(exprs@));
            break;
        }
        tokens.next();
        let tail = match match_mathexpr(tokens) {
            Ok(a) => a,
            Err(e) => return Err(e),
        };
        proof {
            assert(strings_view(exprs@.push(tail)) =~= strings_view(exprs@) + seq![tail@]);
            let rest = if at(t, tokens.pos()) == Some(SpecToken::Comma) {
                spec_mathexpr_list(t, tokens.pos() + 1)
            } else {
                Ok((Seq::empty(), tokens.pos()))
            };
            match rest {
                Ok((v, k)) => {
                    assert(strings_view(exprs@) + (seq![tail@] + v) =~= strings_view(exprs@) + seq![tail@] + v);
                },
                Err(e) => {},
            }
        }
        exprs.push(tail);
    }
    Ok(exprs)
}

fn match_params(tokens: &mut TokenStream, exprs: bool) -> (r: Result<Vec<String>, Error>)
    ensures
        moved_on(*old(tokens), *final(tokens)),
        gives_strings(r, spec_params(old(tokens).toks(), old(tokens).pos(), exprs), *final(tokens)),
{
    if match_token_peek(tokens, Token::LParen).is_err() {
        let v: Vec<String> = Vec::new();
        assert(strings_view(v@) =~= Seq::empty());
        return Ok(v);
    }
    tokens.next();
    if match_token_peek(tokens, Token::RParen).is_ok() {
        tokens.next();
        let v: Vec<String> = Vec::new();
        assert(strings_view(v@) =~= Seq::empty());
        return Ok(v);
    }
    let list = if exprs {
        match_mathexpr_list(tokens)
    } else {
        match_id_list(tokens)
    };
    let p = match list {
        Ok(p) => p,
        Err(e) => return Err(e),
    };
    match match_token(tokens, Token::RParen) {
        Ok(()) => Ok(p),
        Err(e) => Err(e),
    }
}

/// A gate application whose name `id` has been read.
pub fn application(tokens: &mut TokenStream, id: String) -> (r: Result<AstNode, Error>)
    ensures
        moved_on(*old(tokens), *final(tokens)),
        gives_node(r, spec_application(old(tokens).toks(), old(tokens).pos(), id@), *final(tokens)),
{
    proof {
        reveal(spec_application);
    }
    let params = match match_params(tokens, true) {
        Ok(p) => p,
        Err(e) => return Err(e),
    };
    let list = match match_argument_list(tokens) {
        Ok(l) => l,
        Err(e) => return Err(e),
    };
    match match_semicolon(tokens) {
        Ok(()) => Ok(AstNode::ApplyGate(id, list, params)),
        Err(e) => Err(e),
    }
}

/// An opaque gate declaration whose `opaque` has been read.
pub fn opaque(tokens: &mut TokenStream) -> (r: Result<AstNode, Error>)
    ensures
        moved_on(*old(tokens), *final(tokens)),
        gives_node(r, spec_opaque(old(tokens).toks(), old(tokens).pos()), *final(tokens)),
{
    proof {
        reveal(spec_opaque);
    }
    let id = match match_identifier(tokens) {
        Ok(id) => id,
        Err(e) => return Err(e),
    };
    let params = match match_params(tokens, false) {
        Ok(p) => p,
        Err(e) => return Err(e),
    };
    let list = match match_argument_list(tokens) {
        Ok(l) => l,
        Err(e) => return Err(e),
    };
    match match_semicolon(tokens) {
        Ok(()) => Ok(AstNode::Opaque(id, list, params)),
        Err(e) => Err(e),
    }
}

/// What follows a gate application in a gate's body.
pub open spec fn after_application(t: Seq<SpecToken>, p: int) -> Result<(Seq<SpecNode>, int), Error> {
    match at(t, p) {
        None => Err(Error::SourceError),
        Some(SpecToken::Id(_)) => spec_application_list(t, p),
        Some(_) => Ok((Seq::empty(), p)),
    }
}

pub fn match_application_list(tokens: &mut TokenStream) -> (r: Result<Vec<AstNode>, Error>)
    ensures
        moved_on(*old(tokens), *final(tokens)),
        gives_nodes(r, spec_application_list(old(tokens).toks(), old(tokens).pos()), *final(tokens)),
{
    let ghost t = tokens.toks();
    let ghost i = tokens.pos();
    let id = match match_identifier(tokens) {
        Ok(id) => id,
        Err(e) => return Err(e),
    };
    let head = match application(tokens, id) {
        Ok(n) => n,
        Err(e) => return Err(e),
    };
    let mut apps: Vec<AstNode> = Vec::new();
    apps.push(head);
    proof {
        assert(nodes_view(apps@) =~= seq![head@]);
    }
    loop
        invariant
            t == old(tokens).toks(),
            i == old(tokens).pos(),
            tokens.toks() == t,
            i < tokens.pos() <= t.len(),
            spec_application_list(t, i) == prepend(nodes_view(apps@), after_application(t, tokens.pos())),
        ensures
            tokens.toks() == t,
            i < tokens.pos() <= t.len(),
            spec_application_list(t, i) == Ok::<_, Error>((nodes_view(apps@), tokens.pos())),
        decreases t.len() - tokens.pos(),
    {
        match tokens.peek() {
            None => return Err(Error::SourceError),
            Some(Token::Id(_)) => {},
            Some(_) => {
                assert(nodes_view(apps@) + Seq::empty() =~= nodes_view(apps@));
                break;
            },
        }
        let ghost p = tokens.pos();
        let id = match match_identifier(tokens) {
            Ok(id) => id,
            Err(e) => return Err(e),
        };
        let tail = match application(tokens, id) {
            Ok(n) => n,
            Err(e) => return Err(e),
        };
        proof {
            assert(nodes_view(apps@.push(tail)) =~= nodes_view(apps@) + seq![tail@]);
            match after_application(t, tokens.pos()) {
                Ok((v, k)) => {
                    assert(nodes_view(apps@) + (seq![tail@] + v) =~= nodes_view(apps@) + seq![tail@] + v);
                },
                Err(e) => {},
            }
        }
        apps.push(tail);
    }
    Ok(apps)
}

/// A gate definition whose `gate` has been read.
pub fn gate(tokens: &mut TokenStream) -> (r: Result<AstNode, Error>)
    ensures
        moved_on(*old(tokens), *final(tokens)),
        gives_node(r, spec_gate(old(tokens).toks(), old(tokens).pos()), *final(tokens)),
{
    proof {
        reveal(spec_gate);
    }
    let id = match match_identifier(tokens) {
        Ok(id) => id,
        Err(e) => return Err(e),
    };
    let params = match match_params(tokens, false) {
        Ok(p) => p,
        Err(e) => return Err(e),
    };
    let list = match match_id_list(tokens) {
        Ok(l) => l,
        Err(e) => return Err(e),
    };
    match match_token(tokens, Token::LCParen) {
        Ok(()) => {},
        Err(e) => return Err(e),
    }
    let applications = match tokens.peek() {
        None => return Err(Error::SourceError),
        Some(Token::RCParen) => {
            let v: Vec<AstNode> = Vec::new();
            assert(nodes_view(v@) =~= Seq::empty());
            v
        },
        Some(_) => match match_application_list(tokens) {
            Ok(v) => v,
            Err(e) => return Err(e),
        },
    };
    match match_token(tokens, Token::RCParen) {
        Ok(()) => {},
        Err(e) => return Err(e),
    }
    let ghost apps = applications@;
    let ghost name = id@;
    let ghost qubits = strings_view(list@);
    let ghost ps = strings_view(params@);
    let r = AstNode::Gate(id, list, params, applications);
    proof {
        let body = r@->Gate_3;
        assert(body.len() == apps.len());
        assert forall|k: int| 0 <= k < apps.len() implies body[k] == nodes_view(apps)[k] by {
            assert(body[k] == node_view(apps[k]));
        }
        assert(body =~= nodes_view(apps));
        assert(r@ == SpecNode::Gate(name, qubits, ps, nodes_view(apps)));
    }
    Ok(r)
}

fn register(tokens: &mut TokenStream) -> (r: Result<(String, i32), Error>)
    ensures
        moved_on(*old(tokens), *final(tokens)),
        match spec_register(old(tokens).toks(), old(tokens).pos()) {
            Ok((name, n, j)) => r is Ok && r->Ok_0.0@ == name && r->Ok_0.1 == n && final(tokens).pos() == j,
            Err(e) => r is Err && r->Err_0 == e,
        },
{
    proof {
        reveal(spec_register);
    }
    let identifier = match match_identifier(tokens) {
        Ok(id) => id,
        Err(e) => return Err(e),
    };
    match match_token(tokens, Token::LSParen) {
        Ok(()) => {},
        Err(e) => return Err(e),
    }
    let num = match match_nninteger(tokens) {
        Ok(n) => n,
        Err(e) => return Err(e),
    };
    match match_token(tokens, Token::RSParen) {
        Ok(()) => {},
        Err(e) => return Err(e),
    }
    match match_semicolon(tokens) {
        Ok(()) => Ok((identifier, num)),
        Err(e) => Err(e),
    }
}

/// A quantum register declaration whose `qreg` has been read.
pub fn qreg(tokens: &mut TokenStream) -> (r: Result<AstNode, Error>)
    ensures
        moved_on(*old(tokens), *final(tokens)),
        gives_node(
            r,
            match spec_register(old(tokens).toks(), old(tokens).pos()) {
                Ok((name, n, j)) => Ok((SpecNode::QReg(name, n), j)),
                Err(e) => Err(e),
            },
            *final(tokens),
        ),
{
    match register(tokens) {
        Ok((name, n)) => Ok(AstNode::QReg(name, n)),
        Err(e) => Err(e),
    }
}

/// A classical register declaration whose `creg` has been read.
pub fn creg(tokens: &mut TokenStream) -> (r: Result<AstNode, Error>)
    ensures
        moved_on(*old(tokens), *final(tokens)),
        gives_node(
            r,
            match spec_register(old(tokens).toks(), old(tokens).pos()) {
                Ok((name, n, j)) => Ok((SpecNode::CReg(name, n), j)),
                Err(e) => Err(e),
            },
            *final(tokens),
        ),
{
    match register(tokens) {
        Ok((name, n)) => Ok(AstNode::CReg(name, n)),
        Err(e) => Err(e),
    }
}

fn single(tokens: &mut TokenStream) -> (r: Result<Argument, Error>)
    ensures
        moved_on(*old(tokens), *final(tokens)),
        gives_argument(r, spec_single(old(tokens).toks(), old(tokens).pos()), *final(tokens)),
{
    proof {
        reveal(spec_single);
    }
    let argument = match match_argument(tokens) {
        Ok(a) => a,
        Err(e) => return Err(e),
    };
    match match_semicolon(tokens) {
        Ok(()) => Ok(argument),
        Err(e) => Err(e),
    }
}

/// A barrier whose `barrier` has been read.
pub fn barrier(tokens: &mut TokenStream) -> (r: Result<AstNode, Error>)
    ensures
        moved_on(*old(tokens), *final(tokens)),
        gives_node(
            r,
            match spec_single(old(tokens).toks(), old(tokens).pos()) {
                Ok((a, j)) => Ok((SpecNode::Barrier(a), j)),
                Err(e) => Err(e),
            },
            *final(tokens),
        ),
{
    match single(tokens) {
        Ok(a) => Ok(AstNode::Barrier(a)),
        Err(e) => Err(e),
    }
}

/// A reset whose `reset` has been read.
pub fn reset(tokens: &mut TokenStream) -> (r: Result<AstNode, Error>)
    ensures
        moved_on(*old(tokens), *final(tokens)),
        gives_node(
            r,
            match spec_single(old(tokens).toks(), old(tokens).pos()) {
                Ok((a, j)) => Ok((SpecNode::Reset(a), j)),
                Err(e) => Err(e),
            },
            *final(tokens),
        ),
{
    match single(tokens) {
        Ok(a) => Ok(AstNode::Reset(a)),
        Err(e) => Err(e),
    }
}

/// A measurement whose `measure` has been read.
pub fn measure(tokens: &mut TokenStream) -> (r: Result<AstNode, Error>)
    ensures
        moved_on(*old(tokens), *final(tokens)),
        gives_node(r, spec_measure(old(tokens).toks(), old(tokens).pos()), *final(tokens)),
{
    proof {
        reveal(spec_measure);
    }
    let arg_1 = match match_argument(tokens) {
        Ok(a) => a,
        Err(e) => return Err(e),
    };
    match match_token(tokens, Token::Arrow) {
        Ok(()) => {},
        Err(e) => return Err(e),
    }
    let arg_2 = match match_argument(tokens) {
        Ok(a) => a,
        Err(e) => return Err(e),
    };
    match match_semicolon(tokens) {
        Ok(()) => Ok(AstNode::Measure(arg_1, arg_2)),
        Err(e) => Err(e),
    }
}

/// A conditional statement whose `if` has been read.
pub fn if_(tokens: &mut TokenStream) -> (r: Result<AstNode, Error>)
    ensures
        moved_on(*old(tokens), *final(tokens)),
        gives_node(
            r,
            match spec_condition(old(tokens).toks(), old(tokens).pos()) {
                Ok((name, v, j)) => match spec_node(old(tokens).toks(), j) {
                    Ok((n, k)) => Ok((SpecNode::If(name, v, Box::new(n)), k)),
                    Err(e) => Err(e),
                },
                Err(e) => Err(e),
            },
            *final(tokens),
        ),
    decreases old(tokens).toks().len() - old(tokens).pos(), 0int,
{
    proof {
        reveal(spec_condition);
    }
    match match_token(tokens, Token::LParen) {
        Ok(()) => {},
        Err(e) => return Err(e),
    }
    let id = match match_identifier(tokens) {
        Ok(id) => id,
        Err(e) => return Err(e),
    };
    match match_token(tokens, Token::Equals) {
        Ok(()) => {},
        Err(e) => return Err(e),
    }
    let val = match match_nninteger(tokens) {
        Ok(n) => n,
        Err(e) => return Err(e),
    };
    match match_token(tokens, Token::RParen) {
        Ok(()) => {},
        Err(e) => return Err(e),
    }
    match parse_node(tokens) {
        Ok(node) => Ok(AstNode::If(id, val, Box::new(node))),
        Err(e) => Err(e),
    }
}

/// A statement, chosen by its first token.
fn parse_node(tokens: &mut TokenStream) -> (r: Result<AstNode, Error>)
    ensures
        moved_on(*old(tokens), *final(tokens)),
        gives_node(r, spec_node(old(tokens).toks(), old(tokens).pos()), *final(tokens)),
    decreases old(tokens).toks().len() - old(tokens).pos(), 1int,
{
    let first = match tokens.next() {
        Some(tok) => tok,
        None => return Err(Error::SourceError),
    };
    match first {
        Token::QReg => qreg(tokens),
        Token::CReg => creg(tokens),
        Token::Barrier => barrier(tokens),
        Token::Reset => reset(tokens),
        Token::Measure => measure(tokens),
        Token::Id(i) => application(tokens, i.clone()),
        Token::Opaque => opaque(tokens),
        Token::Gate => gate(tokens),
        Token::If => if_(tokens),
        _ => Err(Error::SourceError),
    }
}

/// The version header: the text of the version number.
pub fn version(tokens: &mut TokenStream) -> (r: Result<String, Error>)
    ensures
        moved_on(*old(tokens), *final(tokens)),
        gives_string(r, spec_version(old(tokens).toks(), old(tokens).pos()), *final(tokens)),
{
    if match_token(tokens, Token::OpenQASM).is_err() {
        return Err(Error::MissingVersion);
    }
    let version = match match_real(tokens) {
        Ok(v) => v,
        Err(e) => return Err(e),
    };
    match match_semicolon(tokens) {
        Ok(()) => Ok(version),
        Err(e) => Err(e),
    }
}

/// Whether the text of a real number stands for the value 2 (see
/// [`denotes_two`]).
pub fn is_version_two(v: &String) -> (r: bool)
    ensures
        r == denotes_two(v@),
{
    let s = chars_of(v.as_str());
    let n = s.len();
    let mut k: usize = 0;
    while k < n && s[k] == '0'
        invariant
            k <= n,
            n == s@.len(),
            all_zeros(s@.take(k as int)),
        decreases n - k,
    {
        assert(s@.take(k + 1) =~= s@.take(k as int).push('0'));
        k = k + 1;
    }
    if k == n || s[k] != '2' {
        proof {
            if denotes_two(s@) {
                let k2 = choose|k2: int|
                    0 <= k2 < s@.len() && all_zeros(#[trigger] s@.take(k2)) && s@[k2] == '2' && (
                    k2 + 1 == s@.len() || (s@[k2 + 1] == '.' && all_zeros(s@.skip(k2 + 2))));
                if k2 < k {
                    assert(s@.take(k as int)[k2] == s@[k2]);
                } else if k2 > k {
                    assert(s@.take(k2)[k as int] == s@[k as int]);
                }
            }
        }
        return false;
    }
    let mut ok = true;
    if k + 1 < n {
        if s[k + 1] != '.' {
            ok = false;
        } else {
            let mut m: usize = k + 2;
            while m < n
                invariant
                    k + 2 <= m <= n,
                    n == s@.len(),
                    ok == all_zeros(s@.subrange(k + 2, m as int)),
                decreases n - m,
            {
                proof {
                    let a = s@.subrange(k + 2, m as int);
                    let b = s@.subrange(k + 2, m + 1);
                    assert(b =~= a.push(s@[m as int]));
                    if all_zeros(b) {
                        assert forall|i: int| 0 <= i < a.len() implies a[i] == '0' by {
                            assert(a[i] == b[i]);
                        }
                        assert(b[a.len() as int] == s@[m as int]);
                    }
                    if all_zeros(a) && s@[m as int] == '0' {
                        assert forall|i: int| 0 <= i < b.len() implies b[i] == '0' by {
                            if i < a.len() {
                                assert(b[i] == a[i]);
                            }
                        }
                    }
                }
                if s[m] != '0' {
                    ok = false;
                }
                m = m + 1;
            }
            assert(s@.subrange(k + 2, n as int) =~= s@.skip(k + 2));
        }
    }
    proof {
        if ok {
            assert(all_zeros(s@.take(k as int)) && s@[k as int] == '2');
        } else if denotes_two(s@) {
            let k2 = choose|k2: int|
                0 <= k2 < s@.len() && all_zeros(#[trigger] s@.take(k2)) && s@[k2] == '2' && (k2 + 1
                == s@.len() || (s@[k2 + 1] == '.' && all_zeros(s@.skip(k2 + 2))));
            if k2 < k {
                assert(s@.take(k as int)[k2] == s@[k2]);
            } else if k2 > k {
                assert(s@.take(k2)[k as int] == s@[k as int]);
            }
        }
    }
    ok
}

/// A program: the version header, which must give version 2.0, then
/// statements up to the end of the tokens.
pub fn parse(tokens: &mut TokenStream) -> (r: Result<Vec<AstNode>, Error>)
    ensures
        moved_on(*old(tokens), *final(tokens)),
        r is Ok ==> final(tokens).pos() == final(tokens).toks().len(),
        match spec_program(old(tokens).toks(), old(tokens).pos()) {
            Ok(nodes) => r is Ok && nodes_view(r->Ok_0@) == nodes,
            Err(e) => r is Err && r->Err_0 == e,
        },
{
    let ghost t = tokens.toks();
    let v = match version(tokens) {
        Ok(v) => v,
        Err(e) => return Err(e),
    };
    if !is_version_two(&v) {
        return Err(Error::UnsupportedVersion);
    }
    let ghost start = tokens.pos();
    let mut nodes: Vec<AstNode> = Vec::new();
    proof {
        assert(nodes_view(nodes@) + Seq::empty() =~= Seq::<SpecNode>::empty());
        assert(nodes_view(nodes@) =~= Seq::<SpecNode>::empty());
    }
    while !tokens.is_empty()
        invariant
            t == old(tokens).toks(),
            tokens.toks() == t,
            old(tokens).pos() <= tokens.pos(),
            spec_program(t, old(tokens).pos()) == match spec_statements(t, start) {
                Err(e) => Err(e),
                Ok((nodes, _)) => Ok::<_, Error>(nodes),
            },
            spec_statements(t, start) == prepend(nodes_view(nodes@), spec_statements(t, tokens.pos())),
            tokens.pos() <= t.len(),
        decreases t.len() - tokens.pos(),
    {
        let ghost p = tokens.pos();
        let node = match parse_node(tokens) {
            Ok(n) => n,
            Err(e) => return Err(e),
        };
        proof {
            assert(nodes_view(nodes@.push(node)) =~= nodes_view(nodes@) + seq![node@]);
            lemma_node_advances(t, p);
            match spec_statements(t, tokens.pos()) {
                Ok((v, k)) => {
                    assert(nodes_view(nodes@) + (seq![node@] + v) =~= nodes_view(nodes@) + seq![node@] + v);
                },
                Err(e) => {},
            }
        }
        nodes.push(node);
    }
    proof {
        assert(nodes_view(nodes@) + Seq::empty() =~= nodes_view(nodes@));
    }
    Ok(nodes)
}

} // verus!
