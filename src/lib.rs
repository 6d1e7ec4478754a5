//! A lexer and parser for the OpenQASM 2.0 quantum assembly language.
//!
//! Source text (free of comments and include directives, see
//! [`strip_comments`]) is split into [`Token`]s by [`lex`], and a token
//! sequence is turned into a list of [`AstNode`]s by [`parse`].
use vstd::prelude::*;

pub mod ast;
pub mod error;
pub mod laws;
pub mod lexer;
pub mod parser;
pub mod preprocess;
pub mod text;
pub mod token;

pub use ast::{Argument, AstNode};
pub use error::Error;
pub use lexer::Lexer;
pub use preprocess::strip_comments;
pub use token::Token;

use ast::nodes_view;
use lexer::{lex_tokens, lemma_next_token_consumes};
use parser::{TokenStream, spec_program};
use token::tokens_view;

verus! {

/// The tokens of a source text that holds no comments and no include
/// directives, in order, without the final `EndOfFile`.
pub fn lex(input: &str) -> (r: Vec<Token>)
    ensures
        tokens_view(r@) == lex_tokens(input@),
{
    let mut lexer = Lexer::new(input);
    let mut tokens: Vec<Token> = Vec::new();
    loop
        invariant
            tokens_view(tokens@) + lex_tokens(lexer@) == lex_tokens(input@),
        ensures
            tokens_view(tokens@) == lex_tokens(input@),
        decreases lexer@.len(),
    {
        let ghost before = lexer@;
        let tok = lexer.next_token();
        proof {
            lemma_next_token_consumes(before);
        }
        if let Token::EndOfFile = tok {
            assert(tokens_view(tokens@) + Seq::empty() =~= tokens_view(tokens@));
            break;
        }
        proof {
            assert(tokens_view(tokens@.push(tok)) =~= tokens_view(tokens@).push(tok@));
            assert(lex_tokens(before) == seq![tok@] + lex_tokens(lexer@));
            assert(tokens_view(tokens@).push(tok@) + lex_tokens(lexer@) =~= tokens_view(tokens@) + (seq![tok@] + lex_tokens(lexer@)));
        }
        tokens.push(tok);
    }
    tokens
}

/// The statements of a token sequence: the version header `OPENQASM 2.0;`
/// and then statements up to the end, or the first error met.
pub fn parse(tokens: &[Token]) -> (r: Result<Vec<AstNode>, Error>)
    ensures
        match spec_program(tokens_view(tokens@), 0) {
            Ok(nodes) => r is Ok && nodes_view(r->Ok_0@) == nodes,
            Err(e) => r is Err && r->Err_0 == e,
        },
{
    let mut stream = TokenStream::new(tokens);
    parser::parse(&mut stream)
}

} // verus!
