//! Facts about the grammar as a whole, stated over the spec functions of
//! [`crate::parser`] and proved from them.
use vstd::prelude::*;
use crate::ast::{SpecArgument, SpecNode};
use crate::error::Error;
use crate::parser::{
    at, capture, denotes_two, math_text, prepend, spec_argument, spec_id_list, spec_identifier,
    spec_program, spec_real, spec_register, spec_semicolon, spec_statements, spec_token,
    spec_version, spec_node,
};
use crate::token::SpecToken;

verus! {

/// A version header that names a version other than 2.0 makes the program
/// unsupported.
pub proof fn version_other_than_two_is_unsupported(t: Seq<SpecToken>, v: Seq<char>)
    requires
        t.len() >= 3,
        t[0] == SpecToken::OpenQASM,
        t[1] == SpecToken::Real(v),
        t[2] == SpecToken::Semicolon,
        !denotes_two(v),
    ensures
        spec_program(t, 0) == Err::<Seq<SpecNode>, Error>(Error::UnsupportedVersion),
{
}

/// A program that does not start with the version keyword is missing its
/// version.
pub proof fn program_without_header_misses_version(t: Seq<SpecToken>)
    requires
        t.len() == 0 || t[0] != SpecToken::OpenQASM,
    ensures
        spec_program(t, 0) == Err::<Seq<SpecNode>, Error>(Error::MissingVersion),
{
}

/// `2.0` stands for version 2.
pub proof fn two_point_zero_denotes_two()
    ensures
        denotes_two("2.0"@),
{
    reveal_strlit("2.0");
    let s = "2.0"@;
    assert(s.take(0) =~= Seq::<char>::empty());
    assert(s.skip(2) =~= seq!['0']);
}

/// `OPENQASM 2.0; qreg name[n];` parses to exactly the one declaration of
/// `name` with size `n`.
pub proof fn minimal_program_declares_one_register(name: Seq<char>, n: i32)
    requires
        n >= 0,
    ensures
        spec_program(
            seq![
                SpecToken::OpenQASM,
                SpecToken::Real("2.0"@),
                SpecToken::Semicolon,
                SpecToken::QReg,
                SpecToken::Id(name),
                SpecToken::LSParen,
                SpecToken::NNInteger(n),
                SpecToken::RSParen,
                SpecToken::Semicolon,
            ],
            0,
        ) == Ok::<Seq<SpecNode>, Error>(seq![SpecNode::QReg(name, n)]),
{
    reveal(spec_register);
    two_point_zero_denotes_two();
    let t = seq![
        SpecToken::OpenQASM,
        SpecToken::Real("2.0"@),
        SpecToken::Semicolon,
        SpecToken::QReg,
        SpecToken::Id(name),
        SpecToken::LSParen,
        SpecToken::NNInteger(n),
        SpecToken::RSParen,
        SpecToken::Semicolon,
    ];
    assert(spec_version(t, 0) == Ok::<(Seq<char>, int), Error>(("2.0"@, 3)));
    assert(spec_node(t, 3) == Ok::<(SpecNode, int), Error>((SpecNode::QReg(name, n), 9)));
    assert(spec_statements(t, 9) == Ok::<(Seq<SpecNode>, int), Error>((Seq::empty(), 9)));
    assert(seq![SpecNode::QReg(name, n)] + Seq::<SpecNode>::empty() =~= seq![SpecNode::QReg(name, n)]);
}

/// `name [ n ]` is the qubit `n` of `name`, and a bare `name` the whole
/// register.
pub proof fn argument_forms(name: Seq<char>, n: i32)
    ensures
        spec_argument(
            seq![SpecToken::Id(name), SpecToken::LSParen, SpecToken::NNInteger(n), SpecToken::RSParen],
            0,
        ) == Ok::<(SpecArgument, int), Error>((SpecArgument::Qubit(name, n), 4)),
        spec_argument(seq![SpecToken::Id(name)], 0) == Ok::<(SpecArgument, int), Error>(
            (SpecArgument::Register(name), 1),
        ),
{
}

/// The result of a rule read at position `i + p` of `pre + t`, for one read
/// at `i` of `t`: the same value, at a position `p` further on.
pub open spec fn shifted<A>(r: Result<(A, int), Error>, p: int) -> Result<(A, int), Error> {
    match r {
        Ok((x, k)) => Ok((x, k + p)),
        Err(e) => Err(e),
    }
}

proof fn lemma_id_list_after_prefix(pre: Seq<SpecToken>, t: Seq<SpecToken>, i: int)
    requires
        0 <= i,
    ensures
        spec_id_list(pre + t, pre.len() as int + i) == shifted(spec_id_list(t, i), pre.len() as int),
    decreases t.len() - i,
{
    let u = pre + t;
    let p = pre.len() as int;
    assert(at(u, p + i) == at(t, i));
    assert(at(u, p + i + 1) == at(t, i + 1));
    if let Ok((x, j)) = spec_identifier(t, i) {
        if at(t, j) == Some(SpecToken::Comma) {
            lemma_id_list_after_prefix(pre, t, i + 2);
        }
    }
}

proof fn lemma_id_list_before_suffix(a: Seq<SpecToken>, b: Seq<SpecToken>, i: int, x: Seq<Seq<char>>)
    requires
        0 <= i,
        spec_id_list(a, i) == Ok::<(Seq<Seq<char>>, int), Error>((x, a.len() as int)),
    ensures
        spec_id_list(a + seq![SpecToken::Comma] + b, i) == prepend(
            x,
            spec_id_list(a + seq![SpecToken::Comma] + b, a.len() + 1 as int),
        ),
    decreases a.len() - i,
{
    let u = a + seq![SpecToken::Comma] + b;
    assert(at(u, i) == at(a, i));
    assert(at(u, a.len() as int) == Some(SpecToken::Comma));
    if let Ok((id, j)) = spec_identifier(a, i) {
        if at(a, j) == Some(SpecToken::Comma) {
            assert(at(u, j) == at(a, j));
            let rest = spec_id_list(a, j + 1);
            let x2 = rest->Ok_0.0;
            lemma_id_list_before_suffix(a, b, j + 1, x2);
            match spec_id_list(u, a.len() + 1 as int) {
                Ok((y, k)) => {
                    assert(seq![id] + (x2 + y) =~= seq![id] + x2 + y);
                },
                Err(e) => {},
            }
        }
    }
}

/// Reading identifier lists is compositional: the list read from two
/// complete lists joined by a comma holds the first list's names followed
/// by the second's, none lost or reordered, and it ends where the second
/// ends.
pub proof fn id_list_of_joined_lists(
    a: Seq<SpecToken>,
    b: Seq<SpecToken>,
    x: Seq<Seq<char>>,
    y: Seq<Seq<char>>,
)
    requires
        spec_id_list(a, 0) == Ok::<(Seq<Seq<char>>, int), Error>((x, a.len() as int)),
        spec_id_list(b, 0) == Ok::<(Seq<Seq<char>>, int), Error>((y, b.len() as int)),
    ensures
        spec_id_list(a + seq![SpecToken::Comma] + b, 0) == Ok::<(Seq<Seq<char>>, int), Error>(
            (x + y, a.len() + 1 + b.len() as int),
        ),
{
    lemma_id_list_before_suffix(a, b, 0, x);
    lemma_id_list_after_prefix(a + seq![SpecToken::Comma], b, 0);
    assert(a + seq![SpecToken::Comma] + b =~= (a + seq![SpecToken::Comma]) + b);
}

/// `1` for `(`, `-1` for `)`, `0` for any other token.
pub open spec fn paren_step(k: SpecToken) -> int {
    if k == SpecToken::LParen {
        1
    } else if k == SpecToken::RParen {
        -1
    } else {
        0
    }
}

/// The number of `(` minus the number of `)` among the tokens from
/// position `i` up to (not including) `j`.
pub open spec fn paren_balance(t: Seq<SpecToken>, i: int, j: int) -> int
    decreases j - i,
{
    if j <= i {
        0
    } else {
        paren_step(t[i]) + paren_balance(t, i + 1, j)
    }
}

/// The expression read from position `i` inside `depth` open parentheses
/// is the longest run of tokens that can stand in an expression in which no
/// `)` closes more than `depth` plus the parentheses opened within the run:
/// every token of it can stand in an expression, the count of open
/// parentheses never drops below zero within it, and it ends at the end of
/// the tokens, before a token that cannot stand in an expression, or before
/// a `)` that would close one parenthesis too many.
pub proof fn expression_ends_at_unmatched_paren(t: Seq<SpecToken>, i: int, depth: int)
    requires
        0 <= i <= t.len(),
        depth >= 0,
    ensures
        i <= capture(t, i, depth).1 <= t.len(),
        forall|m: int|
            i <= m < capture(t, i, depth).1 ==> math_text(#[trigger] t[m]) is Some && depth
                + paren_balance(t, i, m + 1) >= 0,
        capture(t, i, depth).1 < t.len() ==> (math_text(t[capture(t, i, depth).1]) is None || (
        t[capture(t, i, depth).1] == SpecToken::RParen && depth + paren_balance(
            t,
            i,
            capture(t, i, depth).1,
        ) == 0)),
    decreases t.len() - i,
{
    let j = capture(t, i, depth).1;
    if i < t.len() {
        let k = t[i];
        if math_text(k) is Some && !(k == SpecToken::RParen && depth == 0) {
            let d = depth + paren_step(k);
            assert(capture(t, i, depth).1 == capture(t, i + 1, d).1);
            expression_ends_at_unmatched_paren(t, i + 1, d);
            assert forall|m: int| i <= m < j implies math_text(#[trigger] t[m]) is Some && depth
                + paren_balance(t, i, m + 1) >= 0 by {
                assert(paren_balance(t, i, m + 1) == paren_step(k) + paren_balance(t, i + 1, m + 1));
                if m > i {
                    assert(math_text(t[m]) is Some);
                } else {
                    assert(paren_balance(t, i + 1, m + 1) == 0);
                }
            }
            if j < t.len() {
                assert(paren_balance(t, i, j) == paren_step(k) + paren_balance(t, i + 1, j));
            }
        }
    }
}

} // verus!
