use vstd::prelude::*;

verus! {

/// The target of an operation: one element of a register, or a whole register.
#[derive(Debug, PartialEq, Clone)]
pub enum Argument {
    /// A single qubit or bit: the register's name and the index in it.
    Qubit(String, i32),
    /// A whole register, by name.
    Register(String),
}

/// A statement of a program.
#[derive(Debug, PartialEq)]
pub enum AstNode {
    /// Declaration of a quantum register: its name and its number of qubits.
    QReg(String, i32),
    /// Declaration of a classical register: its name and its number of bits.
    CReg(String, i32),
    /// A barrier on a qubit or register.
    Barrier(Argument),
    /// Reset of a qubit or register.
    Reset(Argument),
    /// Measurement of a qubit or register into a bit or register.
    Measure(Argument, Argument),
    /// Application of a gate: its name, the arguments it acts on, and its
    /// parameters, each kept as the text of a mathematical expression.
    ApplyGate(String, Vec<Argument>, Vec<String>),
    /// Declaration of a gate without a body: its name, its arguments and the
    /// names of its parameters.
    Opaque(String, Vec<Argument>, Vec<String>),
    /// Definition of a gate: its name, the names of the qubits it acts on,
    /// the names of its parameters, and the applications of its body.
    Gate(String, Vec<String>, Vec<String>, Vec<AstNode>),
    /// A statement that is applied when the classical register named holds
    /// the value given.
    If(String, i32, Box<AstNode>),
}

/// The mathematical value of an [`Argument`].
pub enum SpecArgument {
    Qubit(Seq<char>, i32),
    Register(Seq<char>),
}

/// The mathematical value of an [`AstNode`].
pub enum SpecNode {
    QReg(Seq<char>, i32),
    CReg(Seq<char>, i32),
    Barrier(SpecArgument),
    Reset(SpecArgument),
    Measure(SpecArgument, SpecArgument),
    ApplyGate(Seq<char>, Seq<SpecArgument>, Seq<Seq<char>>),
    Opaque(Seq<char>, Seq<SpecArgument>, Seq<Seq<char>>),
    Gate(Seq<char>, Seq<Seq<char>>, Seq<Seq<char>>, Seq<SpecNode>),
    If(Seq<char>, i32, Box<SpecNode>),
}

pub open spec fn strings_view(v: Seq<String>) -> Seq<Seq<char>> {
    v.map_values(|s: String| s@)
}

pub open spec fn arguments_view(v: Seq<Argument>) -> Seq<SpecArgument> {
    v.map_values(|a: Argument| a@)
}

impl View for Argument {
    type V = SpecArgument;

    open spec fn view(&self) -> SpecArgument {
        match self {
            Argument::Qubit(name, index) => SpecArgument::Qubit(name@, *index),
            Argument::Register(name) => SpecArgument::Register(name@),
        }
    }
}

pub open spec fn node_view(n: AstNode) -> SpecNode
    decreases n,
{
    match n {
        AstNode::QReg(name, size) => SpecNode::QReg(name@, size),
        AstNode::CReg(name, size) => SpecNode::CReg(name@, size),
        AstNode::Barrier(a) => SpecNode::Barrier(a@),
        AstNode::Reset(a) => SpecNode::Reset(a@),
        AstNode::Measure(a, b) => SpecNode::Measure(a@, b@),
        AstNode::ApplyGate(name, args, params) => SpecNode::ApplyGate(
            name@,
            arguments_view(args@),
            strings_view(params@),
        ),
        AstNode::Opaque(name, args, params) => SpecNode::Opaque(
            name@,
            arguments_view(args@),
            strings_view(params@),
        ),
        AstNode::Gate(name, qubits, params, body) => SpecNode::Gate(
            name@,
            strings_view(qubits@),
            strings_view(params@),
            Seq::new(body.len() as nat, |i: int| if 0 <= i < body.len() { node_view(body[i]) } else { SpecNode::QReg(Seq::empty(), 0) }),
        ),
        AstNode::If(name, value, inner) => SpecNode::If(name@, value, Box::new(node_view(*inner))),
    }
}

impl View for AstNode {
    type V = SpecNode;

    open spec fn view(&self) -> SpecNode {
        node_view(*self)
    }
}

pub open spec fn nodes_view(v: Seq<AstNode>) -> Seq<SpecNode> {
    v.map_values(|n: AstNode| n@)
}

} // verus!
