use vstd::prelude::*;

use crate::ast::{Binary, BinaryOp, Logical, Node};

verus! {

/// The comparison operators.
pub open spec fn is_comparison(op: BinaryOp) -> bool {
    match op {
        BinaryOp::Greater
        | BinaryOp::GreaterEq
        | BinaryOp::Less
        | BinaryOp::LessEq
        | BinaryOp::Equal
        | BinaryOp::NotEqual => true,
        _ => false,
    }
}

/// The inverse of a comparison operator; every other operator stays as it
/// is.
pub open spec fn spec_reverse_op(op: BinaryOp) -> BinaryOp {
    match op {
        BinaryOp::Equal => BinaryOp::NotEqual,
        BinaryOp::NotEqual => BinaryOp::Equal,
        BinaryOp::Greater => BinaryOp::LessEq,
        BinaryOp::GreaterEq => BinaryOp::Less,
        BinaryOp::Less => BinaryOp::GreaterEq,
        BinaryOp::LessEq => BinaryOp::Greater,
        _ => op,
    }
}

/// Reversing an operator twice gives the operator back; in particular the
/// reversal is an involution on the comparison operators.
pub proof fn lemma_reverse_op_involution(op: BinaryOp)
    ensures
        spec_reverse_op(spec_reverse_op(op)) == op,
{
}

/// How `reverse_binary` rewrites a condition tree: binary nodes have their
/// comparison operator inverted and both operands rewritten, logical nodes
/// have both operands rewritten, and every other node stays exactly as it
/// was.
pub open spec fn reversed_rel(a: Node, b: Node) -> bool
    decreases a,
{
    match a {
        Node::Binary(x) => match b {
            Node::Binary(y) => {
                &&& y.op == spec_reverse_op(x.op)
                &&& reversed_rel(*x.lhs, *y.lhs)
                &&& reversed_rel(*x.rhs, *y.rhs)
            },
            _ => false,
        },
        Node::Logical(x) => match b {
            Node::Logical(y) => {
                &&& y.op == x.op
                &&& reversed_rel(*x.lhs, *y.lhs)
                &&& reversed_rel(*x.rhs, *y.rhs)
            },
            _ => false,
        },
        _ => b == a,
    }
}

/// Invert an operator.
pub fn reverse_op(op: BinaryOp) -> (r: BinaryOp)
    ensures
        r == spec_reverse_op(op),
{
    match op {
        BinaryOp::Equal => BinaryOp::NotEqual,
        BinaryOp::NotEqual => BinaryOp::Equal,
        BinaryOp::Greater => BinaryOp::LessEq,
        BinaryOp::GreaterEq => BinaryOp::Less,
        BinaryOp::Less => BinaryOp::GreaterEq,
        BinaryOp::LessEq => BinaryOp::Greater,
        op => op,
    }
}

/// Invert every comparison in a condition tree, descending through binary
/// and logical nodes, so that the emitted branch can jump past the then-arm
/// on the opposite sense and let it fall through.
pub fn reverse_binary(node: Box<Node>) -> (r: Box<Node>)
    ensures
        reversed_rel(*node, *r),
    decreases *node,
{
    match *node {
        Node::Binary(b) => {
            let Binary { lhs, rhs, op } = b;
            let lhs2 = reverse_binary(lhs);
            let rhs2 = reverse_binary(rhs);
            let op2 = reverse_op(op);
            Box::new(Node::Binary(Binary { lhs: lhs2, rhs: rhs2, op: op2 }))
        },
        Node::Logical(l) => {
            let Logical { lhs, rhs, op } = l;
            let lhs2 = reverse_binary(lhs);
            let rhs2 = reverse_binary(rhs);
            Box::new(Node::Logical(Logical { lhs: lhs2, rhs: rhs2, op }))
        },
        other => Box::new(other),
    }
}

} // verus!
