use vstd::prelude::*;

use crate::ast::{BinaryOp, LogicalOp, UnaryOp};
use crate::reg::RegisterLabel;
use crate::typechecker::TaggedType;

verus! {

/// An operand of an SSIR temporary: a literal, a load of a named local, a
/// reference to an earlier temporary, or the sentinel for statement
/// contexts.
#[derive(Debug, PartialEq)]
pub enum TmpChild {
    Literal(String, TaggedType),
    LoadVar(String, TaggedType),
    TmpRef(usize, TaggedType, Option<RegisterLabel>),
    NoneChild,
}

/// The mathematical value of an operand.
pub enum TmpChildV {
    Literal(Seq<char>, TaggedType),
    LoadVar(Seq<char>, TaggedType),
    TmpRef(usize, TaggedType, Option<RegisterLabel>),
    NoneChild,
}

impl View for TmpChild {
    type V = TmpChildV;

    open spec fn view(&self) -> TmpChildV {
        match self {
            TmpChild::Literal(s, t) => TmpChildV::Literal(s@, *t),
            TmpChild::LoadVar(s, t) => TmpChildV::LoadVar(s@, *t),
            TmpChild::TmpRef(id, t, l) => TmpChildV::TmpRef(*id, *t, *l),
            TmpChild::NoneChild => TmpChildV::NoneChild,
        }
    }
}

impl TmpChild {
    /// A copy of this operand.
    pub fn duplicate(&self) -> (r: TmpChild)
        ensures
            r@ == self@,
    {
        match self {
            TmpChild::Literal(s, t) => TmpChild::Literal(s.clone(), *t),
            TmpChild::LoadVar(s, t) => TmpChild::LoadVar(s.clone(), *t),
            TmpChild::TmpRef(id, t, l) => TmpChild::TmpRef(*id, *t, *l),
            TmpChild::NoneChild => TmpChild::NoneChild,
        }
    }
}

/// One computed temporary.
#[derive(Debug, PartialEq)]
pub enum TmpNode {
    BinaryTmp(BinaryTmp),
    ValueTmp(ValueTmp),
    UnaryTmp(UnaryTmp),
    LogicalTmp(LogicalTmp),
    AssignTmp(AssignTmp),
    GroupingTmp(GroupingTmp),
}

/// The mathematical value of a temporary.
pub enum TmpNodeV {
    BinaryTmp(BinaryTmpV),
    ValueTmp(ValueTmpV),
    UnaryTmp(UnaryTmpV),
    LogicalTmp(LogicalTmpV),
    AssignTmp(AssignTmpV),
    GroupingTmp(GroupingTmpV),
}

impl View for TmpNode {
    type V = TmpNodeV;

    open spec fn view(&self) -> TmpNodeV {
        match self {
            TmpNode::BinaryTmp(b) => TmpNodeV::BinaryTmp(
                BinaryTmpV { lhs: b.lhs@, rhs: b.rhs@, op: b.op, id: b.id, tipe: b.tipe },
            ),
            TmpNode::ValueTmp(v) => TmpNodeV::ValueTmp(ValueTmpV { value: v.value@, id: v.id }),
            TmpNode::UnaryTmp(u) => TmpNodeV::UnaryTmp(
                UnaryTmpV { value: u.value@, op: u.op, id: u.id },
            ),
            TmpNode::LogicalTmp(l) => TmpNodeV::LogicalTmp(
                LogicalTmpV { lhs: l.lhs@, rhs: l.rhs@, op: l.op, id: l.id },
            ),
            TmpNode::AssignTmp(a) => TmpNodeV::AssignTmp(AssignTmpV { value: a.value@, id: a.id }),
            TmpNode::GroupingTmp(g) => TmpNodeV::GroupingTmp(
                GroupingTmpV { expr: g.expr@, id: g.id, tipe: g.tipe },
            ),
        }
    }
}

#[derive(Debug, PartialEq)]
pub struct BinaryTmp {
    pub lhs: TmpChild,
    pub rhs: TmpChild,
    pub op: BinaryOp,
    pub id: usize,
    pub tipe: TaggedType,
}

pub struct BinaryTmpV {
    pub lhs: TmpChildV,
    pub rhs: TmpChildV,
    pub op: BinaryOp,
    pub id: usize,
    pub tipe: TaggedType,
}

impl View for BinaryTmp {
    type V = BinaryTmpV;

    open spec fn view(&self) -> BinaryTmpV {
        BinaryTmpV { lhs: self.lhs@, rhs: self.rhs@, op: self.op, id: self.id, tipe: self.tipe }
    }
}

impl BinaryTmp {
    pub fn new(lhs: TmpChild, rhs: TmpChild, op: BinaryOp, id: usize, tipe: TaggedType) -> (r:
        BinaryTmp)
        ensures
            r@ == (BinaryTmpV { lhs: lhs@, rhs: rhs@, op, id, tipe }),
    {
        BinaryTmp { lhs, rhs, op, id, tipe }
    }
}

#[derive(Debug, PartialEq)]
pub struct ValueTmp {
    pub value: TmpChild,
    pub id: usize,
}

pub struct ValueTmpV {
    pub value: TmpChildV,
    pub id: usize,
}

impl View for ValueTmp {
    type V = ValueTmpV;

    open spec fn view(&self) -> ValueTmpV {
        ValueTmpV { value: self.value@, id: self.id }
    }
}

impl ValueTmp {
    pub fn new(value: TmpChild, id: usize) -> (r: ValueTmp)
        ensures
            r@ == (ValueTmpV { value: value@, id }),
    {
        ValueTmp { value, id }
    }
}

#[derive(Debug, PartialEq)]
pub struct UnaryTmp {
    pub value: TmpChild,
    pub op: UnaryOp,
    pub id: usize,
}

pub struct UnaryTmpV {
    pub value: TmpChildV,
    pub op: UnaryOp,
    pub id: usize,
}

impl View for UnaryTmp {
    type V = UnaryTmpV;

    open spec fn view(&self) -> UnaryTmpV {
        UnaryTmpV { value: self.value@, op: self.op, id: self.id }
    }
}

impl UnaryTmp {
    pub fn new(value: TmpChild, op: UnaryOp, id: usize) -> (r: UnaryTmp)
        ensures
            r@ == (UnaryTmpV { value: value@, op, id }),
    {
        UnaryTmp { value, op, id }
    }
}

#[derive(Debug, PartialEq)]
pub struct LogicalTmp {
    pub lhs: TmpChild,
    pub rhs: TmpChild,
    pub op: LogicalOp,
    pub id: usize,
}

pub struct LogicalTmpV {
    pub lhs: TmpChildV,
    pub rhs: TmpChildV,
    pub op: LogicalOp,
    pub id: usize,
}

impl View for LogicalTmp {
    type V = LogicalTmpV;

    open spec fn view(&self) -> LogicalTmpV {
        LogicalTmpV { lhs: self.lhs@, rhs: self.rhs@, op: self.op, id: self.id }
    }
}

impl LogicalTmp {
    pub fn new(lhs: TmpChild, rhs: TmpChild, op: LogicalOp, id: usize) -> (r: LogicalTmp)
        ensures
            r@ == (LogicalTmpV { lhs: lhs@, rhs: rhs@, op, id }),
    {
        LogicalTmp { lhs, rhs, op, id }
    }
}

#[derive(Debug, PartialEq)]
pub struct AssignTmp {
    pub value: TmpChild,
    pub id: usize,
}

pub struct AssignTmpV {
    pub value: TmpChildV,
    pub id: usize,
}

impl View for AssignTmp {
    type V = AssignTmpV;

    open spec fn view(&self) -> AssignTmpV {
        AssignTmpV { value: self.value@, id: self.id }
    }
}

impl AssignTmp {
    pub fn new(value: TmpChild, id: usize) -> (r: AssignTmp)
        ensures
            r@ == (AssignTmpV { value: value@, id }),
    {
        AssignTmp { value, id }
    }
}

#[derive(Debug, PartialEq)]
pub struct GroupingTmp {
    pub expr: TmpChild,
    pub id: usize,
    pub tipe: TaggedType,
}

pub struct GroupingTmpV {
    pub expr: TmpChildV,
    pub id: usize,
    pub tipe: TaggedType,
}

impl View for GroupingTmp {
    type V = GroupingTmpV;

    open spec fn view(&self) -> GroupingTmpV {
        GroupingTmpV { expr: self.expr@, id: self.id, tipe: self.tipe }
    }
}

impl GroupingTmp {
    pub fn new(expr: TmpChild, tipe: TaggedType, id: usize) -> (r: GroupingTmp)
        ensures
            r@ == (GroupingTmpV { expr: expr@, id, tipe }),
    {
        GroupingTmp { expr, id, tipe }
    }
}

} // verus!
