use vstd::prelude::*;

use crate::reg::RegisterLabel;
use crate::tmp::{TmpChild, TmpChildV, TmpNode, TmpNodeV};
use crate::typechecker::TaggedType;

verus! {

/// One SSIR instruction.
#[derive(Debug, PartialEq)]
pub enum Instruction {
    /// Compute a temporary; the register slot starts empty and the labeler
    /// fills it.
    TmpNode(TmpNode, TaggedType, Option<RegisterLabel>),
    /// Materialize a local variable from a computed operand.
    VarDecl(String, TmpChild, TaggedType),
    /// Overwrite an existing local.
    VarAssign(String, TmpChild, TaggedType),
    /// Branch on a condition, carried as a single captured temporary whose
    /// comparison was inverted.
    If(TmpNode),
    /// Jump to the label with the given id.
    Jump(usize),
    /// End of a statement: the labeler releases every transient register.
    Pop,
}

/// The mathematical value of an instruction.
pub enum InstructionV {
    TmpNode(TmpNodeV, TaggedType, Option<RegisterLabel>),
    VarDecl(Seq<char>, TmpChildV, TaggedType),
    VarAssign(Seq<char>, TmpChildV, TaggedType),
    If(TmpNodeV),
    Jump(usize),
    Pop,
}

impl View for Instruction {
    type V = InstructionV;

    open spec fn view(&self) -> InstructionV {
        match self {
            Instruction::TmpNode(n, t, l) => InstructionV::TmpNode(n@, *t, *l),
            Instruction::VarDecl(s, c, t) => InstructionV::VarDecl(s@, c@, *t),
            Instruction::VarAssign(s, c, t) => InstructionV::VarAssign(s@, c@, *t),
            Instruction::If(n) => InstructionV::If(n@),
            Instruction::Jump(l) => InstructionV::Jump(*l),
            Instruction::Pop => InstructionV::Pop,
        }
    }
}

/// The views of a stream of instructions.
pub open spec fn stream_view(v: Seq<Instruction>) -> Seq<InstructionV> {
    v.map_values(|i: Instruction| i@)
}

/// A labeled basic block: a container of instructions that jumps target.
#[derive(Debug, PartialEq)]
pub struct Label {
    pub instructions: Vec<Instruction>,
    pub id: usize,
}

/// The mathematical value of a label.
pub struct LabelV {
    pub instructions: Seq<InstructionV>,
    pub id: usize,
}

impl View for Label {
    type V = LabelV;

    open spec fn view(&self) -> LabelV {
        LabelV { instructions: stream_view(self.instructions@), id: self.id }
    }
}

impl Label {
    pub fn new(id: usize) -> (r: Label)
        ensures
            r@.instructions == Seq::<InstructionV>::empty(),
            r@.id == id,
    {
        let r = Label { instructions: Vec::new(), id };
        proof {
            assert(r@.instructions =~= Seq::<InstructionV>::empty());
        }
        r
    }

    /// Append one instruction to this block.
    pub fn add_ins(&mut self, ins: Instruction)
        ensures
            final(self)@.instructions == old(self)@.instructions.push(ins@),
            final(self)@.id == old(self)@.id,
    {
        let ghost iv = ins@;
        self.instructions.push(ins);
        proof {
            assert(self@.instructions =~= old(self)@.instructions.push(iv));
        }
    }
}

/// One function of the SSIR: its entry instruction stream and its labels, in
/// order of creation.
#[derive(Debug, PartialEq)]
pub struct Function {
    pub instructions: Vec<Instruction>,
    pub labels: Vec<Label>,
    pub name: String,
}

/// The mathematical value of a function.
pub struct FunctionV {
    pub instructions: Seq<InstructionV>,
    pub labels: Seq<LabelV>,
    pub name: Seq<char>,
}

impl View for Function {
    type V = FunctionV;

    open spec fn view(&self) -> FunctionV {
        FunctionV {
            instructions: stream_view(self.instructions@),
            labels: self.labels@.map_values(|l: Label| l@),
            name: self.name@,
        }
    }
}

impl Function {
    pub fn new(name: String) -> (r: Function)
        ensures
            r@.instructions == Seq::<InstructionV>::empty(),
            r@.labels == Seq::<LabelV>::empty(),
            r@.name == name@,
    {
        let r = Function { instructions: Vec::new(), labels: Vec::new(), name };
        proof {
            assert(r@.instructions =~= Seq::<InstructionV>::empty());
            assert(r@.labels =~= Seq::<LabelV>::empty());
        }
        r
    }

    /// Append one instruction to the entry stream.
    pub fn add_ins(&mut self, ins: Instruction)
        ensures
            final(self)@.instructions == old(self)@.instructions.push(ins@),
            final(self)@.labels == old(self)@.labels,
            final(self)@.name == old(self)@.name,
    {
        let ghost iv = ins@;
        self.instructions.push(ins);
        proof {
            assert(self@.instructions =~= old(self)@.instructions.push(iv));
        }
    }

    /// Append one finished label.
    pub fn add_label(&mut self, label: Label)
        ensures
            final(self)@.labels == old(self)@.labels.push(label@),
            final(self)@.instructions == old(self)@.instructions,
            final(self)@.name == old(self)@.name,
    {
        let ghost lv = label@;
        self.labels.push(label);
        proof {
            assert(self@.labels =~= old(self)@.labels.push(lv));
        }
    }
}

} // verus!
