use vstd::prelude::*;

use crate::ast::{BinaryOp, Node};
use crate::ins::{stream_view, Function, FunctionV, Instruction, InstructionV, Label, LabelV};
use crate::tmp::{TmpChild, TmpChildV, TmpNode, TmpNodeV};
use crate::typechecker::{TaggedType, TypeKind};
use crate::var_table::{VarTable, Variable};

verus! {

/// Errors of the SSIR builder.
#[derive(Debug, PartialEq)]
pub enum SsirError {
    /// A variable was read that no declaration brought into scope.
    UndefinedVariable(String),
    /// An instruction was emitted with no open function.
    NotInFunction,
    /// An `if` condition that does not lower to a single captured temporary.
    MissingCondition,
    /// A node kind the builder does not lower, or a statement standing where
    /// a value is needed.
    UnsupportedNode,
    /// The temporary or label counter ran out.
    CounterOverflow,
}

/// The type tag an operand carries; the statement sentinel carries none.
pub open spec fn spec_child_type(c: TmpChildV) -> TaggedType {
    match c {
        TmpChildV::Literal(_, t) => t,
        TmpChildV::LoadVar(_, t) => t,
        TmpChildV::TmpRef(_, t, _) => t,
        TmpChildV::NoneChild => TaggedType { size: 0, kind: TypeKind::NoneKind, signed: None },
    }
}

/// The type tag of an operand. Only value operands carry one.
pub fn get_child_type(child: &TmpChild) -> (r: TaggedType)
    requires
        !(child@ is NoneChild),
    ensures
        r == spec_child_type(child@),
{
    match child {
        TmpChild::Literal(_, tipe) => *tipe,
        TmpChild::LoadVar(_, tipe) => *tipe,
        TmpChild::TmpRef(_, tipe, _) => *tipe,
        TmpChild::NoneChild => TaggedType { size: 0, kind: TypeKind::NoneKind, signed: None },
    }
}

/// The id a temporary defines.
pub open spec fn tmp_id(n: TmpNodeV) -> usize {
    match n {
        TmpNodeV::BinaryTmp(b) => b.id,
        TmpNodeV::ValueTmp(v) => v.id,
        TmpNodeV::UnaryTmp(u) => u.id,
        TmpNodeV::LogicalTmp(l) => l.id,
        TmpNodeV::AssignTmp(a) => a.id,
        TmpNodeV::GroupingTmp(g) => g.id,
    }
}

/// An operand either is no reference or refers to a defined id.
pub open spec fn child_ok(c: TmpChildV, defined: Set<usize>) -> bool {
    match c {
        TmpChildV::TmpRef(id, _, _) => defined.contains(id),
        _ => true,
    }
}

/// Every reference operand of a temporary refers to a defined id.
pub open spec fn node_ok(n: TmpNodeV, defined: Set<usize>) -> bool {
    match n {
        TmpNodeV::BinaryTmp(b) => child_ok(b.lhs, defined) && child_ok(b.rhs, defined),
        TmpNodeV::ValueTmp(v) => child_ok(v.value, defined),
        TmpNodeV::UnaryTmp(u) => child_ok(u.value, defined),
        TmpNodeV::LogicalTmp(l) => child_ok(l.lhs, defined) && child_ok(l.rhs, defined),
        TmpNodeV::AssignTmp(a) => child_ok(a.value, defined),
        TmpNodeV::GroupingTmp(g) => child_ok(g.expr, defined),
    }
}

/// Every reference inside one instruction refers to a defined id.
pub open spec fn ins_refs_ok(i: InstructionV, defined: Set<usize>) -> bool {
    match i {
        InstructionV::TmpNode(n, _, _) => node_ok(n, defined),
        InstructionV::VarDecl(_, c, _) => child_ok(c, defined),
        InstructionV::VarAssign(_, c, _) => child_ok(c, defined),
        InstructionV::If(n) => node_ok(n, defined),
        _ => true,
    }
}

/// The id an instruction defines; instructions that define no temporary
/// give zero.
pub open spec fn ins_tmp_id(i: InstructionV) -> usize {
    match i {
        InstructionV::TmpNode(n, _, _) => tmp_id(n),
        _ => 0,
    }
}

/// The ids that the temporaries of a stream define.
pub open spec fn defined_after(s: Seq<InstructionV>) -> Set<usize>
    decreases s.len(),
{
    if s.len() == 0 {
        Set::empty()
    } else {
        match s.last() {
            InstructionV::TmpNode(n, _, _) => defined_after(s.drop_last()).insert(tmp_id(n)),
            _ => defined_after(s.drop_last()),
        }
    }
}

/// Every temporary reference in the stream refers to a temporary that an
/// earlier instruction of the same stream defined.
pub open spec fn stream_refs_ok(s: Seq<InstructionV>) -> bool {
    forall|k: int|
        0 <= k < s.len() ==> ins_refs_ok(#[trigger] s[k], defined_after(s.subrange(0, k)))
}

/// Every stream of a function is closed under its references.
pub open spec fn fn_refs_ok(f: FunctionV) -> bool {
    &&& stream_refs_ok(f.instructions)
    &&& forall|i: int|
        0 <= i < f.labels.len() ==> stream_refs_ok((#[trigger] f.labels[i]).instructions)
}

/// The ids of a sequence of labels, in order.
pub open spec fn lab_ids(s: Seq<LabelV>) -> Seq<usize> {
    s.map_values(|l: LabelV| l.id)
}

/// The ids of a function's labels, in order of creation.
pub open spec fn label_ids(f: FunctionV) -> Seq<usize> {
    lab_ids(f.labels)
}

/// Pushing a label whose id tops every present one keeps the ids strictly
/// increasing.
pub proof fn lemma_push_label_increasing(s: Seq<LabelV>, l: LabelV)
    requires
        strictly_increasing(lab_ids(s)),
        forall|i: int| 0 <= i < s.len() ==> (#[trigger] s[i]).id < l.id,
    ensures
        strictly_increasing(lab_ids(s.push(l))),
{
    let s2 = lab_ids(s.push(l));
    assert forall|i: int, j: int| 0 <= i < j < s2.len() implies s2[i] < s2[j] by {
        assert(s2[i] == s.push(l)[i].id);
        assert(s2[j] == s.push(l)[j].id);
        if j < s.len() {
            assert(lab_ids(s)[i] == s[i].id);
            assert(lab_ids(s)[j] == s[j].id);
        } else {
            assert(s.push(l)[j] == l);
            if i < s.len() {
                assert(s.push(l)[i] == s[i]);
            }
        }
    }
}

/// A sequence of strictly increasing numbers.
pub open spec fn strictly_increasing(s: Seq<usize>) -> bool {
    forall|i: int, j: int| 0 <= i < j < s.len() ==> s[i] < s[j]
}

/// Appending an instruction keeps every earlier reference valid and makes
/// the new instruction's references valid.
pub proof fn lemma_push_refs_ok(s: Seq<InstructionV>, i: InstructionV)
    requires
        stream_refs_ok(s),
        ins_refs_ok(i, defined_after(s)),
    ensures
        stream_refs_ok(s.push(i)),
        defined_after(s).subset_of(defined_after(s.push(i))),
{
    let s2 = s.push(i);
    assert(s2.drop_last() =~= s);
    assert forall|k: int|
        0 <= k < s2.len() implies ins_refs_ok(
        #[trigger] s2[k],
        defined_after(s2.subrange(0, k)),
    ) by {
        if k < s.len() {
            assert(s2.subrange(0, k) =~= s.subrange(0, k));
            assert(s2[k] == s[k]);
        } else {
            assert(s2.subrange(0, k) =~= s);
            assert(s2[k] == i);
        }
    }
}

/// Appending a temporary defines exactly its id in addition.
pub proof fn lemma_defined_push_tmp(
    s: Seq<InstructionV>,
    n: TmpNodeV,
    t: TaggedType,
    l: Option<crate::reg::RegisterLabel>,
)
    ensures
        defined_after(s.push(InstructionV::TmpNode(n, t, l))) == defined_after(s).insert(tmp_id(n)),
{
    assert(s.push(InstructionV::TmpNode(n, t, l)).drop_last() =~= s);
}

/// A defined id stays defined as the stream grows.
pub proof fn lemma_defined_monotone(s: Seq<InstructionV>, i: InstructionV)
    ensures
        defined_after(s).subset_of(defined_after(s.push(i))),
{
    assert(s.push(i).drop_last() =~= s);
}

/// A node without `if` statements or nested function declarations.
pub open spec fn plain_stmts(n: Node) -> bool
    decreases n,
{
    match n {
        Node::If(_) => false,
        Node::Function(_) => false,
        Node::Binary(b) => plain_stmts(*b.lhs) && plain_stmts(*b.rhs),
        Node::Logical(l) => plain_stmts(*l.lhs) && plain_stmts(*l.rhs),
        Node::Unary(u) => plain_stmts(*u.expr),
        Node::Grouping(g) => plain_stmts(*g.expr),
        Node::GetPtr(g) => plain_stmts(*g.expr),
        Node::Assign(a) => plain_stmts(*a.value),
        Node::VarDecl(d) => plain_stmts(*d.value),
        Node::ExprStmt(e) => plain_stmts(*e.expr),
        Node::Block(b) => plain_seq(b.statements@),
        Node::ArrayLiteral(items, _, _, _) => plain_seq(items@),
        _ => true,
    }
}

/// Every statement of the sequence is plain.
pub open spec fn plain_seq(s: Seq<Box<Node>>) -> bool
    decreases s,
{
    if s.len() == 0 {
        true
    } else {
        plain_stmts(*s.first()) && plain_seq(s.drop_first())
    }
}

/// Every `if` in the tree carries a then-arm with no nested `if` and no
/// nested function declaration.
pub open spec fn then_arms_plain(n: Node) -> bool
    decreases n,
{
    match n {
        Node::If(i) => plain_stmts(*i.then_block) && then_arms_plain(*i.condition)
            && then_arms_plain(*i.then_block) && match i.else_block {
            Some(e) => then_arms_plain(*e),
            None => true,
        },
        Node::Function(f) => then_arms_plain(*f.body),
        Node::Binary(b) => then_arms_plain(*b.lhs) && then_arms_plain(*b.rhs),
        Node::Logical(l) => then_arms_plain(*l.lhs) && then_arms_plain(*l.rhs),
        Node::Unary(u) => then_arms_plain(*u.expr),
        Node::Grouping(g) => then_arms_plain(*g.expr),
        Node::GetPtr(g) => then_arms_plain(*g.expr),
        Node::Assign(a) => then_arms_plain(*a.value),
        Node::VarDecl(d) => then_arms_plain(*d.value),
        Node::ExprStmt(e) => then_arms_plain(*e.expr),
        Node::Block(b) => then_arms_plain_seq(b.statements@),
        Node::ArrayLiteral(items, _, _, _) => then_arms_plain_seq(items@),
        _ => true,
    }
}

/// Every statement of the sequence has plain then-arms.
pub open spec fn then_arms_plain_seq(s: Seq<Box<Node>>) -> bool
    decreases s,
{
    if s.len() == 0 {
        true
    } else {
        then_arms_plain(*s.first()) && then_arms_plain_seq(s.drop_first())
    }
}

/// Secondary stage intermediate representation: the builder that lowers the
/// annotated AST to per-function instruction streams with labeled blocks.
pub struct SSir {
    pub tmp_count: usize,
    pub functions: Vec<Function>,
    pub func: Option<Function>,
    pub label: Option<Label>,
    pub label_count: usize,
    pub variables: VarTable,
}

impl SSir {
    /// The stream that `add_ins` currently appends to.
    pub open spec fn sink(self) -> Seq<InstructionV> {
        match self.label {
            Some(l) => l@.instructions,
            None => match self.func {
                Some(f) => f@.instructions,
                None => Seq::empty(),
            },
        }
    }

    /// Every stream that the builder holds is closed under its references,
    /// and a captured condition refers only to temporaries of the current
    /// sink.
    pub open spec fn refs_wf(self) -> bool {
        &&& forall|i: int| 0 <= i < self.functions@.len() ==> fn_refs_ok((#[trigger] self.functions@[i])@)
        &&& match self.func {
            Some(f) => fn_refs_ok(f@),
            None => true,
        }
        &&& match self.label {
            Some(l) => stream_refs_ok(l@.instructions),
            None => true,
        }
    }

    /// The label bookkeeping that keeps label ids strictly increasing within
    /// each function: finished functions are done; the open function's
    /// pushed labels are increasing and no larger than the label counter;
    /// the open label is newer than every pushed one and at most one ahead
    /// of the counter.
    pub open spec fn labels_wf(self) -> bool {
        &&& forall|i: int|
            0 <= i < self.functions@.len() ==> strictly_increasing(
                label_ids((#[trigger] self.functions@[i])@),
            )
        &&& match self.func {
            Some(f) => strictly_increasing(label_ids(f@)) && (forall|i: int|
                0 <= i < f@.labels.len() ==> (#[trigger] f@.labels[i]).id <= self.label_count),
            None => true,
        }
        &&& match self.label {
            Some(l) => (l@.id == self.label_count || l@.id == self.label_count + 1) && (
            match self.func {
                Some(f) => forall|i: int|
                    0 <= i < f@.labels.len() ==> (#[trigger] f@.labels[i]).id < l@.id,
                None => true,
            }),
            None => true,
        }
    }

    /// A fresh builder.
    pub fn new() -> (r: SSir)
        ensures
            r.refs_wf(),
            r.labels_wf(),
            r.tmp_count == 1,
            r.label_count == 0,
            r.functions@.len() == 0,
            r.func is None,
            r.label is None,
    {
        SSir {
            tmp_count: 1,
            functions: Vec::new(),
            func: None,
            label: None,
            label_count: 0,
            variables: VarTable::new(),
        }
    }

    /// Mint the next temporary id.
    fn get_tmp_id(&mut self) -> (r: Result<usize, SsirError>)
        ensures
            *final(self) == (SSir { tmp_count: final(self).tmp_count, ..*old(self) }),
            match r {
                Ok(id) => old(self).tmp_count < usize::MAX && id == old(self).tmp_count + 1
                    && final(self).tmp_count == id,
                Err(e) => e == SsirError::CounterOverflow && old(self).tmp_count == usize::MAX
                    && final(self).tmp_count == old(self).tmp_count,
            },
    {
        if self.tmp_count == usize::MAX {
            return Err(SsirError::CounterOverflow);
        }
        self.tmp_count = self.tmp_count + 1;
        Ok(self.tmp_count)
    }

    /// Append one instruction to the open label, or to the open function's
    /// entry stream when no label is open.
    #[verifier::rlimit(60)]
    fn add_ins(&mut self, ins: Instruction) -> (r: Result<(), SsirError>)
        requires
            old(self).refs_wf(),
            ins_refs_ok(ins@, defined_after(old(self).sink())),
        ensures
            final(self).refs_wf(),
            old(self).labels_wf() ==> final(self).labels_wf(),
            match r {
                Ok(()) => {
                    &&& final(self).sink() == old(self).sink().push(ins@)
                    &&& (final(self).label is Some <==> old(self).label is Some)
                    &&& (final(self).func is Some <==> old(self).func is Some)
                    &&& final(self).functions == old(self).functions
                    &&& final(self).tmp_count == old(self).tmp_count
                    &&& final(self).label_count == old(self).label_count
                    &&& final(self).variables == old(self).variables
                    &&& (old(self).label is Some || old(self).func is Some)
                    &&& match (old(self).label, final(self).label) {
                        (Some(a), Some(b)) => b@.id == a@.id,
                        (None, None) => true,
                        _ => false,
                    }
                    &&& match (old(self).func, final(self).func) {
                        (Some(a), Some(b)) => b@.labels == a@.labels && b@.name == a@.name && (
                        old(self).label is Some ==> b@.instructions == a@.instructions),
                        (None, None) => true,
                        _ => false,
                    }
                },
                Err(e) => {
                    &&& e == SsirError::NotInFunction
                    &&& old(self).label is None && old(self).func is None
                    &&& *final(self) == *old(self)
                },
            },
    {
        proof {
            lemma_defined_monotone(old(self).sink(), ins@);
        }
        if self.label.is_some() {
            let l = self.label.as_mut().unwrap();
            let ghost pre = l@.instructions;
            l.add_ins(ins);
            proof {
                lemma_push_refs_ok(pre, ins@);
            }
            Ok(())
        } else if self.func.is_some() {
            let f = self.func.as_mut().unwrap();
            let ghost pre = f@.instructions;
            f.add_ins(ins);
            proof {
                lemma_push_refs_ok(pre, ins@);
            }
            Ok(())
        } else {
            Err(SsirError::NotInFunction)
        }
    }

    /// Emit one temporary into the current stream.
    fn emit_tmp(&mut self, node: TmpNode, tipe: TaggedType) -> (r: Result<(), SsirError>)
        requires
            old(self).refs_wf(),
            node_ok(node@, defined_after(old(self).sink())),
        ensures
            final(self).refs_wf(),
            old(self).labels_wf() ==> final(self).labels_wf(),
            match r {
                Ok(()) => {
                    &&& stable_labels(*old(self), *final(self))
                    &&& extends(old(self).sink(), final(self).sink())
                    &&& defined_after(final(self).sink()).contains(tmp_id(node@))
                    &&& final(self).tmp_count == old(self).tmp_count
                    &&& final(self).variables == old(self).variables
                },
                Err(e) => e == SsirError::NotInFunction && *final(self) == *old(self),
            },
    {
        let ghost nv = node@;
        let ghost pre = *self;
        match self.add_ins(Instruction::TmpNode(node, tipe, None)) {
            Ok(()) => {
                proof {
                    lemma_extends_push(pre.sink(), InstructionV::TmpNode(nv, tipe, None));
                    lemma_defined_push_tmp(pre.sink(), nv, tipe, None);
                }
                Ok(())
            },
            Err(e) => Err(e),
        }
    }

    /// Open a fresh function and make it the target of emission. Any
    /// half-built function is dropped.
    fn add_func(&mut self, name: String)
        requires
            old(self).refs_wf(),
        ensures
            final(self).refs_wf(),
            *final(self) == (SSir { func: final(self).func, ..*old(self) }),
            final(self).func matches Some(f) && f@.instructions == Seq::<InstructionV>::empty()
                && f@.labels == Seq::<crate::ins::LabelV>::empty() && f@.name == name@,
    {
        self.func = Some(Function::new(name));
        proof {
            assert(stream_refs_ok(Seq::<InstructionV>::empty()));
        }
    }

    /// Reopen the reserved label id as the current label. Any half-built
    /// label is dropped.
    fn swap_label(&mut self, label_count: usize)
        requires
            old(self).refs_wf(),
        ensures
            final(self).refs_wf(),
            *final(self) == (SSir { label: final(self).label, ..*old(self) }),
            final(self).label matches Some(l) && l@.instructions == Seq::<InstructionV>::empty()
                && l@.id == label_count,
    {
        self.label = Some(Label::new(label_count));
        proof {
            assert(stream_refs_ok(Seq::<InstructionV>::empty()));
        }
    }

    /// Mint the next label id and open it as the current label. Any
    /// half-built label is dropped.
    fn add_label(&mut self) -> (r: Result<(), SsirError>)
        requires
            old(self).refs_wf(),
        ensures
            final(self).refs_wf(),
            match r {
                Ok(()) => {
                    &&& old(self).label_count < usize::MAX
                    &&& *final(self) == (SSir {
                        label: final(self).label,
                        label_count: (old(self).label_count + 1) as usize,
                        ..*old(self)
                    })
                    &&& final(self).label matches Some(l) && l@.instructions
                        == Seq::<InstructionV>::empty() && l@.id == old(self).label_count + 1
                },
                Err(e) => e == SsirError::CounterOverflow && old(self).label_count == usize::MAX
                    && *final(self) == *old(self),
            },
    {
        if self.label_count == usize::MAX {
            return Err(SsirError::CounterOverflow);
        }
        self.label_count = self.label_count + 1;
        self.label = Some(Label::new(self.label_count));
        proof {
            assert(stream_refs_ok(Seq::<InstructionV>::empty()));
        }
        Ok(())
    }

    /// Move the open function to the finished ones.
    fn end_func(&mut self) -> (r: Result<(), SsirError>)
        requires
            old(self).refs_wf(),
        ensures
            final(self).refs_wf(),
            match r {
                Ok(()) => {
                    &&& old(self).func is Some
                    &&& (match old(self).func {
                        Some(f) => final(self).functions@ == old(self).functions@.push(f),
                        None => false,
                    })
                    &&& *final(self) == (SSir {
                        functions: final(self).functions,
                        func: None,
                        ..*old(self)
                    })
                },
                Err(e) => e == SsirError::NotInFunction && old(self).func is None && *final(self)
                    == *old(self),
            },
    {
        match self.func.take() {
            Some(f) => {
                let ghost fv = f;
                self.functions.push(f);
                proof {
                    assert(self.functions@ =~= old(self).functions@.push(fv));
                }
                Ok(())
            },
            None => Err(SsirError::NotInFunction),
        }
    }

    /// Close the current label and push it onto the open function.
    fn end_label(&mut self) -> (r: Result<(), SsirError>)
        requires
            old(self).refs_wf(),
        ensures
            final(self).refs_wf(),
            match r {
                Ok(()) => {
                    &&& old(self).label is Some
                    &&& old(self).func is Some
                    &&& (match (old(self).label, old(self).func, final(self).func) {
                        (Some(l), Some(f), Some(f2)) => f2@.labels == f@.labels.push(l@)
                            && f2@.instructions == f@.instructions && f2@.name == f@.name,
                        _ => false,
                    })
                    &&& *final(self) == (SSir {
                        func: final(self).func,
                        label: None,
                        ..*old(self)
                    })
                },
                Err(e) => e == SsirError::NotInFunction && (old(self).label is None || old(
                    self,
                ).func is None) && *final(self) == *old(self),
            },
    {
        if self.label.is_none() {
            return Err(SsirError::NotInFunction);
        }
        if self.func.is_none() {
            return Err(SsirError::NotInFunction);
        }
        let l = self.label.take().unwrap();
        let ghost lv = l@;
        let f = self.func.as_mut().unwrap();
        let ghost pre = f@;
        f.add_label(l);
        proof {
            assert(self.func matches Some(f2) && f2@.labels == pre.labels.push(lv));
        }
        Ok(())
    }

    /// Hand the finished functions out.
    pub fn get_functions(self) -> (r: Vec<Function>)
        ensures
            r == self.functions,
    {
        self.functions
    }
}

/// One stream extends another: the shorter is a prefix of the longer.
pub open spec fn extends(a: Seq<InstructionV>, b: Seq<InstructionV>) -> bool {
    a.len() <= b.len() && b.subrange(0, a.len() as int) == a
}

/// Extension keeps every defined id defined.
pub proof fn lemma_extends_defined(a: Seq<InstructionV>, b: Seq<InstructionV>)
    requires
        extends(a, b),
    ensures
        defined_after(a).subset_of(defined_after(b)),
    decreases b.len(),
{
    if b.len() == a.len() {
        assert(b =~= a);
    } else {
        assert(extends(a, b.drop_last())) by {
            assert(b.drop_last().subrange(0, a.len() as int) =~= b.subrange(0, a.len() as int));
        }
        lemma_extends_defined(a, b.drop_last());
        assert(b.drop_last().push(b.last()) =~= b);
        lemma_defined_monotone(b.drop_last(), b.last());
    }
}

/// A stream extends itself.
pub proof fn lemma_extends_refl(s: Seq<InstructionV>)
    ensures
        extends(s, s),
{
    assert(s.subrange(0, s.len() as int) =~= s);
}

/// A stream extends to itself plus one instruction.
pub proof fn lemma_extends_push(s: Seq<InstructionV>, i: InstructionV)
    ensures
        extends(s, s.push(i)),
{
    assert(s.push(i).subrange(0, s.len() as int) =~= s);
}

/// Extension is transitive.
pub proof fn lemma_extends_trans(a: Seq<InstructionV>, b: Seq<InstructionV>, c: Seq<InstructionV>)
    requires
        extends(a, b),
        extends(b, c),
    ensures
        extends(a, c),
{
    assert(c.subrange(0, a.len() as int) =~= a) by {
        assert forall|i: int| 0 <= i < a.len() implies c.subrange(0, a.len() as int)[i] == a[i] by {
            assert(c.subrange(0, b.len() as int)[i] == b[i]);
            assert(b.subrange(0, a.len() as int)[i] == a[i]);
        }
    }
}

/// The number of nodes in a tree, the termination measure of the lowering.
pub open spec fn node_size(n: Node) -> nat
    decreases n,
{
    match n {
        Node::Binary(b) => 1 + node_size(*b.lhs) + node_size(*b.rhs),
        Node::Logical(l) => 1 + node_size(*l.lhs) + node_size(*l.rhs),
        Node::Unary(u) => 1 + node_size(*u.expr),
        Node::Grouping(g) => 1 + node_size(*g.expr),
        Node::GetPtr(g) => 1 + node_size(*g.expr),
        Node::Assign(a) => 1 + node_size(*a.value),
        Node::VarDecl(d) => 1 + node_size(*d.value),
        Node::ExprStmt(e) => 1 + node_size(*e.expr),
        Node::Block(b) => 1 + nodes_size(b.statements@),
        Node::ArrayLiteral(items, _, _, _) => 1 + nodes_size(items@),
        Node::If(i) => 1 + node_size(*i.condition) + node_size(*i.then_block) + (match i.else_block {
            Some(e) => node_size(*e),
            None => 0,
        }),
        Node::Function(f) => 1 + node_size(*f.body),
        Node::For(f) => 1 + node_size(*f.target) + node_size(*f.body),
        Node::Ret(r) => 1 + (match r.value {
            Some(v) => node_size(*v),
            None => 0,
        }),
        Node::Use(u) => 1 + node_size(*u.module),
        Node::Call(c) => 1 + node_size(*c.callee) + nodes_size(c.args@),
        _ => 1,
    }
}

/// The number of nodes in a sequence of trees.
pub open spec fn nodes_size(s: Seq<Box<Node>>) -> nat
    decreases s,
{
    if s.len() == 0 {
        0
    } else {
        node_size(*s.first()) + nodes_size(s.drop_first())
    }
}

/// An element weighs no more than its sequence.
pub proof fn lemma_nodes_size_elem(s: Seq<Box<Node>>, i: int)
    requires
        0 <= i < s.len(),
    ensures
        node_size(*s[i]) <= nodes_size(s),
    decreases s.len(),
{
    if i == 0 {
    } else {
        lemma_nodes_size_elem(s.drop_first(), i - 1);
    }
}

/// Reversing the comparisons of a condition does not change its size.
pub proof fn lemma_reversed_size(a: Node, b: Node)
    requires
        crate::reveng::reversed_rel(a, b),
    ensures
        node_size(b) == node_size(a),
    decreases a,
{
    match a {
        Node::Binary(x) => match b {
            Node::Binary(y) => {
                lemma_reversed_size(*x.lhs, *y.lhs);
                lemma_reversed_size(*x.rhs, *y.rhs);
            },
            _ => {},
        },
        Node::Logical(x) => match b {
            Node::Logical(y) => {
                lemma_reversed_size(*x.lhs, *y.lhs);
                lemma_reversed_size(*x.rhs, *y.rhs);
            },
            _ => {},
        },
        _ => {},
    }
}

/// Reversing the comparisons of a condition does not change which `if`
/// then-arms are plain.
pub proof fn lemma_reversed_then_plain(a: Node, b: Node)
    requires
        crate::reveng::reversed_rel(a, b),
    ensures
        then_arms_plain(b) == then_arms_plain(a),
    decreases a,
{
    match a {
        Node::Binary(x) => match b {
            Node::Binary(y) => {
                lemma_reversed_then_plain(*x.lhs, *y.lhs);
                lemma_reversed_then_plain(*x.rhs, *y.rhs);
            },
            _ => {},
        },
        Node::Logical(x) => match b {
            Node::Logical(y) => {
                lemma_reversed_then_plain(*x.lhs, *y.lhs);
                lemma_reversed_then_plain(*x.rhs, *y.rhs);
            },
            _ => {},
        },
        _ => {},
    }
}

/// The open function survives only untouched in name, and while it stays
/// open no finished function appears or disappears.
pub open spec fn fkeep(a: SSir, b: SSir) -> bool {
    b.func is Some ==> (a.func is Some && b.func.unwrap()@.name == a.func.unwrap()@.name
        && b.functions@ == a.functions@)
}

/// The name of a function declaration node.
pub open spec fn decl_fn_name(n: Node) -> Seq<char> {
    match n {
        Node::Function(f) => f.name@,
        _ => Seq::empty(),
    }
}

/// The names of a sequence of function declarations, in order.
pub open spec fn decl_fn_names(s: Seq<Box<Node>>) -> Seq<Seq<char>>
    decreases s.len(),
{
    if s.len() == 0 {
        Seq::empty()
    } else {
        seq![decl_fn_name(*s.first())] + decl_fn_names(s.drop_first())
    }
}

/// Extending the prefix by one declaration appends its name.
pub proof fn lemma_decl_names_snoc(s: Seq<Box<Node>>, k: int)
    requires
        0 <= k < s.len(),
    ensures
        decl_fn_names(s.subrange(0, k + 1)) == decl_fn_names(s.subrange(0, k)).push(
            decl_fn_name(*s[k]),
        ),
    decreases k,
{
    if k == 0 {
        assert(s.subrange(0, 1).first() == s[0]);
        assert(s.subrange(0, 1).drop_first() =~= Seq::<Box<Node>>::empty());
        assert(decl_fn_names(s.subrange(0, 0)) =~= Seq::<Seq<char>>::empty());
        assert(decl_fn_names(Seq::<Box<Node>>::empty()) =~= Seq::<Seq<char>>::empty());
        assert(decl_fn_names(s.subrange(0, 1)) =~= seq![decl_fn_name(*s[0])] + decl_fn_names(
            s.subrange(0, 1).drop_first(),
        ));
        assert(decl_fn_names(s.subrange(0, 1)) =~= seq![decl_fn_name(*s[0])]);
        assert(decl_fn_names(s.subrange(0, 1)) =~= decl_fn_names(s.subrange(0, 0)).push(
            decl_fn_name(*s[0]),
        ));
    } else {
        lemma_decl_names_snoc(s.drop_first(), k - 1);
        assert(s.subrange(0, k + 1).first() == s[0]);
        assert(s.subrange(0, k).first() == s[0]);
        assert(s.subrange(0, k + 1).drop_first() =~= s.drop_first().subrange(0, k));
        assert(s.subrange(0, k).drop_first() =~= s.drop_first().subrange(0, k - 1));
        assert(s.drop_first()[k - 1] == s[k]);
        assert(decl_fn_names(s.subrange(0, k + 1)) =~= seq![decl_fn_name(*s[0])] + decl_fn_names(
            s.drop_first().subrange(0, k),
        ));
        assert(decl_fn_names(s.subrange(0, k)) =~= seq![decl_fn_name(*s[0])] + decl_fn_names(
            s.drop_first().subrange(0, k - 1),
        ));
        assert(decl_fn_names(s.subrange(0, k + 1)) =~= decl_fn_names(s.subrange(0, k)).push(
            decl_fn_name(*s[k]),
        ));
    }
}

/// The names of a sequence of finished functions.
pub open spec fn built_fn_names(s: Seq<Function>) -> Seq<Seq<char>> {
    s.map_values(|f: Function| f@.name)
}

/// How a statement leaves the label bookkeeping alone: same counter, same
/// finished functions, same open label and same labels of the open function.
pub open spec fn stable_labels(a: SSir, b: SSir) -> bool {
    &&& b.label_count == a.label_count
    &&& b.functions@ == a.functions@
    &&& (b.label is Some <==> a.label is Some)
    &&& (match (a.label, b.label) {
        (Some(x), Some(y)) => y@.id == x@.id,
        (None, None) => true,
        _ => false,
    })
    &&& (b.func is Some <==> a.func is Some)
    &&& (match (a.func, b.func) {
        (Some(x), Some(y)) => y@.labels == x@.labels && y@.name == x@.name,
        (None, None) => true,
        _ => false,
    })
}

/// What lowering an expression guarantees: the labels stay as they are, the
/// current stream only grows, and a returned temporary reference points at a
/// temporary of that stream.
pub open spec fn expr_step(a: SSir, b: SSir, c: TmpChildV) -> bool {
    &&& stable_labels(a, b)
    &&& extends(a.sink(), b.sink())
    &&& (match c {
        TmpChildV::TmpRef(id, _, _) => defined_after(b.sink()).contains(id),
        _ => true,
    })
}

impl SSir {
    /// Lower an `if` condition into one captured temporary with id zero: the
    /// sub-operands become ordinary instructions, the top node is handed
    /// back to be carried by the `If` instruction.
    fn lower_condition(&mut self, node: Node) -> (r: Result<TmpNode, SsirError>)
        requires
            old(self).refs_wf(),
        ensures
            final(self).refs_wf(),
            (then_arms_plain(node) && old(self).labels_wf()) ==> final(self).labels_wf(),
            plain_stmts(node) ==> stable_labels(*old(self), *final(self)),
            match r {
                Ok(n) => stable_labels(*old(self), *final(self)) && extends(
                    old(self).sink(),
                    final(self).sink(),
                ) && node_ok(n@, defined_after(final(self).sink())),
                Err(_) => true,
            },
        decreases node_size(node), 0nat,
    {
        let ghost n0 = node;
        match node {
            Node::Binary(b) => {
                let crate::ast::Binary { lhs, rhs, op } = b;
                let ghost s0 = *self;
                let lc = match self.process_node(*lhs) {
                    Ok(c) => c,
                    Err(e) => {
                        return Err(e);
                    },
                };
                let ghost s1 = *self;
                let rc = match self.process_node(*rhs) {
                    Ok(c) => c,
                    Err(e) => {
                        return Err(e);
                    },
                };
                let lnone = match &lc {
                    TmpChild::NoneChild => true,
                    _ => false,
                };
                let rnone = match &rc {
                    TmpChild::NoneChild => true,
                    _ => false,
                };
                if lnone || rnone {
                    return Err(SsirError::UnsupportedNode);
                }
                proof {
                    lemma_extends_defined(s1.sink(), self.sink());
                    lemma_extends_trans(s0.sink(), s1.sink(), self.sink());
                }
                let lhs_type = get_child_type(&lc);
                Ok(TmpNode::BinaryTmp(crate::tmp::BinaryTmp::new(lc, rc, op, 0, lhs_type)))
            },
            Node::Unary(u) => {
                let crate::ast::Unary { op, op_loc, expr } = u;
                let value = match self.process_node(*expr) {
                    Ok(c) => c,
                    Err(e) => {
                        return Err(e);
                    },
                };
                let vnone = match &value {
                    TmpChild::NoneChild => true,
                    _ => false,
                };
                if vnone {
                    return Err(SsirError::UnsupportedNode);
                }
                Ok(TmpNode::UnaryTmp(crate::tmp::UnaryTmp::new(value, op, 0)))
            },
            Node::Logical(l) => {
                let crate::ast::Logical { lhs, rhs, op } = l;
                let ghost s0 = *self;
                let lc = match self.process_node(*lhs) {
                    Ok(c) => c,
                    Err(e) => {
                        return Err(e);
                    },
                };
                let ghost s1 = *self;
                let rc = match self.process_node(*rhs) {
                    Ok(c) => c,
                    Err(e) => {
                        return Err(e);
                    },
                };
                let lnone = match &lc {
                    TmpChild::NoneChild => true,
                    _ => false,
                };
                let rnone = match &rc {
                    TmpChild::NoneChild => true,
                    _ => false,
                };
                if lnone || rnone {
                    return Err(SsirError::UnsupportedNode);
                }
                proof {
                    lemma_extends_defined(s1.sink(), self.sink());
                    lemma_extends_trans(s0.sink(), s1.sink(), self.sink());
                }
                Ok(TmpNode::LogicalTmp(crate::tmp::LogicalTmp::new(lc, rc, op, 0)))
            },
            Node::Grouping(g) => {
                let expr = match self.process_node(*g.expr) {
                    Ok(c) => c,
                    Err(e) => {
                        return Err(e);
                    },
                };
                let enone = match &expr {
                    TmpChild::NoneChild => true,
                    _ => false,
                };
                if enone {
                    return Err(SsirError::UnsupportedNode);
                }
                let ttype = get_child_type(&expr);
                Ok(TmpNode::GroupingTmp(crate::tmp::GroupingTmp::new(expr, ttype, 0)))
            },
            _ => Err(SsirError::MissingCondition),
        }
    }

    /// Lower one AST node. Expressions emit their temporaries into the
    /// current stream and hand back the operand that names their result;
    /// statements emit instructions, labels and pops and hand back the
    /// statement sentinel.
    fn process_node(&mut self, node: Node) -> (r: Result<TmpChild, SsirError>)
        requires
            old(self).refs_wf(),
        ensures
            final(self).refs_wf(),
            (then_arms_plain(node) && old(self).labels_wf()) ==> final(self).labels_wf(),
            plain_stmts(node) ==> stable_labels(*old(self), *final(self)),
            match r {
                Ok(c) => (!(c@ is NoneChild) ==> expr_step(*old(self), *final(self), c@)) && fkeep(
                    *old(self),
                    *final(self),
                ),
                Err(_) => true,
            },
            (node is Function && r is Ok) ==> ({
                &&& final(self).func is None
                &&& final(self).functions@.len() == old(self).functions@.len() + 1
                &&& final(self).functions@ == old(self).functions@.push(
                    final(self).functions@.last(),
                )
                &&& final(self).functions@.last()@.name == decl_fn_name(node)
            }),
        decreases node_size(node), 2nat,
    {
        match node {
            Node::Function(fun) => self.lower_function(fun),
            Node::Block(bl) => self.lower_block(bl),
            Node::VarDecl(vd) => self.lower_vardecl(vd),
            Node::ExprStmt(es) => self.lower_exprstmt(es),
            Node::If(ief) => self.lower_if(ief),
            Node::Binary(bi) => self.lower_binary(bi),
            Node::VarGet(name, _, _) => self.lower_varget(name),
            Node::Unary(un) => self.lower_unary(un),
            Node::Logical(lg) => self.lower_logical(lg),
            Node::Assign(asi) => self.lower_assign(asi),
            Node::Number(n, size, _, _) => {
                proof {
                    lemma_extends_refl(self.sink());
                }
                Ok(TmpChild::Literal(n, size))
            },
            Node::Float(f, size, _, _) => {
                proof {
                    lemma_extends_refl(self.sink());
                }
                Ok(TmpChild::Literal(f, size))
            },
            Node::BoolLiteral(b, size, _, _) => {
                proof {
                    lemma_extends_refl(self.sink());
                }
                Ok(TmpChild::Literal(crate::util::bool_to_string(b), size))
            },
            Node::Grouping(grouping) => self.lower_grouping(grouping),
            _ => Err(SsirError::UnsupportedNode),
        }
    }

    /// Lower one node of this kind; part of the lowering recursion.
    #[verifier::rlimit(100)]
    #[verifier::loop_isolation(false)]
    fn lower_function(&mut self, fun: crate::ast::Function) -> (r: Result<TmpChild, SsirError>)
        requires
            old(self).refs_wf(),
        ensures
            final(self).refs_wf(),
            (then_arms_plain(Node::Function(fun)) && old(self).labels_wf()) ==> final(self).labels_wf(),
            plain_stmts(Node::Function(fun)) ==> stable_labels(*old(self), *final(self)),
            match r {
                Ok(c) => (!(c@ is NoneChild) ==> expr_step(*old(self), *final(self), c@)) && fkeep(
                    *old(self),
                    *final(self),
                ),
                Err(_) => true,
            },
            match r {
                Ok(_) => {
                    &&& final(self).func is None
                    &&& final(self).functions@.len() == old(self).functions@.len() + 1
                    &&& final(self).functions@ == old(self).functions@.push(
                        final(self).functions@.last(),
                    )
                    &&& final(self).functions@.last()@.name == decl_fn_name(Node::Function(fun))
                },
                Err(_) => true,
            },
        decreases node_size(Node::Function(fun)), 0nat,
    {
        let ghost n0 = Node::Function(fun);
            let ghost tap0 = then_arms_plain(n0) && old(self).labels_wf();
            let crate::ast::Function { name, loc, args, body, ret_type, ret_type_str } = fun;
            self.add_func(name);
            proof {
                if tap0 {
                    assert(self.labels_wf()) by {
                        assert(lab_ids(Seq::<LabelV>::empty()) =~= Seq::<usize>::empty());
                    }
                }
            }
            match self.process_node(*body) {
                Ok(_) => (),
                Err(e) => {
                    return Err(e);
                },
            }
            let ghost sbody = *self;
            if self.label.is_some() {
                match self.end_label() {
                    Ok(()) => (),
                    Err(e) => {
                        return Err(e);
                    },
                }
                proof {
                    if tap0 {
                        let fpre = sbody.func.unwrap()@;
                        let lv = sbody.label.unwrap()@;
                        let f2 = self.func.unwrap()@;
                        assert(f2.labels == fpre.labels.push(lv));
                        lemma_push_label_increasing(fpre.labels, lv);
                        assert(strictly_increasing(label_ids(f2)));
                    }
                }
            }
            let ghost spush = *self;
            match self.end_func() {
                Ok(()) => (),
                Err(e) => {
                    return Err(e);
                },
            }
            proof {
                if tap0 {
                    assert(self.labels_wf()) by {
                        let fpushed = spush.func.unwrap();
                        assert(self.functions@ == spush.functions@.push(fpushed));
                        assert(strictly_increasing(label_ids(fpushed@)));
                        assert forall|i: int|
                            0 <= i < self.functions@.len() implies strictly_increasing(
                            label_ids((#[trigger] self.functions@[i])@),
                        ) by {
                            if i < spush.functions@.len() {
                                assert(self.functions@[i] == spush.functions@[i]);
                            } else {
                                assert(self.functions@[i] == fpushed);
                            }
                        }
                    }
                }
            }
            Ok(TmpChild::NoneChild)
    }

    /// Lower one node of this kind; part of the lowering recursion.
    #[verifier::rlimit(100)]
    #[verifier::loop_isolation(false)]
    fn lower_block(&mut self, bl: crate::ast::Block) -> (r: Result<TmpChild, SsirError>)
        requires
            old(self).refs_wf(),
        ensures
            final(self).refs_wf(),
            (then_arms_plain(Node::Block(bl)) && old(self).labels_wf()) ==> final(self).labels_wf(),
            plain_stmts(Node::Block(bl)) ==> stable_labels(*old(self), *final(self)),
            match r {
                Ok(c) => (!(c@ is NoneChild) ==> expr_step(*old(self), *final(self), c@)) && fkeep(
                    *old(self),
                    *final(self),
                ),
                Err(_) => true,
            },
        decreases node_size(Node::Block(bl)), 0nat,
    {
        let ghost n0 = Node::Block(bl);
            self.variables.add_scope();
            let mut items = bl.statements;
            let ghost orig = items@;
            let ghost pl = plain_stmts(n0);
            let ghost tap = then_arms_plain(n0) && old(self).labels_wf();
            let ghost entry = *old(self);
            proof {
                assert(pl ==> plain_seq(orig));
                assert(then_arms_plain(n0) ==> then_arms_plain_seq(orig));
                assert(node_size(n0) == 1 + nodes_size(orig));
            }
            while items.len() > 0
                invariant
                    self.refs_wf(),
                    tap == (then_arms_plain(n0) && entry.labels_wf()),
                    pl == plain_stmts(n0),
                    pl ==> plain_seq(items@),
                    tap ==> self.labels_wf() && then_arms_plain_seq(items@),
                    pl ==> stable_labels(entry, *self),
                    fkeep(entry, *self),
                    nodes_size(items@) <= nodes_size(orig),
                    nodes_size(orig) < node_size(n0),
                decreases items@.len(),
            {
                let ghost pre = items@;
                let ghost scur = *self;
                let stmt = items.remove(0);
                proof {
                    assert(items@ =~= pre.drop_first());
                    assert(stmt == pre[0]);
                    assert(pre.first() == pre[0]);
                    assert(node_size(*pre.first()) + nodes_size(pre.drop_first())
                        == nodes_size(pre));
                    assert(node_size(*stmt) <= nodes_size(pre));
                    assert(nodes_size(pre) <= nodes_size(orig));
                    if pl {
                        assert(plain_stmts(*pre.first()) && plain_seq(pre.drop_first()));
                    }
                    if tap {
                        assert(then_arms_plain(*pre.first()) && then_arms_plain_seq(
                            pre.drop_first(),
                        ));
                    }
                }
                match self.process_node(*stmt) {
                    Ok(_) => (),
                    Err(e) => {
                        return Err(e);
                    },
                }
            }
            self.variables.end_scope();
            Ok(TmpChild::NoneChild)
    }

    /// Lower one node of this kind; part of the lowering recursion.
    #[verifier::rlimit(100)]
    #[verifier::loop_isolation(false)]
    fn lower_vardecl(&mut self, vd: crate::ast::VarDecl) -> (r: Result<TmpChild, SsirError>)
        requires
            old(self).refs_wf(),
        ensures
            final(self).refs_wf(),
            (then_arms_plain(Node::VarDecl(vd)) && old(self).labels_wf()) ==> final(self).labels_wf(),
            plain_stmts(Node::VarDecl(vd)) ==> stable_labels(*old(self), *final(self)),
            match r {
                Ok(c) => (!(c@ is NoneChild) ==> expr_step(*old(self), *final(self), c@)) && fkeep(
                    *old(self),
                    *final(self),
                ),
                Err(_) => true,
            },
        decreases node_size(Node::VarDecl(vd)), 0nat,
    {
        let ghost n0 = Node::VarDecl(vd);
            let crate::ast::VarDecl { name, name_loc, dtype_str, dtype, value } = vd;
            let tmp = match self.process_node(*value) {
                Ok(c) => c,
                Err(e) => {
                    return Err(e);
                },
            };
            match self.add_ins(Instruction::VarDecl(name.clone(), tmp, dtype)) {
                Ok(()) => (),
                Err(e) => {
                    return Err(e);
                },
            }
            self.variables.add_var(Variable::new(name, dtype));
            match self.add_ins(Instruction::Pop) {
                Ok(()) => (),
                Err(e) => {
                    return Err(e);
                },
            }
            Ok(TmpChild::NoneChild)
    }

    /// Lower one node of this kind; part of the lowering recursion.
    #[verifier::rlimit(100)]
    #[verifier::loop_isolation(false)]
    fn lower_exprstmt(&mut self, es: crate::ast::ExprStmt) -> (r: Result<TmpChild, SsirError>)
        requires
            old(self).refs_wf(),
        ensures
            final(self).refs_wf(),
            (then_arms_plain(Node::ExprStmt(es)) && old(self).labels_wf()) ==> final(self).labels_wf(),
            plain_stmts(Node::ExprStmt(es)) ==> stable_labels(*old(self), *final(self)),
            match r {
                Ok(c) => (!(c@ is NoneChild) ==> expr_step(*old(self), *final(self), c@)) && fkeep(
                    *old(self),
                    *final(self),
                ),
                Err(_) => true,
            },
        decreases node_size(Node::ExprStmt(es)), 0nat,
    {
        let ghost n0 = Node::ExprStmt(es);
            match self.process_node(*es.expr) {
                Ok(_) => (),
                Err(e) => {
                    return Err(e);
                },
            }
            match self.add_ins(Instruction::Pop) {
                Ok(()) => (),
                Err(e) => {
                    return Err(e);
                },
            }
            Ok(TmpChild::NoneChild)
    }

    /// Lower one node of this kind; part of the lowering recursion.
    #[verifier::rlimit(100)]
    #[verifier::loop_isolation(false)]
    fn lower_if(&mut self, ief: crate::ast::If) -> (r: Result<TmpChild, SsirError>)
        requires
            old(self).refs_wf(),
        ensures
            final(self).refs_wf(),
            (then_arms_plain(Node::If(ief)) && old(self).labels_wf()) ==> final(self).labels_wf(),
            plain_stmts(Node::If(ief)) ==> stable_labels(*old(self), *final(self)),
            match r {
                Ok(c) => (!(c@ is NoneChild) ==> expr_step(*old(self), *final(self), c@)) && fkeep(
                    *old(self),
                    *final(self),
                ),
                Err(_) => true,
            },
        decreases node_size(Node::If(ief)), 0nat,
    {
        let ghost n0 = Node::If(ief);
            let ghost tap_if = then_arms_plain(n0) && old(self).labels_wf();
            let ghost iefv = ief;
            let crate::ast::If { condition, then_block, else_block } = ief;
            let ghost cond0 = *condition;
            proof {
                assert(n0 == Node::If(iefv));
                assert(iefv.then_block == then_block);
                assert(iefv.condition == condition);
                assert(iefv.else_block == else_block);
                if tap_if {
                    assert(plain_stmts(*then_block) && then_arms_plain(*then_block)
                        && then_arms_plain(cond0) && (match else_block {
                        Some(e) => then_arms_plain(*e),
                        None => true,
                    }));
                }
            }
            let reversed = crate::reveng::reverse_binary(condition);
            proof {
                lemma_reversed_size(cond0, *reversed);
                lemma_reversed_then_plain(cond0, *reversed);
            }
            let cond_node = match self.lower_condition(*reversed) {
                Ok(n) => n,
                Err(e) => {
                    return Err(e);
                },
            };
            match self.add_ins(Instruction::If(cond_node)) {
                Ok(()) => (),
                Err(e) => {
                    return Err(e);
                },
            }
            if let Some(ealse) = else_block {
                match self.process_node(*ealse) {
                    Ok(_) => (),
                    Err(e) => {
                        return Err(e);
                    },
                }
            }
            if self.label_count > usize::MAX - 2 {
                return Err(SsirError::CounterOverflow);
            }
            let reserved = self.label_count + 2;
            match self.add_ins(Instruction::Jump(reserved)) {
                Ok(()) => (),
                Err(e) => {
                    return Err(e);
                },
            }
            let ghost spre = *self;
            match self.add_label() {
                Ok(()) => (),
                Err(e) => {
                    return Err(e);
                },
            }
            proof {
                if tap_if {
                    assert(then_arms_plain(*then_block) && plain_stmts(*then_block));
                    assert(self.labels_wf()) by {
                        assert(lab_ids(Seq::<LabelV>::empty()) =~= Seq::<usize>::empty());
                    }
                }
            }
            match self.process_node(*then_block) {
                Ok(_) => (),
                Err(e) => {
                    return Err(e);
                },
            }
            match self.add_ins(Instruction::Jump(reserved)) {
                Ok(()) => (),
                Err(e) => {
                    return Err(e);
                },
            }
            let ghost sdone = *self;
            match self.end_label() {
                Ok(()) => (),
                Err(e) => {
                    return Err(e);
                },
            }
            proof {
                if tap_if {
                    let fpre = sdone.func.unwrap()@;
                    let lv = sdone.label.unwrap()@;
                    lemma_push_label_increasing(fpre.labels, lv);
                    assert(self.labels_wf());
                }
            }
            self.swap_label(reserved);
            proof {
                if tap_if {
                    assert(self.labels_wf());
                }
            }
            match self.add_ins(Instruction::Pop) {
                Ok(()) => (),
                Err(e) => {
                    return Err(e);
                },
            }
            Ok(TmpChild::NoneChild)
    }

    /// Lower one node of this kind; part of the lowering recursion.
    #[verifier::rlimit(100)]
    fn lower_binary(&mut self, bi: crate::ast::Binary) -> (r: Result<TmpChild, SsirError>)
        requires
            old(self).refs_wf(),
        ensures
            final(self).refs_wf(),
            (then_arms_plain(Node::Binary(bi)) && old(self).labels_wf()) ==> final(self).labels_wf(),
            plain_stmts(Node::Binary(bi)) ==> stable_labels(*old(self), *final(self)),
            match r {
                Ok(c) => (!(c@ is NoneChild) ==> expr_step(*old(self), *final(self), c@)) && fkeep(
                    *old(self),
                    *final(self),
                ),
                Err(_) => true,
            },
        decreases node_size(Node::Binary(bi)), 1nat,
    {
        let ghost n0 = Node::Binary(bi);
        let crate::ast::Binary { lhs, rhs, op } = bi;
        let ghost s0 = *self;
        let (lc, rc) = match self.lower_two(lhs, rhs) {
            Ok(p) => p,
            Err(e) => {
                return Err(e);
            },
        };
        let lhs_type = get_child_type(&lc);
        let res_type = match op {
            BinaryOp::Add | BinaryOp::Div | BinaryOp::Mul | BinaryOp::Sub => lhs_type,
            _ => TaggedType::new(1, TypeKind::Bool, None),
        };
        let id = match self.get_tmp_id() {
            Ok(id) => id,
            Err(e) => {
                return Err(e);
            },
        };
        let ghost s2 = *self;
        match self.emit_tmp(
            TmpNode::BinaryTmp(crate::tmp::BinaryTmp::new(lc, rc, op, id, lhs_type)),
            res_type,
        ) {
            Ok(()) => (),
            Err(e) => {
                return Err(e);
            },
        }
        proof {
            lemma_extends_trans(s0.sink(), s2.sink(), self.sink());
        }
        Ok(TmpChild::TmpRef(id, res_type, None))
    }

    /// Lower one node of this kind; part of the lowering recursion.
    #[verifier::rlimit(100)]
    #[verifier::loop_isolation(false)]
    fn lower_unary(&mut self, un: crate::ast::Unary) -> (r: Result<TmpChild, SsirError>)
        requires
            old(self).refs_wf(),
        ensures
            final(self).refs_wf(),
            (then_arms_plain(Node::Unary(un)) && old(self).labels_wf()) ==> final(self).labels_wf(),
            plain_stmts(Node::Unary(un)) ==> stable_labels(*old(self), *final(self)),
            match r {
                Ok(c) => (!(c@ is NoneChild) ==> expr_step(*old(self), *final(self), c@)) && fkeep(
                    *old(self),
                    *final(self),
                ),
                Err(_) => true,
            },
        decreases node_size(Node::Unary(un)), 0nat,
    {
        let ghost n0 = Node::Unary(un);
            let crate::ast::Unary { op, op_loc, expr } = un;
            let value = match self.process_node(*expr) {
                Ok(c) => c,
                Err(e) => {
                    return Err(e);
                },
            };
            let vnone = match &value {
                TmpChild::NoneChild => true,
                _ => false,
            };
            if vnone {
                return Err(SsirError::UnsupportedNode);
            }
            let ttype = get_child_type(&value);
            let id = match self.get_tmp_id() {
                Ok(id) => id,
                Err(e) => {
                    return Err(e);
                },
            };
            let ghost s0 = *old(self);
            let ghost s2 = *self;
            match self.emit_tmp(TmpNode::UnaryTmp(crate::tmp::UnaryTmp::new(value, op, id)), ttype) {
                Ok(()) => (),
                Err(e) => {
                    return Err(e);
                },
            }
            proof {
                lemma_extends_trans(s0.sink(), s2.sink(), self.sink());
                assert((then_arms_plain(n0) && old(self).labels_wf()) ==> self.labels_wf());
                assert(plain_stmts(n0) ==> stable_labels(*old(self), *self));
                assert(expr_step(*old(self), *self, TmpChildV::TmpRef(id, ttype, None)));
            }
            Ok(TmpChild::TmpRef(id, ttype, None))
    }

    /// Lower both operands of a two-operand expression, refusing operands
    /// that stand for statements.
    #[verifier::rlimit(100)]
    fn lower_two(&mut self, lhs: Box<Node>, rhs: Box<Node>) -> (r: Result<
        (TmpChild, TmpChild),
        SsirError,
    >)
        requires
            old(self).refs_wf(),
        ensures
            final(self).refs_wf(),
            ((then_arms_plain(*lhs) && then_arms_plain(*rhs)) && old(self).labels_wf())
                ==> final(self).labels_wf(),
            (plain_stmts(*lhs) && plain_stmts(*rhs)) ==> stable_labels(*old(self), *final(self)),
            match r {
                Ok(p) => {
                    &&& !(p.0@ is NoneChild)
                    &&& !(p.1@ is NoneChild)
                    &&& stable_labels(*old(self), *final(self))
                    &&& extends(old(self).sink(), final(self).sink())
                    &&& child_ok(p.0@, defined_after(final(self).sink()))
                    &&& child_ok(p.1@, defined_after(final(self).sink()))
                },
                Err(_) => true,
            },
        decreases node_size(*lhs) + node_size(*rhs) + 1, 0nat,
    {
        let ghost s0 = *self;
        let lc = match self.process_node(*lhs) {
            Ok(c) => c,
            Err(e) => {
                return Err(e);
            },
        };
        let ghost s1 = *self;
        let rc = match self.process_node(*rhs) {
            Ok(c) => c,
            Err(e) => {
                return Err(e);
            },
        };
        let lnone = match &lc {
            TmpChild::NoneChild => true,
            _ => false,
        };
        let rnone = match &rc {
            TmpChild::NoneChild => true,
            _ => false,
        };
        if lnone || rnone {
            return Err(SsirError::UnsupportedNode);
        }
        proof {
            lemma_extends_defined(s1.sink(), self.sink());
            lemma_extends_trans(s0.sink(), s1.sink(), self.sink());
        }
        Ok((lc, rc))
    }

    /// Lower one node of this kind; part of the lowering recursion.
    #[verifier::rlimit(100)]
    fn lower_logical(&mut self, lg: crate::ast::Logical) -> (r: Result<TmpChild, SsirError>)
        requires
            old(self).refs_wf(),
        ensures
            final(self).refs_wf(),
            (then_arms_plain(Node::Logical(lg)) && old(self).labels_wf()) ==> final(self).labels_wf(),
            plain_stmts(Node::Logical(lg)) ==> stable_labels(*old(self), *final(self)),
            match r {
                Ok(c) => (!(c@ is NoneChild) ==> expr_step(*old(self), *final(self), c@)) && fkeep(
                    *old(self),
                    *final(self),
                ),
                Err(_) => true,
            },
        decreases node_size(Node::Logical(lg)), 1nat,
    {
        let ghost n0 = Node::Logical(lg);
        let crate::ast::Logical { lhs, rhs, op } = lg;
        let ghost s0 = *self;
        let (lc, rc) = match self.lower_two(lhs, rhs) {
            Ok(p) => p,
            Err(e) => {
                return Err(e);
            },
        };
        let ttype = get_child_type(&lc);
        let id = match self.get_tmp_id() {
            Ok(id) => id,
            Err(e) => {
                return Err(e);
            },
        };
        let ghost s2 = *self;
        match self.emit_tmp(TmpNode::LogicalTmp(crate::tmp::LogicalTmp::new(lc, rc, op, id)), ttype) {
            Ok(()) => (),
            Err(e) => {
                return Err(e);
            },
        }
        proof {
            lemma_extends_trans(s0.sink(), s2.sink(), self.sink());
        }
        Ok(TmpChild::TmpRef(id, ttype, None))
    }

    /// Lower one node of this kind; part of the lowering recursion.
    #[verifier::rlimit(100)]
    #[verifier::loop_isolation(false)]
    fn lower_assign(&mut self, asi: crate::ast::Assign) -> (r: Result<TmpChild, SsirError>)
        requires
            old(self).refs_wf(),
        ensures
            final(self).refs_wf(),
            (then_arms_plain(Node::Assign(asi)) && old(self).labels_wf()) ==> final(self).labels_wf(),
            plain_stmts(Node::Assign(asi)) ==> stable_labels(*old(self), *final(self)),
            match r {
                Ok(c) => (!(c@ is NoneChild) ==> expr_step(*old(self), *final(self), c@)) && fkeep(
                    *old(self),
                    *final(self),
                ),
                Err(_) => true,
            },
        decreases node_size(Node::Assign(asi)), 0nat,
    {
        let ghost n0 = Node::Assign(asi);
            let crate::ast::Assign { name, name_loc, value } = asi;
            let ghost s0 = *self;
            let value = match self.process_node(*value) {
                Ok(c) => c,
                Err(e) => {
                    return Err(e);
                },
            };
            let vnone = match &value {
                TmpChild::NoneChild => true,
                _ => false,
            };
            if vnone {
                return Err(SsirError::UnsupportedNode);
            }
            let ttype = get_child_type(&value);
            let id = match self.get_tmp_id() {
                Ok(id) => id,
                Err(e) => {
                    return Err(e);
                },
            };
            let ghost s2 = *self;
            match self.emit_tmp(TmpNode::AssignTmp(crate::tmp::AssignTmp::new(value, id)), ttype) {
                Ok(()) => (),
                Err(e) => {
                    return Err(e);
                },
            }
            let ghost s3 = *self;
            match self.add_ins(
                Instruction::VarAssign(name, TmpChild::TmpRef(id, ttype, None), ttype),
            ) {
                Ok(()) => (),
                Err(e) => {
                    return Err(e);
                },
            }
            proof {
                assert(extends(s3.sink(), self.sink())) by {
                    assert(self.sink().subrange(0, s3.sink().len() as int) =~= s3.sink());
                }
                lemma_extends_trans(s0.sink(), s2.sink(), s3.sink());
                lemma_extends_trans(s0.sink(), s3.sink(), self.sink());
                lemma_extends_defined(s3.sink(), self.sink());
            }
            Ok(TmpChild::TmpRef(id, ttype, None))
    }

    /// Lower one node of this kind; part of the lowering recursion.
    #[verifier::rlimit(100)]
    #[verifier::loop_isolation(false)]
    fn lower_grouping(&mut self, grouping: crate::ast::Grouping) -> (r: Result<TmpChild, SsirError>)
        requires
            old(self).refs_wf(),
        ensures
            final(self).refs_wf(),
            (then_arms_plain(Node::Grouping(grouping)) && old(self).labels_wf()) ==> final(self).labels_wf(),
            plain_stmts(Node::Grouping(grouping)) ==> stable_labels(*old(self), *final(self)),
            match r {
                Ok(c) => (!(c@ is NoneChild) ==> expr_step(*old(self), *final(self), c@)) && fkeep(
                    *old(self),
                    *final(self),
                ),
                Err(_) => true,
            },
        decreases node_size(Node::Grouping(grouping)), 0nat,
    {
        let ghost n0 = Node::Grouping(grouping);
            let expr = match self.process_node(*grouping.expr) {
                Ok(c) => c,
                Err(e) => {
                    return Err(e);
                },
            };
            match expr {
                TmpChild::TmpRef(ref_id, t, _) => Ok(TmpChild::TmpRef(ref_id, t, None)),
                other => Ok(other),
            }
    }

    /// Lower one variable read; part of the lowering recursion.
    fn lower_varget(&mut self, name: String) -> (r: Result<TmpChild, SsirError>)
        requires
            old(self).refs_wf(),
        ensures
            final(self).refs_wf(),
            old(self).labels_wf() ==> final(self).labels_wf(),
            stable_labels(*old(self), *final(self)),
            match r {
                Ok(c) => (!(c@ is NoneChild) ==> expr_step(*old(self), *final(self), c@)) && fkeep(
                    *old(self),
                    *final(self),
                ),
                Err(_) => true,
            },
    {
            let id = match self.get_tmp_id() {
                Ok(id) => id,
                Err(e) => {
                    return Err(e);
                },
            };
            let var = match self.variables.get_var(name.as_str()) {
                Some(v) => v,
                None => {
                    return Err(SsirError::UndefinedVariable(name));
                },
            };
            let tt = var.tagged_type;
            let ghost s2 = *self;
            match self.emit_tmp(
                TmpNode::ValueTmp(crate::tmp::ValueTmp::new(TmpChild::LoadVar(name, tt), id)),
                tt,
            ) {
                Ok(()) => (),
                Err(e) => {
                    return Err(e);
                },
            }
            proof {
                assert(s2.sink() == old(self).sink());
            }
            Ok(TmpChild::TmpRef(id, tt, None))
    }
    /// Lower every declaration in order, producing one SSIR function per
    /// source function. When every then-arm of every `if` is free of nested
    /// `if`s and nested function declarations, the labels of every produced
    /// function carry strictly increasing ids.
    #[verifier::loop_isolation(false)]
    pub fn generate(&mut self, decls: Vec<Box<Node>>) -> (r: Result<(), SsirError>)
        requires
            old(self).refs_wf(),
        ensures
            final(self).refs_wf(),
            forall|i: int|
                0 <= i < final(self).functions@.len() ==> fn_refs_ok(
                    (#[trigger] final(self).functions@[i])@,
                ),
            (then_arms_plain_seq(decls@) && old(self).labels_wf()) ==> final(self).labels_wf()
                && (forall|i: int|
                0 <= i < final(self).functions@.len() ==> strictly_increasing(
                    label_ids((#[trigger] final(self).functions@[i])@),
                )),
            (r is Ok && (forall|i: int|
                0 <= i < decls@.len() ==> (*#[trigger] decls@[i]) is Function)) ==> built_fn_names(
                final(self).functions@,
            ) == built_fn_names(old(self).functions@) + decl_fn_names(decls@),
    {
        let ghost tap = then_arms_plain_seq(decls@) && old(self).labels_wf();
        let ghost allfn = forall|i: int| 0 <= i < decls@.len() ==> (*#[trigger] decls@[i]) is Function;
        let ghost orig0 = decls@;
        let ghost ofn = built_fn_names(old(self).functions@);
        let mut items = decls;
        proof {
            assert(decl_fn_names(orig0.subrange(0, 0)) =~= Seq::<Seq<char>>::empty());
            assert(ofn + decl_fn_names(orig0.subrange(0, 0)) =~= ofn);
        }
        while items.len() > 0
            invariant
                self.refs_wf(),
                tap ==> self.labels_wf() && then_arms_plain_seq(items@),
                items@.len() <= orig0.len(),
                items@ == orig0.subrange(
                    (orig0.len() - items@.len()) as int,
                    orig0.len() as int,
                ),
                allfn ==> built_fn_names(self.functions@) == ofn + decl_fn_names(
                    orig0.subrange(0, (orig0.len() - items@.len()) as int),
                ),
            decreases items@.len(),
        {
            let ghost pre = items@;
            let ghost k = (orig0.len() - pre.len()) as int;
            let decl = items.remove(0);
            proof {
                assert(items@ =~= pre.drop_first());
                assert(decl == pre[0]);
                assert(pre.first() == pre[0]);
                assert(pre[0] == orig0[k]);
                assert(items@ =~= orig0.subrange(k + 1, orig0.len() as int));
                if tap {
                    assert(then_arms_plain(*pre.first()) && then_arms_plain_seq(pre.drop_first()));
                }
            }
            let ghost fpre = self.functions@;
            match self.process_node(*decl) {
                Ok(_) => (),
                Err(e) => {
                    return Err(e);
                },
            }
            proof {
                if allfn {
                    assert((*orig0[k]) is Function);
                    assert(built_fn_names(self.functions@) =~= built_fn_names(fpre).push(
                        self.functions@.last()@.name,
                    ));
                    lemma_decl_names_snoc(orig0, k);
                    assert(decl_fn_name(*orig0[k]) == self.functions@.last()@.name);
                    assert(built_fn_names(self.functions@) =~= ofn + decl_fn_names(
                        orig0.subrange(0, k + 1),
                    ));
                }
            }
        }
        proof {
            assert(orig0.subrange(0, orig0.len() as int) =~= orig0);
        }
        Ok(())
    }
}

} // verus!
