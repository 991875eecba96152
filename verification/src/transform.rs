use vstd::prelude::*;

use crate::ins::{Function, FunctionV, Instruction, InstructionV};
use crate::reg::{
    is_reg_width, spec_label_width, spec_size_to_reg_size, size_to_reg_size, RegError,
    RegisterLabel, RegisterManager, RegisterSize,
};
use crate::reveng::is_comparison;
use crate::tmp::{TmpChild, TmpChildV, TmpNode, TmpNodeV};
use crate::typechecker::TaggedType;

verus! {

/// Errors of the register labeler.
#[derive(PartialEq, Eq, Structural, Clone, Copy, Debug)]
pub enum LabelError {
    /// A temporary reference names an id that no earlier temporary defined.
    UnknownTmpRef(usize),
    /// No free register of the needed width is left.
    RegisterExhausted(RegisterSize),
    /// An assignment or grouping temporary whose operand is not a reference.
    MalformedTmp,
    /// A unary or logical temporary, which the labeler does not handle.
    UnsupportedTmp,
    /// A type tag whose byte size is not a register width.
    BadWidth(usize),
}

/// Look a temporary id up in the ref table; the newest entry wins.
pub open spec fn rt_lookup(s: Seq<(usize, RegisterLabel)>, id: usize) -> Option<RegisterLabel>
    decreases s.len(),
{
    if s.len() == 0 {
        None
    } else if s.last().0 == id {
        Some(s.last().1)
    } else {
        rt_lookup(s.drop_last(), id)
    }
}

/// The ref table realizes a width assignment: every id of the assignment
/// resolves to a register of the assigned width.
pub open spec fn rt_ok(rt: Seq<(usize, RegisterLabel)>, w: Map<usize, RegisterSize>) -> bool {
    forall|id: usize|
        w.dom().contains(id) ==> ((#[trigger] rt_lookup(rt, id)) matches Some(l)
            && spec_label_width(l) == w[id])
}

/// One well-formedness step: what a single `TmpNode` instruction needs of
/// the width assignment so far, and the assignment after it. `None` marks an
/// instruction the labeler cannot process.
pub open spec fn ins_acc(n: TmpNodeV, t: TaggedType, w: Map<usize, RegisterSize>) -> Option<
    Map<usize, RegisterSize>,
> {
    if !is_reg_width(t.size as nat) {
        None
    } else {
        let need = spec_size_to_reg_size(t.size as nat);
        match n {
            TmpNodeV::ValueTmp(v) => Some(w.insert(v.id, need)),
            TmpNodeV::BinaryTmp(b) => {
                if is_comparison(b.op) {
                    if t.size == 1 {
                        Some(w)
                    } else {
                        None
                    }
                } else {
                    let lhs_ok = match b.lhs {
                        TmpChildV::TmpRef(id, _, _) => w.dom().contains(id) && w[id] == need,
                        _ => true,
                    };
                    let rhs_ok = match b.rhs {
                        TmpChildV::TmpRef(id, _, _) => w.dom().contains(id) && w[id] == need,
                        _ => true,
                    };
                    if lhs_ok && rhs_ok {
                        Some(w.insert(b.id, need))
                    } else {
                        None
                    }
                }
            },
            TmpNodeV::AssignTmp(a) => match a.value {
                TmpChildV::TmpRef(id, _, _) => if w.dom().contains(id) && w[id] == need {
                    Some(w.insert(a.id, need))
                } else {
                    None
                },
                _ => None,
            },
            TmpNodeV::GroupingTmp(g) => match g.expr {
                TmpChildV::TmpRef(id, _, _) => if w.dom().contains(id) && w[id] == need {
                    Some(w.insert(g.id, need))
                } else {
                    None
                },
                _ => None,
            },
            _ => None,
        }
    }
}

/// Thread the width assignment through a whole instruction stream; `None`
/// marks a stream the labeler cannot process.
pub open spec fn stream_acc(s: Seq<InstructionV>, w: Map<usize, RegisterSize>) -> Option<
    Map<usize, RegisterSize>,
>
    decreases s.len(),
{
    if s.len() == 0 {
        Some(w)
    } else {
        match s.first() {
            InstructionV::TmpNode(n, t, _) => match ins_acc(n, t, w) {
                Some(w2) => stream_acc(s.drop_first(), w2),
                None => None,
            },
            _ => stream_acc(s.drop_first(), w),
        }
    }
}

/// Thread the width assignment through the entry streams of a sequence of
/// functions.
pub open spec fn fns_acc(fs: Seq<FunctionV>, w: Map<usize, RegisterSize>) -> Option<
    Map<usize, RegisterSize>,
>
    decreases fs.len(),
{
    if fs.len() == 0 {
        Some(w)
    } else {
        match stream_acc(fs.first().instructions, w) {
            Some(w2) => fns_acc(fs.drop_first(), w2),
            None => None,
        }
    }
}

/// The views of a sequence of functions.
pub open spec fn fn_views(v: Seq<Function>) -> Seq<FunctionV> {
    v.map_values(|f: Function| f@)
}

/// An operand after labeling: the same operand, with only the register slot
/// of a reference free to change.
pub open spec fn child_rel(a: TmpChildV, b: TmpChildV) -> bool {
    match a {
        TmpChildV::TmpRef(id, t, _) => b matches TmpChildV::TmpRef(id2, t2, _) && id2 == id && t2
            == t,
        _ => b == a,
    }
}

/// A temporary after labeling: the same temporary, with only the register
/// slots of its reference operands free to change.
pub open spec fn tmp_rel(a: TmpNodeV, b: TmpNodeV) -> bool {
    match a {
        TmpNodeV::BinaryTmp(x) => b matches TmpNodeV::BinaryTmp(y) && child_rel(x.lhs, y.lhs)
            && child_rel(x.rhs, y.rhs) && y.op == x.op && y.id == x.id && y.tipe == x.tipe,
        TmpNodeV::AssignTmp(x) => b matches TmpNodeV::AssignTmp(y) && child_rel(x.value, y.value)
            && y.id == x.id,
        TmpNodeV::GroupingTmp(x) => b matches TmpNodeV::GroupingTmp(y) && child_rel(x.expr, y.expr)
            && y.id == x.id && y.tipe == x.tipe,
        _ => b == a,
    }
}

/// An instruction after labeling: the same instruction, with only register
/// slots free to change.
pub open spec fn ins_rel(a: InstructionV, b: InstructionV) -> bool {
    match a {
        InstructionV::TmpNode(n, t, _) => b matches InstructionV::TmpNode(n2, t2, _) && tmp_rel(
            n,
            n2,
        ) && t2 == t,
        _ => b == a,
    }
}

/// Every labeled temporary carries a register of the width of its result
/// type.
pub open spec fn width_assigned(b: InstructionV) -> bool {
    match b {
        InstructionV::TmpNode(_, t, l) => (l matches Some(r) && spec_label_width(r)
            == spec_size_to_reg_size(t.size as nat)),
        _ => true,
    }
}

/// A labeled non-comparison binary temporary reuses the register of one of
/// its reference operands: the left one when there is one, else the right
/// one.
pub open spec fn forwards_operand_register(b: InstructionV) -> bool {
    match b {
        InstructionV::TmpNode(TmpNodeV::BinaryTmp(bt), _, l) => is_comparison(bt.op) || (match bt.lhs {
            TmpChildV::TmpRef(_, _, ol) => ol is Some && l == ol,
            _ => match bt.rhs {
                TmpChildV::TmpRef(_, _, or) => or is Some && l == or,
                _ => true,
            },
        }),
        _ => true,
    }
}

/// A whole instruction stream after labeling.
pub open spec fn stream_labeled(a: Seq<InstructionV>, b: Seq<InstructionV>) -> bool {
    &&& b.len() == a.len()
    &&& forall|i: int|
        0 <= i < a.len() ==> ins_rel(a[i], #[trigger] b[i]) && width_assigned(b[i])
            && forwards_operand_register(b[i])
}

/// A function after labeling: entry stream labeled, name and labels exactly
/// as they were. The labels' own instruction streams are not walked.
pub open spec fn fn_labeled(a: FunctionV, b: FunctionV) -> bool {
    &&& b.name == a.name
    &&& b.labels == a.labels
    &&& stream_labeled(a.instructions, b.instructions)
}

/// The linear-scan register labeler: a register pool and the table mapping
/// each temporary id to the register that holds it.
pub struct RegisterLabeler {
    pub rmgr: RegisterManager,
    pub ref_table: Vec<(usize, RegisterLabel)>,
}

impl RegisterLabeler {
    /// A fresh labeler: a full register pool and an empty ref table.
    pub fn new() -> (r: RegisterLabeler)
        ensures
            r.rmgr.matches_table(),
            r.ref_table@ == Seq::<(usize, RegisterLabel)>::empty(),
            forall|i: int|
                0 <= i < r.rmgr.registers@.len() ==> !(#[trigger] r.rmgr.registers@[i]).used,
    {
        let r = RegisterLabeler { rmgr: RegisterManager::new(), ref_table: Vec::new() };
        proof {
            assert(r.ref_table@ =~= Seq::<(usize, RegisterLabel)>::empty());
        }
        r
    }

    /// The register recorded for a temporary id.
    fn resolve_reg(&self, id: usize) -> (r: Result<RegisterLabel, LabelError>)
        ensures
            match r {
                Ok(l) => rt_lookup(self.ref_table@, id) == Some(l),
                Err(e) => e == LabelError::UnknownTmpRef(id) && rt_lookup(self.ref_table@, id)
                    is None,
            },
    {
        let ghost rt = self.ref_table@;
        let mut i: usize = self.ref_table.len();
        proof {
            assert(rt.subrange(0, i as int) =~= rt);
        }
        while i > 0
            invariant
                i <= self.ref_table@.len(),
                rt == self.ref_table@,
                rt_lookup(rt, id) == rt_lookup(rt.subrange(0, i as int), id),
            decreases i,
        {
            i = i - 1;
            proof {
                assert(rt.subrange(0, i as int + 1).last() == rt[i as int]);
                assert(rt.subrange(0, i as int + 1).drop_last() =~= rt.subrange(0, i as int));
            }
            if self.ref_table[i].0 == id {
                return Ok(self.ref_table[i].1);
            }
        }
        proof {
            assert(rt.subrange(0, 0) =~= Seq::<(usize, RegisterLabel)>::empty());
        }
        Err(LabelError::UnknownTmpRef(id))
    }

    /// Record a register for a temporary id.
    fn record(&mut self, id: usize, reg: RegisterLabel)
        ensures
            final(self).rmgr == old(self).rmgr,
            final(self).ref_table@ == old(self).ref_table@.push((id, reg)),
            forall|x: usize|
                rt_lookup(final(self).ref_table@, x) == if x == id {
                    Some(reg)
                } else {
                    rt_lookup(old(self).ref_table@, x)
                },
    {
        self.ref_table.push((id, reg));
        proof {
            let rt2 = self.ref_table@;
            let rt = old(self).ref_table@;
            assert(rt2 =~= rt.push((id, reg)));
            assert forall|x: usize|
                rt_lookup(rt2, x) == if x == id {
                    Some(reg)
                } else {
                    rt_lookup(rt, x)
                } by {
                assert(rt2.last() == (id, reg));
                assert(rt2.drop_last() =~= rt);
            }
        }
    }

    /// Label one temporary: pick or forward a register for it, fill the
    /// register slots of the reference operands the choice came from, and
    /// record the choice under the temporary's id.
    fn process_ins(
        &mut self,
        node: TmpNode,
        tipe: &TaggedType,
        Ghost(w): Ghost<Map<usize, RegisterSize>>,
    ) -> (r: Result<(TmpNode, RegisterLabel), LabelError>)
        requires
            old(self).rmgr.matches_table(),
            rt_ok(old(self).ref_table@, w),
            ins_acc(node@, *tipe, w) is Some,
        ensures
            final(self).rmgr.matches_table(),
            match r {
                Ok((n2, lbl)) => {
                    &&& tmp_rel(node@, n2@)
                    &&& spec_label_width(lbl) == spec_size_to_reg_size(tipe.size as nat)
                    &&& rt_ok(final(self).ref_table@, ins_acc(node@, *tipe, w).unwrap())
                    &&& forwards_operand_register(InstructionV::TmpNode(n2@, *tipe, Some(lbl)))
                },
                Err(e) => {
                    &&& e matches LabelError::RegisterExhausted(_)
                    &&& (match e {
                        LabelError::RegisterExhausted(size) => forall|i: int|
                            0 <= i < old(self).rmgr.registers@.len() ==> !crate::reg::is_free_match(
                                #[trigger] old(self).rmgr.registers@[i],
                                size,
                            ),
                        _ => true,
                    })
                    &&& final(self).ref_table == old(self).ref_table
                    &&& rt_ok(final(self).ref_table@, w)
                },
            },
    {
        let need = size_to_reg_size(tipe.size);
        match node {
            TmpNode::ValueTmp(v) => {
                match self.take_register(need) {
                    Ok(reg) => {
                        self.record(v.id, reg);
                        Ok((TmpNode::ValueTmp(v), reg))
                    },
                    Err(e) => Err(e),
                }
            },
            TmpNode::BinaryTmp(b) => {
                let crate::tmp::BinaryTmp { lhs, rhs, op, id, tipe: btipe } = b;
                let cmp = match op {
                    crate::ast::BinaryOp::Equal
                    | crate::ast::BinaryOp::Greater
                    | crate::ast::BinaryOp::GreaterEq
                    | crate::ast::BinaryOp::NotEqual
                    | crate::ast::BinaryOp::Less
                    | crate::ast::BinaryOp::LessEq => true,
                    _ => false,
                };
                if cmp {
                    match self.take_register(RegisterSize::Byte) {
                        Ok(reg) => Ok(
                            (
                                TmpNode::BinaryTmp(
                                    crate::tmp::BinaryTmp { lhs, rhs, op, id, tipe: btipe },
                                ),
                                reg,
                            ),
                        ),
                        Err(e) => Err(e),
                    }
                } else {
                    if let TmpChild::TmpRef(ref_id, rt_t, _) = lhs {
                        let reg = match self.resolve_reg(ref_id) {
                            Ok(reg) => reg,
                            Err(_) => {
                                proof {
                                    assert(false);
                                }
                                return Err(LabelError::UnknownTmpRef(ref_id));
                            },
                        };
                        self.record(id, reg);
                        let lhs2 = TmpChild::TmpRef(ref_id, rt_t, Some(reg));
                        Ok(
                            (
                                TmpNode::BinaryTmp(
                                    crate::tmp::BinaryTmp { lhs: lhs2, rhs, op, id, tipe: btipe },
                                ),
                                reg,
                            ),
                        )
                    } else if let TmpChild::TmpRef(ref_id, rt_t, _) = rhs {
                        let reg = match self.resolve_reg(ref_id) {
                            Ok(reg) => reg,
                            Err(_) => {
                                proof {
                                    assert(false);
                                }
                                return Err(LabelError::UnknownTmpRef(ref_id));
                            },
                        };
                        self.record(id, reg);
                        let rhs2 = TmpChild::TmpRef(ref_id, rt_t, Some(reg));
                        Ok(
                            (
                                TmpNode::BinaryTmp(
                                    crate::tmp::BinaryTmp { lhs, rhs: rhs2, op, id, tipe: btipe },
                                ),
                                reg,
                            ),
                        )
                    } else {
                        match self.take_register(need) {
                            Ok(reg) => {
                                self.record(id, reg);
                                Ok(
                                    (
                                        TmpNode::BinaryTmp(
                                            crate::tmp::BinaryTmp { lhs, rhs, op, id, tipe: btipe },
                                        ),
                                        reg,
                                    ),
                                )
                            },
                            Err(e) => Err(e),
                        }
                    }
                }
            },
            TmpNode::AssignTmp(a) => {
                let crate::tmp::AssignTmp { value, id } = a;
                if let TmpChild::TmpRef(ref_id, rt_t, _) = value {
                    let reg = match self.resolve_reg(ref_id) {
                        Ok(reg) => reg,
                        Err(_) => {
                            proof {
                                assert(false);
                            }
                            return Err(LabelError::UnknownTmpRef(ref_id));
                        },
                    };
                    self.record(id, reg);
                    let value2 = TmpChild::TmpRef(ref_id, rt_t, Some(reg));
                    Ok((TmpNode::AssignTmp(crate::tmp::AssignTmp { value: value2, id }), reg))
                } else {
                    proof {
                        assert(false);
                    }
                    Err(LabelError::MalformedTmp)
                }
            },
            TmpNode::GroupingTmp(g) => {
                let crate::tmp::GroupingTmp { expr, id, tipe: gtipe } = g;
                if let TmpChild::TmpRef(ref_id, rt_t, _) = expr {
                    let reg = match self.resolve_reg(ref_id) {
                        Ok(reg) => reg,
                        Err(_) => {
                            proof {
                                assert(false);
                            }
                            return Err(LabelError::UnknownTmpRef(ref_id));
                        },
                    };
                    self.record(id, reg);
                    let expr2 = TmpChild::TmpRef(ref_id, rt_t, Some(reg));
                    Ok(
                        (
                            TmpNode::GroupingTmp(
                                crate::tmp::GroupingTmp { expr: expr2, id, tipe: gtipe },
                            ),
                            reg,
                        ),
                    )
                } else {
                    proof {
                        assert(false);
                    }
                    Err(LabelError::MalformedTmp)
                }
            },
            TmpNode::UnaryTmp(u) => {
                proof {
                    assert(false);
                }
                Err(LabelError::UnsupportedTmp)
            },
            TmpNode::LogicalTmp(l) => {
                proof {
                    assert(false);
                }
                Err(LabelError::UnsupportedTmp)
            },
        }
    }

    /// Walk every function's entry instruction stream in order, filling the
    /// register slot of every temporary and of the reference operands its
    /// register came from, and releasing all registers at each `Pop`. The
    /// labels' own streams are left as they are. Only register exhaustion
    /// can stop a well-formed stream.
    pub fn assign_labels(&mut self, functions: Vec<Function>) -> (r: Result<
        Vec<Function>,
        LabelError,
    >)
        requires
            old(self).rmgr.matches_table(),
            old(self).ref_table@.len() == 0,
            fns_acc(fn_views(functions@), Map::<usize, RegisterSize>::empty()) is Some,
        ensures
            final(self).rmgr.matches_table(),
            match r {
                Ok(out) => {
                    &&& out@.len() == functions@.len()
                    &&& forall|i: int|
                        0 <= i < functions@.len() ==> fn_labeled(
                            (#[trigger] functions@[i])@,
                            out@[i]@,
                        )
                },
                Err(e) => e matches LabelError::RegisterExhausted(_),
            },
    {
        let ghost fv = fn_views(functions@);
        let ghost m = fv.len();
        let ghost target = fns_acc(fv, Map::<usize, RegisterSize>::empty());
        let ghost mut w: Map<usize, RegisterSize> = Map::empty();
        let mut fns = functions;
        let mut out: Vec<Function> = Vec::new();
        proof {
            assert(fn_views(fns@) =~= fv.subrange(0, m as int));
            assert(rt_ok(self.ref_table@, w)) by {
                assert(forall|id: usize| !w.dom().contains(id));
            }
        }
        while fns.len() > 0
            invariant
                self.rmgr.matches_table(),
                rt_ok(self.ref_table@, w),
                m == fv.len(),
                out@.len() + fns@.len() == m,
                fn_views(fns@) == fv.subrange(out@.len() as int, m as int),
                fns_acc(fv.subrange(out@.len() as int, m as int), w) == target,
                target is Some,
                forall|i: int| 0 <= i < out@.len() ==> fn_labeled(fv[i], (#[trigger] out@[i])@),
            decreases fns@.len(),
        {
            let ghost j = out@.len() as int;
            let ghost w_entry = w;
            let ghost pre = fns@;
            let f = fns.remove(0);
            proof {
                assert(fv.subrange(j, m as int).first() == fv[j]);
                assert(fv[j] == fn_views(pre)[0]);
                assert(fn_views(pre)[0] == pre[0]@);
                assert(fv[j] == f@);
                assert(fn_views(fns@) =~= fv.subrange(j + 1, m as int)) by {
                    assert forall|i: int| 0 <= i < fns@.len() implies fn_views(fns@)[i]
                        == fv.subrange(j + 1, m as int)[i] by {
                        assert(fn_views(fns@)[i] == fns@[i]@);
                        assert(fns@[i] == pre[i + 1]);
                        assert(fn_views(pre)[i + 1] == pre[i + 1]@);
                        assert(fv.subrange(j, m as int)[i + 1] == fv[j + 1 + i]);
                    }
                }
            }
            let Function { instructions, labels, name } = f;
            let ghost sv = crate::ins::stream_view(instructions@);
            let ghost n = sv.len();
            let ghost stream_target = stream_acc(sv, w);
            proof {
                assert(fv[j].instructions == sv);
                assert(stream_target is Some) by {
                    assert(fns_acc(fv.subrange(j, m as int), w) == target);
                }
            }
            let mut items = instructions;
            let mut outs: Vec<Instruction> = Vec::new();
            proof {
                assert(crate::ins::stream_view(items@) =~= sv.subrange(0, n as int));
            }
            while items.len() > 0
                invariant
                    self.rmgr.matches_table(),
                    rt_ok(self.ref_table@, w),
                    n == sv.len(),
                    outs@.len() + items@.len() == n,
                    crate::ins::stream_view(items@) == sv.subrange(outs@.len() as int, n as int),
                    stream_acc(sv.subrange(outs@.len() as int, n as int), w) == stream_target,
                    stream_target is Some,
                    forall|i: int|
                        0 <= i < outs@.len() ==> ins_rel(sv[i], (#[trigger] outs@[i])@)
                            && width_assigned(outs@[i]@) && forwards_operand_register(outs@[i]@),
                decreases items@.len(),
            {
                let ghost k = outs@.len() as int;
                let ghost ipre = items@;
                let ins = items.remove(0);
                proof {
                    assert(sv.subrange(k, n as int).first() == sv[k]);
                    assert(sv[k] == crate::ins::stream_view(ipre)[0]);
                    assert(crate::ins::stream_view(ipre)[0] == ipre[0]@);
                    assert(ins@ == sv[k]);
                    assert(crate::ins::stream_view(items@) =~= sv.subrange(k + 1, n as int)) by {
                        assert forall|i: int| 0 <= i < items@.len() implies crate::ins::stream_view(
                            items@,
                        )[i] == sv.subrange(k + 1, n as int)[i] by {
                            assert(crate::ins::stream_view(items@)[i] == items@[i]@);
                            assert(items@[i] == ipre[i + 1]);
                            assert(crate::ins::stream_view(ipre)[i + 1] == ipre[i + 1]@);
                            assert(sv.subrange(k, n as int)[i + 1] == sv[k + 1 + i]);
                        }
                    }
                    assert(sv.subrange(k, n as int).drop_first() =~= sv.subrange(k + 1, n as int));
                }
                match ins {
                    Instruction::TmpNode(node, t, _slot) => {
                        let ghost nv = node@;
                        proof {
                            assert(ins_acc(nv, t, w) is Some);
                        }
                        match self.process_ins(node, &t, Ghost(w)) {
                            Ok((n2, lbl)) => {
                                proof {
                                    w = ins_acc(nv, t, w).unwrap();
                                }
                                outs.push(Instruction::TmpNode(n2, t, Some(lbl)));
                            },
                            Err(e) => {
                                return Err(e);
                            },
                        }
                    },
                    Instruction::Pop => {
                        self.rmgr.deallocate_all();
                        proof {
                            assert forall|i: int|
                                0 <= i < self.rmgr.registers@.len() implies (
                            #[trigger] self.rmgr.registers@[i]).label
                                == crate::reg::register_table()[i].0 && self.rmgr.registers@[i].size
                                == crate::reg::register_table()[i].1 by {}
                        }
                        outs.push(Instruction::Pop);
                    },
                    other => {
                        outs.push(other);
                    },
                }
            }
            proof {
                assert(sv.subrange(n as int, n as int) =~= Seq::<InstructionV>::empty());
                assert(stream_labeled(sv, crate::ins::stream_view(outs@))) by {
                    assert(crate::ins::stream_view(outs@).len() == outs@.len());
                }
            }
            let rebuilt = Function { instructions: outs, labels, name };
            proof {
                assert(fn_labeled(fv[j], rebuilt@));
                assert(fns_acc(fv.subrange(j + 1, m as int), w) == target) by {
                    assert(fv.subrange(j, m as int).drop_first() =~= fv.subrange(j + 1, m as int));
                    assert(fns_acc(fv.subrange(j, m as int), w_entry) == target);
                    assert(stream_acc(sv, w_entry) == stream_target);
                    assert(stream_acc(sv.subrange(n as int, n as int), w) == Some(w));
                }
            }
            out.push(rebuilt);
        }
        proof {
            assert(fv.subrange(m as int, m as int) =~= Seq::<FunctionV>::empty());
            assert forall|i: int| 0 <= i < functions@.len() implies fn_labeled(
                (#[trigger] functions@[i])@,
                out@[i]@,
            ) by {
                assert(fv[i] == functions@[i]@);
            }
        }
        Ok(out)
    }

    /// Pick a fresh register of the given width and prove its width.
    fn take_register(&mut self, size: RegisterSize) -> (r: Result<RegisterLabel, LabelError>)
        requires
            old(self).rmgr.matches_table(),
        ensures
            final(self).rmgr.matches_table(),
            final(self).ref_table == old(self).ref_table,
            match r {
                Ok(l) => spec_label_width(l) == size,
                Err(e) => e == LabelError::RegisterExhausted(size) && *final(self) == *old(self)
                    && (forall|i: int|
                    0 <= i < old(self).rmgr.registers@.len() ==> !crate::reg::is_free_match(
                        #[trigger] old(self).rmgr.registers@[i],
                        size,
                    )),
            },
    {
        let res = self.rmgr.allocate(size);
        match res {
            Ok(l) => {
                proof {
                    crate::reg::lemma_table_widths();
                    let i = choose|i: int|
                        0 <= i < old(self).rmgr.registers@.len() && crate::reg::is_free_match(
                            #[trigger] old(self).rmgr.registers@[i],
                            size,
                        ) && (forall|j: int|
                            0 <= j < i ==> !crate::reg::is_free_match(
                                #[trigger] old(self).rmgr.registers@[j],
                                size,
                            )) && l == old(self).rmgr.registers@[i].label && self.rmgr.registers@
                            == old(self).rmgr.registers@.update(
                            i,
                            (crate::reg::Register { used: true, ..old(self).rmgr.registers@[i] }),
                        );
                    assert(old(self).rmgr.registers@[i].label == crate::reg::register_table()[i].0);
                    assert(old(self).rmgr.registers@[i].size == crate::reg::register_table()[i].1);
                    assert(spec_label_width(l) == size);
                }
                Ok(l)
            },
            Err(e) => {
                proof {
                    assert(e == RegError::NoFreeRegister(size));
                }
                Err(LabelError::RegisterExhausted(size))
            },
        }
    }
}

} // verus!
