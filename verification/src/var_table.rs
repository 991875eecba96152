use vstd::prelude::*;

use crate::typechecker::TaggedType;
use crate::util::str_eq;

verus! {

/// One tracked local of the SSIR builder: its name, the depth of the scope
/// it was declared in, and its type tag.
#[derive(Debug, PartialEq)]
pub struct Variable {
    pub name: String,
    pub scope_level: usize,
    pub tagged_type: TaggedType,
}

/// The mathematical value of a tracked local.
pub struct VariableV {
    pub name: Seq<char>,
    pub scope_level: usize,
    pub tagged_type: TaggedType,
}

impl View for Variable {
    type V = VariableV;

    open spec fn view(&self) -> VariableV {
        VariableV { name: self.name@, scope_level: self.scope_level, tagged_type: self.tagged_type }
    }
}

impl Variable {
    pub fn new(name: String, tagged_type: TaggedType) -> (r: Variable)
        ensures
            r@ == (VariableV { name: name@, scope_level: 0, tagged_type }),
    {
        Variable { name, scope_level: 0, tagged_type }
    }

    /// A copy of this entry.
    pub fn duplicate(&self) -> (r: Variable)
        ensures
            r@ == self@,
    {
        Variable {
            name: self.name.clone(),
            scope_level: self.scope_level,
            tagged_type: self.tagged_type,
        }
    }
}

/// Look a name up, newest entry first.
pub open spec fn var_lookup(s: Seq<VariableV>, name: Seq<char>) -> Option<VariableV>
    decreases s.len(),
{
    if s.len() == 0 {
        None
    } else if s.last().name == name {
        Some(s.last())
    } else {
        var_lookup(s.drop_last(), name)
    }
}

/// The entries that survive the end of the scope at depth `level`: those of
/// strictly shallower scopes.
pub open spec fn vars_below(s: Seq<VariableV>, level: usize) -> Seq<VariableV>
    decreases s.len(),
{
    if s.len() == 0 {
        Seq::empty()
    } else if s.first().scope_level < level {
        seq![s.first()] + vars_below(s.drop_first(), level)
    } else {
        vars_below(s.drop_first(), level)
    }
}

/// Appending one entry commutes with filtering.
pub proof fn lemma_vars_below_push(s: Seq<VariableV>, p: VariableV, level: usize)
    ensures
        vars_below(s.push(p), level) == if p.scope_level < level {
            vars_below(s, level).push(p)
        } else {
            vars_below(s, level)
        },
    decreases s.len(),
{
    assert(vars_below(Seq::<VariableV>::empty(), level) =~= Seq::<VariableV>::empty());
    if s.len() == 0 {
        assert(s.push(p).first() == p);
        assert(s.push(p).drop_first() =~= Seq::<VariableV>::empty());
        assert(s =~= Seq::<VariableV>::empty());
        if p.scope_level < level {
            assert(vars_below(s.push(p), level) =~= vars_below(s, level).push(p));
        }
    } else {
        assert(s.push(p).first() == s.first());
        assert(s.push(p).drop_first() =~= s.drop_first().push(p));
        lemma_vars_below_push(s.drop_first(), p, level);
        if s.first().scope_level < level {
            if p.scope_level < level {
                assert(vars_below(s.push(p), level) =~= vars_below(s, level).push(p));
            } else {
                assert(vars_below(s.push(p), level) =~= vars_below(s, level));
            }
        }
    }
}

/// The scoped variable table of the SSIR builder.
#[derive(Debug, PartialEq)]
pub struct VarTable {
    pub variables: Vec<Variable>,
    pub scope_level: usize,
}

/// The views of the entries.
pub open spec fn vars_view(v: Seq<Variable>) -> Seq<VariableV> {
    v.map_values(|x: Variable| x@)
}

impl VarTable {
    pub fn new() -> (r: VarTable)
        ensures
            vars_view(r.variables@) == Seq::<VariableV>::empty(),
            r.scope_level == 0,
    {
        let r = VarTable { variables: Vec::new(), scope_level: 0 };
        proof {
            assert(vars_view(r.variables@) =~= Seq::<VariableV>::empty());
        }
        r
    }

    /// Record a local in the current scope; the entry's own scope level is
    /// overwritten with the table's.
    pub fn add_var(&mut self, var: Variable)
        ensures
            final(self).scope_level == old(self).scope_level,
            vars_view(final(self).variables@) == vars_view(old(self).variables@).push(
                (VariableV {
                    name: var@.name,
                    scope_level: old(self).scope_level,
                    tagged_type: var@.tagged_type,
                }),
            ),
    {
        let mut var = var;
        var.scope_level = self.scope_level;
        let ghost vv = var@;
        self.variables.push(var);
        proof {
            assert(vars_view(self.variables@) =~= vars_view(old(self).variables@).push(vv));
        }
    }

    /// Open a block scope. The depth saturates rather than overflow; no
    /// source program nests that deep.
    pub fn add_scope(&mut self)
        ensures
            final(self).variables == old(self).variables,
            final(self).scope_level == if old(self).scope_level < usize::MAX {
                old(self).scope_level + 1
            } else {
                old(self).scope_level as int
            },
    {
        if self.scope_level < usize::MAX {
            self.scope_level = self.scope_level + 1;
        }
    }

    /// Close the current block scope, dropping every local declared in it.
    pub fn end_scope(&mut self)
        ensures
            vars_view(final(self).variables@) == vars_below(
                vars_view(old(self).variables@),
                old(self).scope_level,
            ),
            final(self).scope_level == if old(self).scope_level > 0 {
                old(self).scope_level - 1
            } else {
                0
            },
    {
        let ghost ev = vars_view(self.variables@);
        let level = self.scope_level;
        let mut out: Vec<Variable> = Vec::new();
        let mut i: usize = 0;
        let n = self.variables.len();
        proof {
            assert(vars_view(out@) =~= Seq::<VariableV>::empty());
            assert(ev.subrange(0, 0) =~= Seq::<VariableV>::empty());
            assert(vars_below(ev.subrange(0, 0), level) =~= Seq::<VariableV>::empty());
        }
        while i < n
            invariant
                i <= n,
                n == self.variables@.len(),
                self.scope_level == level,
                self.variables == old(self).variables,
                ev == vars_view(self.variables@),
                ev.len() == n,
                vars_view(out@) == vars_below(ev.subrange(0, i as int), level),
            decreases n - i,
        {
            proof {
                assert(ev.subrange(0, i as int + 1) =~= ev.subrange(0, i as int).push(
                    ev[i as int],
                ));
                lemma_vars_below_push(ev.subrange(0, i as int), ev[i as int], level);
                assert(ev[i as int] == self.variables@[i as int]@);
            }
            let v = &self.variables[i];
            if v.scope_level < level {
                out.push(v.duplicate());
                proof {
                    assert(vars_view(out@) =~= vars_view(out@.drop_last()).push(out@.last()@));
                }
            }
            i = i + 1;
        }
        proof {
            assert(ev.subrange(0, n as int) =~= ev);
        }
        self.variables = out;
        if self.scope_level > 0 {
            self.scope_level = self.scope_level - 1;
        }
    }

    /// Find the newest entry of the given name.
    pub fn get_var(&self, var_name: &str) -> (r: Option<Variable>)
        ensures
            match r {
                Some(v) => var_lookup(vars_view(self.variables@), var_name@) == Some(v@),
                None => var_lookup(vars_view(self.variables@), var_name@) is None,
            },
    {
        let ghost ev = vars_view(self.variables@);
        let mut i: usize = self.variables.len();
        proof {
            assert(ev.subrange(0, i as int) =~= ev);
        }
        while i > 0
            invariant
                i <= self.variables@.len(),
                ev == vars_view(self.variables@),
                ev.len() == self.variables@.len(),
                var_lookup(ev, var_name@) == var_lookup(ev.subrange(0, i as int), var_name@),
            decreases i,
        {
            i = i - 1;
            let hit = str_eq(self.variables[i].name.as_str(), var_name);
            proof {
                assert(ev[i as int] == self.variables@[i as int]@);
                assert(ev.subrange(0, i as int + 1).last() == ev[i as int]);
                assert(ev.subrange(0, i as int + 1).drop_last() =~= ev.subrange(0, i as int));
            }
            if hit {
                return Some(self.variables[i].duplicate());
            }
        }
        assert(ev.subrange(0, 0) =~= Seq::<VariableV>::empty());
        None
    }
}

} // verus!
