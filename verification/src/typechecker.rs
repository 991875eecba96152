use vstd::prelude::*;

use crate::util::str_eq;
use vstd::assert_seqs_equal;

verus! {

/// The classes a resolved type can fall in; `None` is the sentinel of the
/// unresolved tag.
#[derive(PartialEq, Eq, Structural, Clone, Copy, Debug)]
pub enum TypeKind {
    Numeric,
    Float,
    Bool,
    Textual,
    NoneKind,
}

/// A named, resolved type: its byte size, kind and signedness.
#[derive(Debug)]
pub struct Type {
    pub name: String,
    pub size: usize,
    pub kind: TypeKind,
    pub signed: Option<bool>,
}

/// The mathematical value of a `Type`: the same fields with the name as a
/// sequence of characters.
pub struct TypeV {
    pub name: Seq<char>,
    pub size: usize,
    pub kind: TypeKind,
    pub signed: Option<bool>,
}

impl View for Type {
    type V = TypeV;

    open spec fn view(&self) -> TypeV {
        TypeV { name: self.name@, size: self.size, kind: self.kind, signed: self.signed }
    }
}

/// Equality of types as the checker uses it: equal names, sizes and kinds,
/// with a missing signedness standing for unsigned.
pub open spec fn spec_type_eq(a: TypeV, b: TypeV) -> bool {
    &&& a.name == b.name
    &&& a.size == b.size
    &&& a.kind == b.kind
    &&& a.signed.unwrap_or(false) == b.signed.unwrap_or(false)
}

impl Type {
    pub fn new(name: String, size: usize, kind: TypeKind, signed: Option<bool>) -> (r: Type)
        ensures
            r@ == (TypeV { name: name@, size, kind, signed }),
    {
        Type { name, size, kind, signed }
    }

    /// A copy of this type.
    pub fn duplicate(&self) -> (r: Type)
        ensures
            r@ == self@,
    {
        Type { name: self.name.clone(), size: self.size, kind: self.kind, signed: self.signed }
    }

    /// Equality as the checker compares types.
    pub fn same_type(&self, other: &Type) -> (r: bool)
        ensures
            r == spec_type_eq(self@, other@),
    {
        let signed_eq = self.signed.unwrap_or(false) == other.signed.unwrap_or(false);
        str_eq(self.name.as_str(), other.name.as_str()) && self.size == other.size && self.kind
            == other.kind && signed_eq
    }
}

impl PartialEq for Type {
    fn eq(&self, other: &Self) -> (r: bool) {
        self.same_type(other)
    }
}

impl vstd::std_specs::cmp::PartialEqSpecImpl for Type {
    open spec fn obeys_eq_spec() -> bool {
        true
    }

    open spec fn eq_spec(&self, other: &Type) -> bool {
        spec_type_eq(self@, other@)
    }
}

/// The detached type tag carried on AST literals, declarations and SSIR
/// values. The default value is the parser's "unknown" sentinel.
#[derive(PartialEq, Eq, Structural, Clone, Copy, Debug)]
pub struct TaggedType {
    pub size: usize,
    pub kind: TypeKind,
    pub signed: Option<bool>,
}

/// The tag a resolved type detaches to.
pub open spec fn tag_of(t: TypeV) -> TaggedType {
    TaggedType { size: t.size, kind: t.kind, signed: t.signed }
}

impl TaggedType {
    pub fn new(size: usize, kind: TypeKind, signed: Option<bool>) -> (r: TaggedType)
        ensures
            r == (TaggedType { size, kind, signed }),
    {
        TaggedType { size, kind, signed }
    }

    /// The tag of a resolved type.
    pub fn from_type(t: &Type) -> (r: TaggedType)
        ensures
            r == tag_of(t@),
    {
        TaggedType { size: t.size, kind: t.kind, signed: t.signed }
    }

    /// A short rendering of the tag: `i`/`u` and the bit width for numeric
    /// tags, `bool` for the boolean tag.
    pub fn text(&self) -> (r: String)
        requires
            self.kind == TypeKind::Numeric ==> self.size <= usize::MAX / 8,
        ensures
            self.kind == TypeKind::Numeric ==> r@ == (if self.signed.unwrap_or(false) {
                "i"@
            } else {
                "u"@
            }) + crate::util::dec_digits((self.size * 8) as nat),
            self.kind == TypeKind::Bool ==> r@ == "bool"@,
    {
        match self.kind {
            TypeKind::Numeric => {
                let mut s = if self.signed.unwrap_or(false) {
                    String::from_str("i")
                } else {
                    String::from_str("u")
                };
                let digits = crate::util::usize_to_string(self.size * 8);
                s.append(digits.as_str());
                s
            },
            TypeKind::Bool => String::from_str("bool"),
            _ => String::new(),
        }
    }
}

impl Default for TaggedType {
    /// The parser's "unknown" sentinel tag.
    fn default() -> (r: TaggedType)
        ensures
            r == (TaggedType { size: 0, kind: TypeKind::NoneKind, signed: None }),
    {
        TaggedType { size: 0, kind: TypeKind::NoneKind, signed: None }
    }
}

/// One entry of a name-to-type table, as spec values.
pub type TypeEntryV = (Seq<char>, TypeV);

/// Look a name up in a table; the newest entry wins.
pub open spec fn tv_lookup(s: Seq<TypeEntryV>, name: Seq<char>) -> Option<TypeV>
    decreases s.len(),
{
    if s.len() == 0 {
        None
    } else if s.last().0 == name {
        Some(s.last().1)
    } else {
        tv_lookup(s.drop_last(), name)
    }
}

/// Drop every entry of the given name from a table.
pub open spec fn tv_remove(s: Seq<TypeEntryV>, name: Seq<char>) -> Seq<TypeEntryV>
    decreases s.len(),
{
    if s.len() == 0 {
        Seq::empty()
    } else if s.first().0 == name {
        tv_remove(s.drop_first(), name)
    } else {
        seq![s.first()] + tv_remove(s.drop_first(), name)
    }
}

/// Appending one entry commutes with removal.
pub proof fn lemma_tv_remove_push(s: Seq<TypeEntryV>, p: TypeEntryV, name: Seq<char>)
    ensures
        tv_remove(s.push(p), name) == if p.0 == name {
            tv_remove(s, name)
        } else {
            tv_remove(s, name).push(p)
        },
    decreases s.len(),
{
    assert(tv_remove(Seq::<TypeEntryV>::empty(), name) =~= Seq::<TypeEntryV>::empty());
    if s.len() == 0 {
        assert(s.push(p).first() == p);
        assert(s.push(p).drop_first() =~= Seq::<TypeEntryV>::empty());
        assert(s =~= Seq::<TypeEntryV>::empty());
        if p.0 != name {
            assert(tv_remove(s.push(p), name) =~= seq![p] + tv_remove(
                s.push(p).drop_first(),
                name,
            ));
            assert(tv_remove(s.push(p), name) =~= tv_remove(s, name).push(p));
        } else {
            assert(tv_remove(s.push(p), name) =~= tv_remove(s.push(p).drop_first(), name));
        }
    } else {
        assert(s.push(p).first() == s.first());
        assert(s.push(p).drop_first() =~= s.drop_first().push(p));
        lemma_tv_remove_push(s.drop_first(), p, name);
        if s.first().0 != name {
            if p.0 == name {
                assert(tv_remove(s.push(p), name) =~= tv_remove(s, name));
            } else {
                assert(tv_remove(s.push(p), name) =~= tv_remove(s, name).push(p));
            }
        }
    }
}

/// The table as spec values.
pub open spec fn entries_view(v: Seq<(String, Type)>) -> Seq<TypeEntryV> {
    v.map_values(|p: (String, Type)| (p.0@, p.1@))
}

/// Look a name up in a table, newest entry first.
pub fn map_get(entries: &Vec<(String, Type)>, name: &str) -> (r: Option<Type>)
    ensures
        match r {
            Some(t) => tv_lookup(entries_view(entries@), name@) == Some(t@),
            None => tv_lookup(entries_view(entries@), name@) is None,
        },
{
    let ghost ev = entries_view(entries@);
    let mut i: usize = entries.len();
    assert(ev.subrange(0, i as int) =~= ev);
    while i > 0
        invariant
            i <= entries@.len(),
            ev == entries_view(entries@),
            ev.len() == entries@.len(),
            tv_lookup(ev, name@) == tv_lookup(ev.subrange(0, i as int), name@),
        decreases i,
    {
        i = i - 1;
        let hit = str_eq(entries[i].0.as_str(), name);
        proof {
            assert(ev[i as int] == (entries@[i as int].0@, entries@[i as int].1@));
            assert(ev.subrange(0, i as int + 1).last() == ev[i as int]);
            assert(ev.subrange(0, i as int + 1).drop_last() =~= ev.subrange(0, i as int));
        }
        if hit {
            let found = &entries[i].1;
            return Some(found.duplicate());
        }
    }
    assert(ev.subrange(0, 0) =~= Seq::<TypeEntryV>::empty());
    None
}

/// Drop every entry of the given name.
pub fn map_remove(entries: &Vec<(String, Type)>, name: &str) -> (r: Vec<(String, Type)>)
    ensures
        entries_view(r@) == tv_remove(entries_view(entries@), name@),
{
    let ghost ev = entries_view(entries@);
    let mut out: Vec<(String, Type)> = Vec::new();
    let items = entries;
    let mut i: usize = 0;
    proof {
        assert(entries_view(out@) =~= Seq::<TypeEntryV>::empty());
        assert(ev.subrange(0, 0) =~= Seq::<TypeEntryV>::empty());
        assert(tv_remove(ev.subrange(0, 0), name@) =~= Seq::<TypeEntryV>::empty());
    }
    while i < items.len()
        invariant
            i <= items@.len(),
            ev == entries_view(items@),
            ev.len() == items@.len(),
            entries_view(out@) == tv_remove(ev.subrange(0, i as int), name@),
        decreases items@.len() - i,
    {
        let hit = str_eq(items[i].0.as_str(), name);
        proof {
            assert(ev.subrange(0, i as int + 1) =~= ev.subrange(0, i as int).push(ev[i as int]));
            lemma_tv_remove_push(ev.subrange(0, i as int), ev[i as int], name@);
            assert(ev[i as int] == (items@[i as int].0@, items@[i as int].1@));
        }
        if !hit {
            let entry = &items[i];
            out.push((entry.0.clone(), entry.1.duplicate()));
            proof {
                assert(entries_view(out@) =~= entries_view(out@.drop_last()).push(
                    (out@.last().0@, out@.last().1@),
                ));
            }
        }
        i = i + 1;
    }
    proof {
        assert(ev.subrange(0, items@.len() as int) =~= ev);
    }
    out
}

/// Whether every character of `s` is a decimal digit.
pub open spec fn all_digits(s: Seq<char>) -> bool {
    forall|i: int| 0 <= i < s.len() ==> '0' <= #[trigger] s[i] && s[i] <= '9'
}

/// The value of a digit string, read in decimal.
pub open spec fn digits_val(s: Seq<char>) -> nat
    decreases s.len(),
{
    if s.len() == 0 {
        0
    } else {
        (digits_val(s.drop_last()) * 10 + (s.last() as int - '0' as int)) as nat
    }
}

/// Whether a literal text is a plain decimal number no greater than `max`.
pub open spec fn fits_in(s: Seq<char>, max: nat) -> bool {
    s.len() > 0 && all_digits(s) && digits_val(s) <= max
}

/// Check that a literal text is a plain decimal number no greater than
/// `max`.
pub fn literal_fits(text: &str, max: u64) -> (r: bool)
    ensures
        r == fits_in(text@, max as nat),
{
    let n = text.unicode_len();
    if n == 0 {
        return false;
    }
    let mut i: usize = 0;
    let mut acc: u64 = 0;
    let mut over = false;
    proof {
        assert(text@.subrange(0, 0) =~= Seq::<char>::empty());
    }
    while i < n
        invariant
            n == text@.len(),
            i <= n,
            all_digits(text@.subrange(0, i as int)),
            !over ==> acc == digits_val(text@.subrange(0, i as int)) && acc <= max,
            over ==> digits_val(text@.subrange(0, i as int)) > max,
        decreases n - i,
    {
        let c = text.get_char(i);
        if c < '0' || c > '9' {
            return false;
        }
        let d: u64 = (c as u32 - '0' as u32) as u64;
        proof {
            assert(text@.subrange(0, i as int + 1).drop_last() =~= text@.subrange(0, i as int));
            assert(text@.subrange(0, i as int + 1).last() == text@[i as int]);
        }
        if !over {
            if acc > max / 10 || (acc == max / 10 && d > max % 10) {
                over = true;
                proof {
                    let prev = digits_val(text@.subrange(0, i as int));
                    let now = digits_val(text@.subrange(0, i as int + 1));
                    assert(now == prev * 10 + d);
                    if acc > max / 10 {
                        assert(prev * 10 >= (max / 10 + 1) * 10) by (nonlinear_arith)
                            requires
                                prev >= max / 10 + 1,
                        ;
                        assert(max / 10 * 10 + 9 >= max);
                    }
                }
            } else {
                acc = acc * 10 + d;
            }
        } else {
            proof {
                let prev = digits_val(text@.subrange(0, i as int));
                let now = digits_val(text@.subrange(0, i as int + 1));
                assert(now == prev * 10 + d);
                assert(prev * 10 >= prev) by (nonlinear_arith)
                    requires
                        prev >= 0,
                ;
            }
        }
        i = i + 1;
    }
    proof {
        assert(text@.subrange(0, n as int) =~= text@);
    }
    !over
}

/// Whether a literal text has the shape of a plain decimal float: only
/// digits and at most one dot, with at least one digit.
pub open spec fn float_shape(s: Seq<char>) -> bool {
    &&& s.len() > 0
    &&& forall|i: int| 0 <= i < s.len() ==> ('0' <= #[trigger] s[i] && s[i] <= '9') || s[i] == '.'
    &&& exists|i: int| 0 <= i < s.len() && '0' <= #[trigger] s[i] && s[i] <= '9'
    &&& forall|i: int, j: int|
        0 <= i < j < s.len() && #[trigger] s[i] == '.' && #[trigger] s[j] == '.' ==> false
}

/// Check that a literal text has the shape of a plain decimal float.
pub fn float_fits(text: &str) -> (r: bool)
    ensures
        r == float_shape(text@),
{
    let n = text.unicode_len();
    if n == 0 {
        return false;
    }
    let mut i: usize = 0;
    let mut seen_digit = false;
    let mut dot: Option<usize> = None;
    while i < n
        invariant
            n == text@.len(),
            i <= n,
            forall|k: int|
                0 <= k < i ==> ('0' <= #[trigger] text@[k] && text@[k] <= '9') || text@[k] == '.',
            seen_digit <==> exists|k: int| 0 <= k < i && '0' <= #[trigger] text@[k] && text@[k] <= '9',
            match dot {
                Some(p) => p < i && text@[p as int] == '.' && (forall|k: int|
                    0 <= k < i && #[trigger] text@[k] == '.' ==> k == p),
                None => forall|k: int| 0 <= k < i ==> #[trigger] text@[k] != '.',
            },
        decreases n - i,
    {
        let c = text.get_char(i);
        if c == '.' {
            if dot.is_some() {
                return false;
            }
            dot = Some(i);
        } else if c >= '0' && c <= '9' {
            seen_digit = true;
        } else {
            return false;
        }
        i = i + 1;
    }
    seen_digit
}

/// The mathematical value of the checker's state: both tables and the names
/// recorded for the current block.
pub struct TypeCheckV {
    pub types: Seq<TypeEntryV>,
    pub locals: Seq<TypeEntryV>,
    pub created: Option<Seq<Seq<char>>>,
}

/// The views of a list of names.
pub open spec fn names_view(v: Seq<String>) -> Seq<Seq<char>> {
    v.map_values(|s: String| s@)
}

/// Errors of the type checker, each carrying the entity it names.
#[derive(Debug, PartialEq)]
pub enum TypeError {
    UndefinedType(String),
    UndefinedVariable(String),
    BinaryOperandsDiffer,
    NonNumericArithmetic,
    InvalidLogical,
    AssignTypeMismatch,
    ExplicitTypeMismatch,
    Overflow(String),
    ConditionNotBool,
    EmptyArrayLiteral,
    SizeOverflow,
    UnsupportedNode,
}

/// The mathematical value of a checker error.
pub enum TypeErrorV {
    UndefinedType(Seq<char>),
    UndefinedVariable(Seq<char>),
    BinaryOperandsDiffer,
    NonNumericArithmetic,
    InvalidLogical,
    AssignTypeMismatch,
    ExplicitTypeMismatch,
    Overflow(Seq<char>),
    ConditionNotBool,
    EmptyArrayLiteral,
    SizeOverflow,
    UnsupportedNode,
}

impl View for TypeError {
    type V = TypeErrorV;

    open spec fn view(&self) -> TypeErrorV {
        match self {
            TypeError::UndefinedType(s) => TypeErrorV::UndefinedType(s@),
            TypeError::UndefinedVariable(s) => TypeErrorV::UndefinedVariable(s@),
            TypeError::BinaryOperandsDiffer => TypeErrorV::BinaryOperandsDiffer,
            TypeError::NonNumericArithmetic => TypeErrorV::NonNumericArithmetic,
            TypeError::InvalidLogical => TypeErrorV::InvalidLogical,
            TypeError::AssignTypeMismatch => TypeErrorV::AssignTypeMismatch,
            TypeError::ExplicitTypeMismatch => TypeErrorV::ExplicitTypeMismatch,
            TypeError::Overflow(s) => TypeErrorV::Overflow(s@),
            TypeError::ConditionNotBool => TypeErrorV::ConditionNotBool,
            TypeError::EmptyArrayLiteral => TypeErrorV::EmptyArrayLiteral,
            TypeError::SizeOverflow => TypeErrorV::SizeOverflow,
            TypeError::UnsupportedNode => TypeErrorV::UnsupportedNode,
        }
    }
}

/// Two nodes of the same shape: equal in everything but the type tags and
/// the resolved argument sizes, which the checker is free to write.
pub open spec fn same_shape(a: crate::ast::Node, b: crate::ast::Node) -> bool
    decreases a,
{
    match a {
        crate::ast::Node::Number(s, _, l, c) => b matches crate::ast::Node::Number(s2, _, l2, c2)
            && s2@ == s@ && l2 == l && c2 == c,
        crate::ast::Node::Float(s, _, l, c) => b matches crate::ast::Node::Float(s2, _, l2, c2)
            && s2@ == s@ && l2 == l && c2 == c,
        crate::ast::Node::StringLiteral(s, l, c) => b matches crate::ast::Node::StringLiteral(
            s2,
            l2,
            c2,
        ) && s2@ == s@ && l2 == l && c2 == c,
        crate::ast::Node::BoolLiteral(v, _, l, c) => b matches crate::ast::Node::BoolLiteral(
            v2,
            _,
            l2,
            c2,
        ) && v2 == v && l2 == l && c2 == c,
        crate::ast::Node::ArrayLiteral(items, _, l, c) => b matches crate::ast::Node::ArrayLiteral(
            items2,
            _,
            l2,
            c2,
        ) && same_shape_seq(items@, items2@) && l2 == l && c2 == c,
        crate::ast::Node::VarGet(s, l, c) => b matches crate::ast::Node::VarGet(s2, l2, c2) && s2@
            == s@ && l2 == l && c2 == c,
        crate::ast::Node::Binary(x) => b matches crate::ast::Node::Binary(y) && y.op == x.op
            && same_shape(*x.lhs, *y.lhs) && same_shape(*x.rhs, *y.rhs),
        crate::ast::Node::Function(x) => b matches crate::ast::Node::Function(y) && y.name@
            == x.name@ && y.loc == x.loc && same_args(x.args@, y.args@) && same_shape(
            *x.body,
            *y.body,
        ) && (match (x.ret_type_str, y.ret_type_str) {
            (Some(p), Some(q)) => q@ == p@,
            (None, None) => true,
            _ => false,
        }),
        crate::ast::Node::Call(x) => b matches crate::ast::Node::Call(y) && same_shape_seq(
            x.args@,
            y.args@,
        ) && same_shape(*x.callee, *y.callee),
        crate::ast::Node::VarDecl(x) => b matches crate::ast::Node::VarDecl(y) && y.name@
            == x.name@ && y.name_loc == x.name_loc && (match (x.dtype_str, y.dtype_str) {
            (Some(p), Some(q)) => q@ == p@,
            (None, None) => true,
            _ => false,
        }) && same_shape(*x.value, *y.value),
        crate::ast::Node::Grouping(x) => b matches crate::ast::Node::Grouping(y) && same_shape(
            *x.expr,
            *y.expr,
        ),
        crate::ast::Node::Unary(x) => b matches crate::ast::Node::Unary(y) && y.op == x.op
            && y.op_loc == x.op_loc && same_shape(*x.expr, *y.expr),
        crate::ast::Node::Logical(x) => b matches crate::ast::Node::Logical(y) && y.op == x.op
            && same_shape(*x.lhs, *y.lhs) && same_shape(*x.rhs, *y.rhs),
        crate::ast::Node::Assign(x) => b matches crate::ast::Node::Assign(y) && y.name@ == x.name@
            && y.name_loc == x.name_loc && same_shape(*x.value, *y.value),
        crate::ast::Node::For(x) => b matches crate::ast::Node::For(y) && y.name@ == x.name@
            && y.name_loc == x.name_loc && same_shape(*x.target, *y.target) && same_shape(
            *x.body,
            *y.body,
        ),
        crate::ast::Node::If(x) => b matches crate::ast::Node::If(y) && same_shape(
            *x.condition,
            *y.condition,
        ) && same_shape(*x.then_block, *y.then_block) && (match (x.else_block, y.else_block) {
            (Some(p), Some(q)) => same_shape(*p, *q),
            (None, None) => true,
            _ => false,
        }),
        crate::ast::Node::Use(x) => b matches crate::ast::Node::Use(y) && y.item@ == x.item@
            && y.loc == x.loc && same_shape(*x.module, *y.module),
        crate::ast::Node::Ret(x) => b matches crate::ast::Node::Ret(y) && y.loc == x.loc && (
        match (x.value, y.value) {
            (Some(p), Some(q)) => same_shape(*p, *q),
            (None, None) => true,
            _ => false,
        }),
        crate::ast::Node::Block(x) => b matches crate::ast::Node::Block(y) && same_shape_seq(
            x.statements@,
            y.statements@,
        ),
        crate::ast::Node::ExprStmt(x) => b matches crate::ast::Node::ExprStmt(y) && same_shape(
            *x.expr,
            *y.expr,
        ),
        crate::ast::Node::GetPtr(x) => b matches crate::ast::Node::GetPtr(y) && same_shape(
            *x.expr,
            *y.expr,
        ),
    }
}

/// Pointwise shape equality of node sequences.
pub open spec fn same_shape_seq(a: Seq<Box<crate::ast::Node>>, b: Seq<Box<crate::ast::Node>>) -> bool
    decreases a,
{
    if a.len() != b.len() {
        false
    } else if a.len() == 0 {
        true
    } else {
        same_shape(*a.first(), *b.first()) && same_shape_seq(a.drop_first(), b.drop_first())
    }
}

/// Every node has its own shape.
pub proof fn lemma_same_shape_refl(n: crate::ast::Node)
    ensures
        same_shape(n, n),
    decreases n,
{
    match n {
        crate::ast::Node::ArrayLiteral(items, _, _, _) => lemma_same_shape_seq_refl(items@),
        crate::ast::Node::Binary(x) => {
            lemma_same_shape_refl(*x.lhs);
            lemma_same_shape_refl(*x.rhs);
        },
        crate::ast::Node::Function(x) => lemma_same_shape_refl(*x.body),
        crate::ast::Node::Call(x) => {
            lemma_same_shape_seq_refl(x.args@);
            lemma_same_shape_refl(*x.callee);
        },
        crate::ast::Node::VarDecl(x) => lemma_same_shape_refl(*x.value),
        crate::ast::Node::Grouping(x) => lemma_same_shape_refl(*x.expr),
        crate::ast::Node::Unary(x) => lemma_same_shape_refl(*x.expr),
        crate::ast::Node::Logical(x) => {
            lemma_same_shape_refl(*x.lhs);
            lemma_same_shape_refl(*x.rhs);
        },
        crate::ast::Node::Assign(x) => lemma_same_shape_refl(*x.value),
        crate::ast::Node::For(x) => {
            lemma_same_shape_refl(*x.target);
            lemma_same_shape_refl(*x.body);
        },
        crate::ast::Node::If(x) => {
            lemma_same_shape_refl(*x.condition);
            lemma_same_shape_refl(*x.then_block);
            match x.else_block {
                Some(e) => lemma_same_shape_refl(*e),
                None => {},
            }
        },
        crate::ast::Node::Use(x) => lemma_same_shape_refl(*x.module),
        crate::ast::Node::Ret(x) => match x.value {
            Some(v) => lemma_same_shape_refl(*v),
            None => {},
        },
        crate::ast::Node::Block(x) => lemma_same_shape_seq_refl(x.statements@),
        crate::ast::Node::ExprStmt(x) => lemma_same_shape_refl(*x.expr),
        crate::ast::Node::GetPtr(x) => lemma_same_shape_refl(*x.expr),
        _ => {},
    }
}

/// Every node sequence has its own shape.
pub proof fn lemma_same_shape_seq_refl(s: Seq<Box<crate::ast::Node>>)
    ensures
        same_shape_seq(s, s),
    decreases s,
{
    if s.len() > 0 {
        lemma_same_shape_refl(*s.first());
        lemma_same_shape_seq_refl(s.drop_first());
    }
}

/// Shape equality is transitive.
pub proof fn lemma_same_shape_trans(a: crate::ast::Node, b: crate::ast::Node, c: crate::ast::Node)
    requires
        same_shape(a, b),
        same_shape(b, c),
    ensures
        same_shape(a, c),
    decreases a,
{
    match a {
        crate::ast::Node::ArrayLiteral(items, _, _, _) => match (b, c) {
            (crate::ast::Node::ArrayLiteral(ib, _, _, _), crate::ast::Node::ArrayLiteral(ic, _, _, _)) => {
                lemma_same_shape_seq_trans(items@, ib@, ic@);
            },
            _ => {},
        },
        crate::ast::Node::Binary(x) => match (b, c) {
            (crate::ast::Node::Binary(y), crate::ast::Node::Binary(z)) => {
                lemma_same_shape_trans(*x.lhs, *y.lhs, *z.lhs);
                lemma_same_shape_trans(*x.rhs, *y.rhs, *z.rhs);
            },
            _ => {},
        },
        crate::ast::Node::Function(x) => match (b, c) {
            (crate::ast::Node::Function(y), crate::ast::Node::Function(z)) => {
                lemma_same_shape_trans(*x.body, *y.body, *z.body);
            },
            _ => {},
        },
        crate::ast::Node::Call(x) => match (b, c) {
            (crate::ast::Node::Call(y), crate::ast::Node::Call(z)) => {
                lemma_same_shape_seq_trans(x.args@, y.args@, z.args@);
                lemma_same_shape_trans(*x.callee, *y.callee, *z.callee);
            },
            _ => {},
        },
        crate::ast::Node::VarDecl(x) => match (b, c) {
            (crate::ast::Node::VarDecl(y), crate::ast::Node::VarDecl(z)) => {
                lemma_same_shape_trans(*x.value, *y.value, *z.value);
            },
            _ => {},
        },
        crate::ast::Node::Grouping(x) => match (b, c) {
            (crate::ast::Node::Grouping(y), crate::ast::Node::Grouping(z)) => {
                lemma_same_shape_trans(*x.expr, *y.expr, *z.expr);
            },
            _ => {},
        },
        crate::ast::Node::Unary(x) => match (b, c) {
            (crate::ast::Node::Unary(y), crate::ast::Node::Unary(z)) => {
                lemma_same_shape_trans(*x.expr, *y.expr, *z.expr);
            },
            _ => {},
        },
        crate::ast::Node::Logical(x) => match (b, c) {
            (crate::ast::Node::Logical(y), crate::ast::Node::Logical(z)) => {
                lemma_same_shape_trans(*x.lhs, *y.lhs, *z.lhs);
                lemma_same_shape_trans(*x.rhs, *y.rhs, *z.rhs);
            },
            _ => {},
        },
        crate::ast::Node::Assign(x) => match (b, c) {
            (crate::ast::Node::Assign(y), crate::ast::Node::Assign(z)) => {
                lemma_same_shape_trans(*x.value, *y.value, *z.value);
            },
            _ => {},
        },
        crate::ast::Node::For(x) => match (b, c) {
            (crate::ast::Node::For(y), crate::ast::Node::For(z)) => {
                lemma_same_shape_trans(*x.target, *y.target, *z.target);
                lemma_same_shape_trans(*x.body, *y.body, *z.body);
            },
            _ => {},
        },
        crate::ast::Node::If(x) => match (b, c) {
            (crate::ast::Node::If(y), crate::ast::Node::If(z)) => {
                lemma_same_shape_trans(*x.condition, *y.condition, *z.condition);
                lemma_same_shape_trans(*x.then_block, *y.then_block, *z.then_block);
                match (x.else_block, y.else_block, z.else_block) {
                    (Some(p), Some(q), Some(w)) => lemma_same_shape_trans(*p, *q, *w),
                    _ => {},
                }
            },
            _ => {},
        },
        crate::ast::Node::Use(x) => match (b, c) {
            (crate::ast::Node::Use(y), crate::ast::Node::Use(z)) => {
                lemma_same_shape_trans(*x.module, *y.module, *z.module);
            },
            _ => {},
        },
        crate::ast::Node::Ret(x) => match (b, c) {
            (crate::ast::Node::Ret(y), crate::ast::Node::Ret(z)) => {
                match (x.value, y.value, z.value) {
                    (Some(p), Some(q), Some(w)) => lemma_same_shape_trans(*p, *q, *w),
                    _ => {},
                }
            },
            _ => {},
        },
        crate::ast::Node::Block(x) => match (b, c) {
            (crate::ast::Node::Block(y), crate::ast::Node::Block(z)) => {
                lemma_same_shape_seq_trans(x.statements@, y.statements@, z.statements@);
            },
            _ => {},
        },
        crate::ast::Node::ExprStmt(x) => match (b, c) {
            (crate::ast::Node::ExprStmt(y), crate::ast::Node::ExprStmt(z)) => {
                lemma_same_shape_trans(*x.expr, *y.expr, *z.expr);
            },
            _ => {},
        },
        crate::ast::Node::GetPtr(x) => match (b, c) {
            (crate::ast::Node::GetPtr(y), crate::ast::Node::GetPtr(z)) => {
                lemma_same_shape_trans(*x.expr, *y.expr, *z.expr);
            },
            _ => {},
        },
        _ => {},
    }
}

/// Pointwise shape transitivity.
pub proof fn lemma_same_shape_seq_trans(
    a: Seq<Box<crate::ast::Node>>,
    b: Seq<Box<crate::ast::Node>>,
    c: Seq<Box<crate::ast::Node>>,
)
    requires
        same_shape_seq(a, b),
        same_shape_seq(b, c),
    ensures
        same_shape_seq(a, c),
    decreases a,
{
    if a.len() > 0 {
        lemma_same_shape_trans(*a.first(), *b.first(), *c.first());
        lemma_same_shape_seq_trans(a.drop_first(), b.drop_first(), c.drop_first());
    }
}

/// Nodes of one shape fail or pass the narrowing pass alike: the pass reads
/// only literal texts and operators, which shape equality fixes.
pub proof fn lemma_overwrite_ok_shape(a: crate::ast::Node, b: crate::ast::Node, t: TypeV)
    requires
        same_shape(a, b),
    ensures
        spec_overwrite_ok(a, t) == spec_overwrite_ok(b, t),
    decreases a,
{
    match a {
        crate::ast::Node::Binary(x) => match b {
            crate::ast::Node::Binary(y) => {
                lemma_overwrite_ok_shape(*x.lhs, *y.lhs, t);
                lemma_overwrite_ok_shape(*x.rhs, *y.rhs, t);
            },
            _ => {},
        },
        crate::ast::Node::Unary(x) => match b {
            crate::ast::Node::Unary(y) => lemma_overwrite_ok_shape(*x.expr, *y.expr, t),
            _ => {},
        },
        crate::ast::Node::Logical(x) => match b {
            crate::ast::Node::Logical(y) => {
                lemma_overwrite_ok_shape(*x.lhs, *y.lhs, t);
                lemma_overwrite_ok_shape(*x.rhs, *y.rhs, t);
            },
            _ => {},
        },
        crate::ast::Node::Assign(x) => match b {
            crate::ast::Node::Assign(y) => lemma_overwrite_ok_shape(*x.value, *y.value, t),
            _ => {},
        },
        crate::ast::Node::Grouping(x) => match b {
            crate::ast::Node::Grouping(y) => lemma_overwrite_ok_shape(*x.expr, *y.expr, t),
            _ => {},
        },
        _ => {},
    }
}

/// Pointwise equality of parameter lists up to the resolved sizes.
pub open spec fn same_args(a: Seq<crate::ast::FunctionArg>, b: Seq<crate::ast::FunctionArg>) -> bool {
    &&& a.len() == b.len()
    &&& forall|i: int|
        0 <= i < a.len() ==> (#[trigger] b[i]).name@ == a[i].name@ && b[i].name_loc == a[i].name_loc
            && b[i].dtype@ == a[i].dtype@
}

/// The tags the checker writes on the paths it visits: every literal it
/// reaches carries a kind other than the sentinel. Operands of a logical
/// `not` and of an address-of are not visited, and only the first element of
/// an array literal is.
pub open spec fn tags_ok(n: crate::ast::Node) -> bool
    decreases n,
{
    match n {
        crate::ast::Node::Number(_, t, _, _) => t.kind != TypeKind::NoneKind,
        crate::ast::Node::Float(_, t, _, _) => t.kind != TypeKind::NoneKind,
        crate::ast::Node::BoolLiteral(_, t, _, _) => t.kind != TypeKind::NoneKind,
        crate::ast::Node::ArrayLiteral(items, _, _, _) => items@.len() > 0 && tags_ok(
            *items@[0],
        ),
        crate::ast::Node::Binary(x) => tags_ok(*x.lhs) && tags_ok(*x.rhs),
        crate::ast::Node::Logical(x) => tags_ok(*x.lhs) && tags_ok(*x.rhs),
        crate::ast::Node::Unary(x) => x.op == crate::ast::UnaryOp::Not || tags_ok(*x.expr),
        crate::ast::Node::Grouping(x) => tags_ok(*x.expr),
        crate::ast::Node::Assign(x) => tags_ok(*x.value),
        crate::ast::Node::VarDecl(x) => tags_ok(*x.value),
        crate::ast::Node::ExprStmt(x) => tags_ok(*x.expr),
        crate::ast::Node::Block(x) => tags_ok_seq(x.statements@),
        crate::ast::Node::If(x) => tags_ok(*x.condition) && tags_ok(*x.then_block) && (
        match x.else_block {
            Some(e) => tags_ok(*e),
            None => true,
        }),
        crate::ast::Node::Function(x) => tags_ok(*x.body),
        _ => true,
    }
}

/// Every statement of the sequence carries its tags.
pub open spec fn tags_ok_seq(s: Seq<Box<crate::ast::Node>>) -> bool
    decreases s,
{
    if s.len() == 0 {
        true
    } else {
        tags_ok(*s.first()) && tags_ok_seq(s.drop_first())
    }
}

/// How the checked node's own tag relates to the type the checker computed
/// for it: literal and declaration tags equal the detached type, and an
/// array literal's tag multiplies the element size by the length.
pub open spec fn result_tag_rel(a: crate::ast::Node, b: crate::ast::Node, t: TypeV) -> bool {
    match b {
        crate::ast::Node::Number(_, tg, _, _) => tg == tag_of(t),
        crate::ast::Node::Float(_, tg, _, _) => tg == tag_of(t),
        crate::ast::Node::BoolLiteral(_, tg, _, _) => tg == tag_of(t),
        crate::ast::Node::ArrayLiteral(items, tg, _, _) => tg == (TaggedType {
            size: (t.size * items@.len()) as usize,
            kind: t.kind,
            signed: t.signed,
        }),
        crate::ast::Node::VarDecl(x) => x.dtype == tag_of(t),
        crate::ast::Node::Function(x) => x.ret_type == tag_of(t),
        _ => true,
    }
}

/// The decimal bound the checker holds a numeric literal to, by type name;
/// types it does not range-check give no bound.
pub open spec fn int_bound(name: Seq<char>) -> Option<nat> {
    if name == "u8"@ {
        Some(255 as nat)
    } else if name == "i8"@ {
        Some(127 as nat)
    } else if name == "u16"@ {
        Some(65535 as nat)
    } else if name == "i16"@ {
        Some(32767 as nat)
    } else if name == "u32"@ {
        Some(4294967295 as nat)
    } else if name == "i32"@ {
        Some(2147483647 as nat)
    } else if name == "u64"@ {
        Some(18446744073709551615 as nat)
    } else if name == "i64"@ {
        Some(9223372036854775807 as nat)
    } else {
        None
    }
}

/// Where the narrowing pass fails on a value tree: the first literal, in
/// evaluation order, whose text does not fit the annotated type.
pub open spec fn spec_overwrite_ok(n: crate::ast::Node, t: TypeV) -> Option<TypeErrorV>
    decreases n,
{
    match n {
        crate::ast::Node::Number(lit, _, _, _) => match int_bound(t.name) {
            Some(bound) => if fits_in(lit@, bound) {
                None
            } else {
                Some(TypeErrorV::Overflow(lit@))
            },
            None => None,
        },
        crate::ast::Node::Float(lit, _, _, _) => if t.name == "f32"@ || t.name == "f64"@ {
            if float_shape(lit@) {
                None
            } else {
                Some(TypeErrorV::Overflow(lit@))
            }
        } else {
            None
        },
        crate::ast::Node::Binary(x) => match spec_overwrite_ok(*x.lhs, t) {
            Some(e) => Some(e),
            None => spec_overwrite_ok(*x.rhs, t),
        },
        crate::ast::Node::Unary(x) => spec_overwrite_ok(*x.expr, t),
        crate::ast::Node::Logical(x) => match spec_overwrite_ok(*x.lhs, t) {
            Some(e) => Some(e),
            None => spec_overwrite_ok(*x.rhs, t),
        },
        crate::ast::Node::Assign(x) => spec_overwrite_ok(*x.value, t),
        crate::ast::Node::Grouping(x) => spec_overwrite_ok(*x.expr, t),
        _ => None,
    }
}

/// Remove a list of names from a table, in order.
pub open spec fn spec_remove_names(s: Seq<TypeEntryV>, names: Seq<Seq<char>>) -> Seq<TypeEntryV>
    decreases names.len(),
{
    if names.len() == 0 {
        s
    } else {
        spec_remove_names(tv_remove(s, names.first()), names.drop_first())
    }
}

/// Where one step of the checker ends: the checker state afterwards and the
/// resolved type, or the error.
pub struct CheckStep {
    pub st: TypeCheckV,
    pub res: Result<TypeV, TypeErrorV>,
}

/// What the checker computes, as a function of its state and the node: the
/// resolved type of the node, the state afterwards (literal defaults `i32`,
/// `f64` and `bool`; implicit widening of numeric binaries by byte size;
/// narrowing of numeric literals under an explicit annotation), or the first
/// error. Spec-wise the node is read only; the tags the checker writes are
/// related to this result by `result_tag_rel` and `tags_ok`.
pub open spec fn spec_check(st: TypeCheckV, n: crate::ast::Node) -> CheckStep
    decreases n, 1nat,
{
    match n {
        crate::ast::Node::Number(_, _, _, _) => spec_resolve(st, "i32"@),
        crate::ast::Node::Float(_, _, _, _) => spec_resolve(st, "f64"@),
        crate::ast::Node::BoolLiteral(_, _, _, _) => spec_resolve(st, "bool"@),
        crate::ast::Node::StringLiteral(lit, _, _) => {
            let t = TypeV { name: "str"@, size: lit@.len() as usize, kind: TypeKind::Textual, signed: None };
            let st1 = TypeCheckV { types: st.types.push(("str"@, t)), ..st };
            spec_resolve(st1, "str"@)
        },
        crate::ast::Node::VarGet(name, _, _) => match tv_lookup(st.locals, name@) {
            Some(t) => CheckStep { st, res: Ok(t) },
            None => CheckStep { st, res: Err(TypeErrorV::UndefinedVariable(name@)) },
        },
        crate::ast::Node::ArrayLiteral(items, _, _, _) => {
            if items@.len() == 0 {
                CheckStep { st, res: Err(TypeErrorV::EmptyArrayLiteral) }
            } else {
                let step = spec_check(st, *items@[0]);
                match step.res {
                    Ok(t) => if t.size * items@.len() <= usize::MAX {
                        CheckStep { st: step.st, res: Ok(t) }
                    } else {
                        CheckStep { st: step.st, res: Err(TypeErrorV::SizeOverflow) }
                    },
                    Err(e) => step,
                }
            }
        },
        crate::ast::Node::Binary(x) => {
            let lstep = spec_check(st, *x.lhs);
            match lstep.res {
                Err(_) => lstep,
                Ok(lt) => {
                    let rstep = spec_check(lstep.st, *x.rhs);
                    match rstep.res {
                        Err(_) => rstep,
                        Ok(rt) => {
                            if !spec_type_eq(lt, rt) && !(lt.kind == TypeKind::Numeric && rt.kind
                                == TypeKind::Numeric) {
                                CheckStep { st: rstep.st, res: Err(TypeErrorV::BinaryOperandsDiffer) }
                            } else {
                                let wt = if !spec_type_eq(lt, rt) && lt.size < rt.size {
                                    rt
                                } else {
                                    lt
                                };
                                match x.op {
                                    crate::ast::BinaryOp::Add
                                    | crate::ast::BinaryOp::Sub
                                    | crate::ast::BinaryOp::Mul
                                    | crate::ast::BinaryOp::Div => if wt.kind == TypeKind::Numeric
                                        || wt.kind == TypeKind::Float {
                                        CheckStep { st: rstep.st, res: Ok(wt) }
                                    } else {
                                        CheckStep {
                                            st: rstep.st,
                                            res: Err(TypeErrorV::NonNumericArithmetic),
                                        }
                                    },
                                    crate::ast::BinaryOp::NoneOp => CheckStep {
                                        st: rstep.st,
                                        res: Err(TypeErrorV::NonNumericArithmetic),
                                    },
                                    _ => spec_resolve(rstep.st, "bool"@),
                                }
                            }
                        },
                    }
                },
            }
        },
        crate::ast::Node::Logical(x) => {
            let lstep = spec_check(st, *x.lhs);
            match lstep.res {
                Err(_) => lstep,
                Ok(lt) => {
                    let rstep = spec_check(lstep.st, *x.rhs);
                    match rstep.res {
                        Err(_) => rstep,
                        Ok(rt) => if spec_type_eq(lt, rt) {
                            CheckStep { st: rstep.st, res: Ok(lt) }
                        } else {
                            CheckStep { st: rstep.st, res: Err(TypeErrorV::InvalidLogical) }
                        },
                    }
                },
            }
        },
        crate::ast::Node::Unary(x) => if x.op == crate::ast::UnaryOp::Not {
            spec_resolve(st, "bool"@)
        } else {
            spec_check(st, *x.expr)
        },
        crate::ast::Node::Grouping(x) => spec_check(st, *x.expr),
        crate::ast::Node::GetPtr(_) => spec_resolve(st, "ptr"@),
        crate::ast::Node::Assign(x) => match tv_lookup(st.locals, x.name@) {
            None => CheckStep { st, res: Err(TypeErrorV::UndefinedVariable(x.name@)) },
            Some(local) => {
                let vstep = spec_check(st, *x.value);
                match vstep.res {
                    Err(_) => vstep,
                    Ok(vt) => if vt.kind == TypeKind::Numeric || vt.kind == TypeKind::Float {
                        if vt.kind == local.kind {
                            CheckStep { st: vstep.st, res: Ok(local) }
                        } else {
                            CheckStep { st: vstep.st, res: Err(TypeErrorV::AssignTypeMismatch) }
                        }
                    } else if spec_type_eq(vt, local) {
                        CheckStep { st: vstep.st, res: Ok(local) }
                    } else {
                        CheckStep { st: vstep.st, res: Err(TypeErrorV::AssignTypeMismatch) }
                    },
                }
            },
        },
        crate::ast::Node::VarDecl(x) => {
            let vstep = spec_check(st, *x.value);
            match vstep.res {
                Err(_) => vstep,
                Ok(vt) => {
                    let st1 = TypeCheckV {
                        created: match vstep.st.created {
                            Some(c) => Some(c.push(x.name@)),
                            None => None,
                        },
                        ..vstep.st
                    };
                    match x.dtype_str {
                        Some(ex) => match tv_lookup(st1.types, ex@) {
                            None => CheckStep { st: st1, res: Err(TypeErrorV::UndefinedType(ex@)) },
                            Some(ext) => {
                                let kind_err = if ext.kind == TypeKind::Numeric {
                                    vt.kind != TypeKind::Numeric
                                } else if ext.kind == TypeKind::Float {
                                    vt.kind != TypeKind::Float
                                } else {
                                    !spec_type_eq(ext, vt)
                                };
                                if kind_err {
                                    CheckStep { st: st1, res: Err(TypeErrorV::ExplicitTypeMismatch) }
                                } else {
                                    let narrow = if ext.kind == TypeKind::Numeric {
                                        spec_overwrite_ok(*x.value, ext)
                                    } else {
                                        None
                                    };
                                    match narrow {
                                        Some(e) => CheckStep { st: st1, res: Err(e) },
                                        None => {
                                            let arr = match *x.value {
                                                crate::ast::Node::ArrayLiteral(items, _, _, _) => items@.len(),
                                                _ => 1,
                                            };
                                            if ext.size * arr > usize::MAX {
                                                CheckStep { st: st1, res: Err(TypeErrorV::SizeOverflow) }
                                            } else {
                                                let t2 = TypeV {
                                                    size: (ext.size * arr) as usize,
                                                    ..ext
                                                };
                                                CheckStep {
                                                    st: TypeCheckV {
                                                        locals: st1.locals.push((x.name@, t2)),
                                                        ..st1
                                                    },
                                                    res: Ok(t2),
                                                }
                                            }
                                        },
                                    }
                                }
                            },
                        },
                        None => CheckStep {
                            st: TypeCheckV { locals: st1.locals.push((x.name@, vt)), ..st1 },
                            res: Ok(vt),
                        },
                    }
                },
            }
        },
        crate::ast::Node::ExprStmt(x) => spec_check(st, *x.expr),
        crate::ast::Node::Block(x) => {
            let old_created = match st.created {
                Some(c) => c,
                None => Seq::empty(),
            };
            let st1 = TypeCheckV { created: Some(Seq::empty()), ..st };
            let (st2, err) = spec_check_seq(st1, x.statements@);
            match err {
                Some(e) => CheckStep { st: st2, res: Err(e) },
                None => {
                    let names = match st2.created {
                        Some(c) => c,
                        None => Seq::empty(),
                    };
                    let st3 = TypeCheckV {
                        locals: spec_remove_names(st2.locals, names),
                        created: Some(old_created),
                        ..st2
                    };
                    spec_resolve(st3, "void"@)
                },
            }
        },
        crate::ast::Node::If(x) => {
            let cstep = spec_check(st, *x.condition);
            match cstep.res {
                Err(_) => cstep,
                Ok(ct) => match tv_lookup(cstep.st.types, "bool"@) {
                    None => CheckStep {
                        st: cstep.st,
                        res: Err(TypeErrorV::UndefinedType("bool"@)),
                    },
                    Some(bt) => if !spec_type_eq(ct, bt) {
                        CheckStep { st: cstep.st, res: Err(TypeErrorV::ConditionNotBool) }
                    } else {
                        let tstep = spec_check(cstep.st, *x.then_block);
                        match tstep.res {
                            Err(_) => tstep,
                            Ok(_) => match x.else_block {
                                Some(e) => {
                                    let estep = spec_check(tstep.st, *e);
                                    match estep.res {
                                        Err(_) => estep,
                                        Ok(_) => spec_resolve(estep.st, "void"@),
                                    }
                                },
                                None => spec_resolve(tstep.st, "void"@),
                            },
                        }
                    },
                },
            }
        },
        crate::ast::Node::Function(x) => {
            let ret_name = match x.ret_type_str {
                Some(s) => s@,
                None => "void"@,
            };
            match tv_lookup(st.types, ret_name) {
                None => CheckStep { st, res: Err(TypeErrorV::UndefinedType(ret_name)) },
                Some(t) => {
                    let st1 = TypeCheckV { locals: st.locals.push((x.name@, t)), ..st };
                    let (st2, aerr) = spec_check_args(st1, x.args@);
                    match aerr {
                        Some(e) => CheckStep { st: st2, res: Err(e) },
                        None => {
                            let bstep = spec_check(st2, *x.body);
                            match bstep.res {
                                Err(_) => bstep,
                                Ok(_) => {
                                    let loc1 = tv_remove(bstep.st.locals, x.name@);
                                    let loc2 = spec_remove_names(
                                        loc1,
                                        x.args@.map_values(|a: crate::ast::FunctionArg| a.name@),
                                    );
                                    CheckStep {
                                        st: TypeCheckV { locals: loc2, ..bstep.st },
                                        res: Ok(t),
                                    }
                                },
                            }
                        },
                    }
                },
            }
        },
        _ => CheckStep { st, res: Err(TypeErrorV::UnsupportedNode) },
    }
}

/// Resolve a type name against the state, erring when it is unknown.
pub open spec fn spec_resolve(st: TypeCheckV, name: Seq<char>) -> CheckStep {
    match tv_lookup(st.types, name) {
        Some(t) => CheckStep { st, res: Ok(t) },
        None => CheckStep { st, res: Err(TypeErrorV::UndefinedType(name)) },
    }
}

/// Check a sequence of statements in order, stopping at the first error.
pub open spec fn spec_check_seq(st: TypeCheckV, s: Seq<Box<crate::ast::Node>>) -> (
    TypeCheckV,
    Option<TypeErrorV>,
)
    decreases s, 0nat,
{
    if s.len() == 0 {
        (st, None)
    } else {
        let step = spec_check(st, *s.first());
        match step.res {
            Err(e) => (step.st, Some(e)),
            Ok(_) => spec_check_seq(step.st, s.drop_first()),
        }
    }
}

/// Install every parameter as a local of its resolved type, in order,
/// stopping at the first unknown type name.
pub open spec fn spec_check_args(st: TypeCheckV, args: Seq<crate::ast::FunctionArg>) -> (
    TypeCheckV,
    Option<TypeErrorV>,
)
    decreases args.len(),
{
    if args.len() == 0 {
        (st, None)
    } else {
        let a = args.first();
        match tv_lookup(st.types, a.dtype@) {
            None => (st, Some(TypeErrorV::UndefinedType(a.dtype@))),
            Some(t) => spec_check_args(
                TypeCheckV { locals: st.locals.push((a.name@, t)), ..st },
                args.drop_first(),
            ),
        }
    }
}

/// The literal defaults resolve to types of the right kinds: `i32` numeric,
/// `f64` float, `bool` boolean.
pub open spec fn lit_kinds_ok(st: TypeCheckV) -> bool {
    &&& (tv_lookup(st.types, "i32"@) matches Some(t) && t.kind == TypeKind::Numeric)
    &&& (tv_lookup(st.types, "f64"@) matches Some(t) && t.kind == TypeKind::Float)
    &&& (tv_lookup(st.types, "bool"@) matches Some(t) && t.kind == TypeKind::Bool)
}

/// Appending one entry changes exactly that name's lookup.
pub broadcast proof fn lemma_tv_lookup_push(s: Seq<TypeEntryV>, p: TypeEntryV, name: Seq<char>)
    ensures
        #[trigger] tv_lookup(s.push(p), name) == if p.0 == name {
            Some(p.1)
        } else {
            tv_lookup(s, name)
        },
{
    assert(s.push(p).last() == p);
    assert(s.push(p).drop_last() =~= s);
}

/// How the narrowing pass rewrites a value tree: the tag of every numeric or
/// float literal it reaches becomes the annotated tag, and everything else
/// stays exactly as it was.
pub open spec fn overwrite_rel(a: crate::ast::Node, b: crate::ast::Node, tg: TaggedType) -> bool
    decreases a,
{
    match a {
        crate::ast::Node::Number(s, _, l, c) => b matches crate::ast::Node::Number(s2, t2, l2, c2)
            && s2@ == s@ && t2 == tg && l2 == l && c2 == c,
        crate::ast::Node::Float(s, _, l, c) => b matches crate::ast::Node::Float(s2, t2, l2, c2)
            && s2@ == s@ && t2 == tg && l2 == l && c2 == c,
        crate::ast::Node::Binary(x) => b matches crate::ast::Node::Binary(y) && y.op == x.op
            && overwrite_rel(*x.lhs, *y.lhs, tg) && overwrite_rel(*x.rhs, *y.rhs, tg),
        crate::ast::Node::Unary(x) => b matches crate::ast::Node::Unary(y) && y.op == x.op
            && y.op_loc == x.op_loc && overwrite_rel(*x.expr, *y.expr, tg),
        crate::ast::Node::Logical(x) => b matches crate::ast::Node::Logical(y) && y.op == x.op
            && overwrite_rel(*x.lhs, *y.lhs, tg) && overwrite_rel(*x.rhs, *y.rhs, tg),
        crate::ast::Node::Assign(x) => b matches crate::ast::Node::Assign(y) && y.name@ == x.name@
            && y.name_loc == x.name_loc && overwrite_rel(*x.value, *y.value, tg),
        crate::ast::Node::Grouping(x) => b matches crate::ast::Node::Grouping(y) && overwrite_rel(
            *x.expr,
            *y.expr,
            tg,
        ),
        _ => b == a,
    }
}

/// The thirteen built-in types, in the order the checker seeds them.
pub open spec fn builtin_types() -> Seq<TypeEntryV> {
    seq![
        ("i8"@, TypeV { name: "i8"@, size: 1, kind: TypeKind::Numeric, signed: Some(true) }),
        ("u8"@, TypeV { name: "u8"@, size: 1, kind: TypeKind::Numeric, signed: Some(false) }),
        ("i16"@, TypeV { name: "i16"@, size: 2, kind: TypeKind::Numeric, signed: Some(true) }),
        ("u16"@, TypeV { name: "u16"@, size: 2, kind: TypeKind::Numeric, signed: Some(false) }),
        ("i32"@, TypeV { name: "i32"@, size: 4, kind: TypeKind::Numeric, signed: Some(true) }),
        ("u32"@, TypeV { name: "u32"@, size: 4, kind: TypeKind::Numeric, signed: Some(false) }),
        ("f32"@, TypeV { name: "f32"@, size: 4, kind: TypeKind::Float, signed: Some(true) }),
        ("i64"@, TypeV { name: "i64"@, size: 8, kind: TypeKind::Numeric, signed: Some(true) }),
        ("u64"@, TypeV { name: "u64"@, size: 8, kind: TypeKind::Numeric, signed: Some(false) }),
        ("f64"@, TypeV { name: "f64"@, size: 16, kind: TypeKind::Float, signed: Some(true) }),
        ("ptr"@, TypeV { name: "ptr"@, size: 8, kind: TypeKind::Numeric, signed: Some(false) }),
        ("bool"@, TypeV { name: "bool"@, size: 1, kind: TypeKind::Bool, signed: None }),
        ("void"@, TypeV { name: "void"@, size: 0, kind: TypeKind::NoneKind, signed: None }),
    ]
}

/// The single-pass elaborator: the process-wide table of named types, the
/// flat table of locals, and the names declared in the current block.
pub struct TypeCheck {
    pub types: Vec<(String, Type)>,
    pub locals: Vec<(String, Type)>,
    pub created_locals: Option<Vec<String>>,
}

impl View for TypeCheck {
    type V = TypeCheckV;

    open spec fn view(&self) -> TypeCheckV {
        TypeCheckV {
            types: entries_view(self.types@),
            locals: entries_view(self.locals@),
            created: match self.created_locals {
                Some(v) => Some(names_view(v@)),
                None => None,
            },
        }
    }
}

impl TypeCheck {
    /// A fresh checker, seeded with the built-in types and no locals.
    pub fn new() -> (r: TypeCheck)
        ensures
            r@.types == builtin_types(),
            r@.locals == Seq::<TypeEntryV>::empty(),
            r@.created is None,
            lit_kinds_ok(r@),
    {
        let mut container = TypeCheck { types: Vec::new(), locals: Vec::new(), created_locals: None };
        proof {
            assert(entries_view(container.types@) =~= Seq::<TypeEntryV>::empty());
            assert(entries_view(container.locals@) =~= Seq::<TypeEntryV>::empty());
        }
        container.create_type(Type::new(String::from_str("i8"), 1, TypeKind::Numeric, Some(true)));
        container.create_type(Type::new(String::from_str("u8"), 1, TypeKind::Numeric, Some(false)));
        container.create_type(Type::new(String::from_str("i16"), 2, TypeKind::Numeric, Some(true)));
        container.create_type(Type::new(String::from_str("u16"), 2, TypeKind::Numeric, Some(false)));
        container.create_type(Type::new(String::from_str("i32"), 4, TypeKind::Numeric, Some(true)));
        container.create_type(Type::new(String::from_str("u32"), 4, TypeKind::Numeric, Some(false)));
        container.create_type(Type::new(String::from_str("f32"), 4, TypeKind::Float, Some(true)));
        container.create_type(Type::new(String::from_str("i64"), 8, TypeKind::Numeric, Some(true)));
        container.create_type(Type::new(String::from_str("u64"), 8, TypeKind::Numeric, Some(false)));
        container.create_type(Type::new(String::from_str("f64"), 16, TypeKind::Float, Some(true)));
        container.create_type(Type::new(String::from_str("ptr"), 8, TypeKind::Numeric, Some(false)));
        container.create_type(Type::new(String::from_str("bool"), 1, TypeKind::Bool, None));
        container.create_type(Type::new(String::from_str("void"), 0, TypeKind::NoneKind, None));
        proof {
            vstd::assert_seqs_equal!(container@.types, builtin_types());
            reveal_strlit("i8");
            reveal_strlit("u8");
            reveal_strlit("i16");
            reveal_strlit("u16");
            reveal_strlit("i32");
            reveal_strlit("u32");
            reveal_strlit("f32");
            reveal_strlit("i64");
            reveal_strlit("u64");
            reveal_strlit("f64");
            reveal_strlit("ptr");
            reveal_strlit("bool");
            reveal_strlit("void");
            broadcast use lemma_tv_lookup_push;

            assert(container@.types == builtin_types());
            assert(tv_lookup(Seq::<TypeEntryV>::empty(), "i32"@) is None);
            assert(tv_lookup(Seq::<TypeEntryV>::empty(), "f64"@) is None);
            assert(tv_lookup(Seq::<TypeEntryV>::empty(), "bool"@) is None);
            assert("void"@[0] == 'v' && "bool"@[0] == 'b' && "i32"@[0] == 'i' && "f64"@[0]
                == 'f' && "ptr"@[0] == 'p' && "u64"@[0] == 'u' && "i64"@[0] == 'i' && "f32"@[0]
                == 'f' && "u32"@[0] == 'u' && "u16"@[0] == 'u' && "i16"@[0] == 'i' && "u8"@[0]
                == 'u' && "i8"@[0] == 'i');
            assert("i32"@[1] == '3' && "i64"@[1] == '6' && "i16"@[1] == '1' && "i8"@.len() == 2
                && "i32"@.len() == 3 && "f64"@[1] == '6' && "f32"@[1] == '3' && "u64"@[1] == '6'
                && "u32"@[1] == '3' && "u16"@[1] == '1' && "u8"@.len() == 2 && "void"@.len() == 4
                && "bool"@.len() == 4 && "ptr"@.len() == 3);
            assert(tv_lookup(builtin_types(), "bool"@) == Some(
                TypeV { name: "bool"@, size: 1, kind: TypeKind::Bool, signed: None },
            ));
            assert(tv_lookup(builtin_types(), "f64"@) == Some(
                TypeV { name: "f64"@, size: 16, kind: TypeKind::Float, signed: Some(true) },
            ));
            assert(tv_lookup(builtin_types(), "i32"@) == Some(
                TypeV { name: "i32"@, size: 4, kind: TypeKind::Numeric, signed: Some(true) },
            ));
            assert(lit_kinds_ok(container@));
        }
        container
    }

    /// Register a named type; a newer entry shadows an older one of the same
    /// name.
    pub fn create_type(&mut self, tipe: Type)
        ensures
            final(self)@ == (TypeCheckV {
                types: old(self)@.types.push((tipe@.name, tipe@)),
                ..old(self)@
            }),
    {
        let name = tipe.name.clone();
        self.types.push((name, tipe));
        proof {
            assert(entries_view(self.types@) =~= entries_view(old(self).types@).push(
                (self.types@.last().0@, self.types@.last().1@),
            ));
        }
    }

    /// The type registered under a name.
    pub fn resolve_type(&self, name: &str) -> (r: Result<Type, TypeError>)
        ensures
            match r {
                Ok(t) => tv_lookup(self@.types, name@) == Some(t@),
                Err(e) => tv_lookup(self@.types, name@) is None && e@ == TypeErrorV::UndefinedType(
                    name@,
                ),
            },
    {
        match map_get(&self.types, name) {
            Some(t) => Ok(t),
            None => Err(TypeError::UndefinedType(name.to_owned())),
        }
    }

    /// The type of a local variable.
    pub fn resolve_local(&self, name: &str) -> (r: Result<Type, TypeError>)
        ensures
            match r {
                Ok(t) => tv_lookup(self@.locals, name@) == Some(t@),
                Err(e) => tv_lookup(self@.locals, name@) is None && e@
                    == TypeErrorV::UndefinedVariable(name@),
            },
    {
        match map_get(&self.locals, name) {
            Some(t) => Ok(t),
            None => Err(TypeError::UndefinedVariable(name.to_owned())),
        }
    }

    /// Narrow the numeric and float literals of a value tree to an explicit
    /// annotation, verifying that each numeric literal's decimal text fits
    /// the annotated width.
    pub fn overwrite_type(&self, node: Box<crate::ast::Node>, new_type: &Type) -> (r: Result<
        Box<crate::ast::Node>,
        TypeError,
    >)
        ensures
            match r {
                Ok(n2) => spec_overwrite_ok(*node, new_type@) is None && overwrite_rel(
                    *node,
                    *n2,
                    tag_of(new_type@),
                ) && same_shape(*node, *n2) && (tags_ok(*node) && new_type@.kind
                    != TypeKind::NoneKind ==> tags_ok(*n2)),
                Err(e) => spec_overwrite_ok(*node, new_type@) == Some(e@),
            },
        decreases crate::ssir::node_size(*node),
    {
        match *node {
            crate::ast::Node::Number(lit, _, l, c) => {
                let checked = match int_bound_of(new_type) {
                    Some(bound) => literal_fits(lit.as_str(), bound),
                    None => true,
                };
                if checked {
                    Ok(Box::new(crate::ast::Node::Number(lit, TaggedType::from_type(new_type), l, c)))
                } else {
                    Err(TypeError::Overflow(lit))
                }
            },
            crate::ast::Node::Float(lit, _, l, c) => {
                let is_float_name = str_eq(new_type.name.as_str(), "f32") || str_eq(
                    new_type.name.as_str(),
                    "f64",
                );
                if !is_float_name || float_fits(lit.as_str()) {
                    Ok(Box::new(crate::ast::Node::Float(lit, TaggedType::from_type(new_type), l, c)))
                } else {
                    Err(TypeError::Overflow(lit))
                }
            },
            crate::ast::Node::Binary(x) => {
                let crate::ast::Binary { lhs, rhs, op } = x;
                let lhs2 = match self.overwrite_type(lhs, new_type) {
                    Ok(n) => n,
                    Err(e) => {
                        return Err(e);
                    },
                };
                let rhs2 = match self.overwrite_type(rhs, new_type) {
                    Ok(n) => n,
                    Err(e) => {
                        return Err(e);
                    },
                };
                Ok(Box::new(crate::ast::Node::Binary(crate::ast::Binary { lhs: lhs2, rhs: rhs2, op })))
            },
            crate::ast::Node::Unary(x) => {
                let crate::ast::Unary { op, op_loc, expr } = x;
                let expr2 = match self.overwrite_type(expr, new_type) {
                    Ok(n) => n,
                    Err(e) => {
                        return Err(e);
                    },
                };
                Ok(Box::new(crate::ast::Node::Unary(crate::ast::Unary { op, op_loc, expr: expr2 })))
            },
            crate::ast::Node::Logical(x) => {
                let crate::ast::Logical { lhs, rhs, op } = x;
                let lhs2 = match self.overwrite_type(lhs, new_type) {
                    Ok(n) => n,
                    Err(e) => {
                        return Err(e);
                    },
                };
                let rhs2 = match self.overwrite_type(rhs, new_type) {
                    Ok(n) => n,
                    Err(e) => {
                        return Err(e);
                    },
                };
                Ok(Box::new(crate::ast::Node::Logical(crate::ast::Logical { lhs: lhs2, rhs: rhs2, op })))
            },
            crate::ast::Node::Assign(x) => {
                let crate::ast::Assign { name, name_loc, value } = x;
                let value2 = match self.overwrite_type(value, new_type) {
                    Ok(n) => n,
                    Err(e) => {
                        return Err(e);
                    },
                };
                Ok(Box::new(crate::ast::Node::Assign(crate::ast::Assign { name, name_loc, value: value2 })))
            },
            crate::ast::Node::Grouping(x) => {
                let expr2 = match self.overwrite_type(x.expr, new_type) {
                    Ok(n) => n,
                    Err(e) => {
                        return Err(e);
                    },
                };
                Ok(Box::new(crate::ast::Node::Grouping(crate::ast::Grouping { expr: expr2 })))
            },
            other => {
                proof {
                    lemma_same_shape_refl(other);
                }
                Ok(Box::new(other))
            },
        }
    }
}

/// The decimal bound for the named width, as the checker range-checks it.
fn int_bound_of(t: &Type) -> (r: Option<u64>)
    ensures
        match r {
            Some(b) => int_bound(t@.name) == Some(b as nat),
            None => int_bound(t@.name) is None,
        },
{
    let n = t.name.as_str();
    if str_eq(n, "u8") {
        Some(255)
    } else if str_eq(n, "i8") {
        Some(127)
    } else if str_eq(n, "u16") {
        Some(65535)
    } else if str_eq(n, "i16") {
        Some(32767)
    } else if str_eq(n, "u32") {
        Some(4294967295)
    } else if str_eq(n, "i32") {
        Some(2147483647)
    } else if str_eq(n, "u64") {
        Some(18446744073709551615)
    } else if str_eq(n, "i64") {
        Some(9223372036854775807)
    } else {
        None
    }
}

impl TypeCheck {
    /// Check one node: resolve its type, thread the environment, and hand
    /// back the node with its type tags written. The resolved type, the
    /// environment afterwards and each error are exactly `spec_check`.
    pub fn check(&mut self, node: Box<crate::ast::Node>) -> (r: Result<
        (Box<crate::ast::Node>, Type),
        TypeError,
    >)
        ensures
            ({
                let step = spec_check(old(self)@, *node);
                &&& final(self)@ == step.st
                &&& (lit_kinds_ok(old(self)@) ==> lit_kinds_ok(final(self)@))
                &&& match (r, step.res) {
                    (Ok(p), Ok(tv)) => p.1@ == tv && same_shape(*node, *p.0) && result_tag_rel(
                        *node,
                        *p.0,
                        tv,
                    ) && (lit_kinds_ok(old(self)@) ==> tags_ok(*p.0)),
                    (Err(e), Err(ev)) => e@ == ev,
                    _ => false,
                }
            }),
        decreases crate::ssir::node_size(*node), 1nat,
    {
        match *node {
            crate::ast::Node::Number(lit, _, l, c) => {
                match self.resolve_type("i32") {
                    Ok(t) => {
                        let tag = TaggedType::from_type(&t);
                        Ok((Box::new(crate::ast::Node::Number(lit, tag, l, c)), t))
                    },
                    Err(e) => Err(e),
                }
            },
            crate::ast::Node::Float(lit, _, l, c) => {
                match self.resolve_type("f64") {
                    Ok(t) => {
                        let tag = TaggedType::from_type(&t);
                        Ok((Box::new(crate::ast::Node::Float(lit, tag, l, c)), t))
                    },
                    Err(e) => Err(e),
                }
            },
            crate::ast::Node::BoolLiteral(v, _, l, c) => {
                match self.resolve_type("bool") {
                    Ok(t) => {
                        let tag = TaggedType::from_type(&t);
                        Ok((Box::new(crate::ast::Node::BoolLiteral(v, tag, l, c)), t))
                    },
                    Err(e) => Err(e),
                }
            },
            crate::ast::Node::StringLiteral(lit, l, c) => self.check_string(lit, l, c),
            crate::ast::Node::VarGet(name, l, c) => {
                match self.resolve_local(name.as_str()) {
                    Ok(t) => Ok((Box::new(crate::ast::Node::VarGet(name, l, c)), t)),
                    Err(_) => Err(TypeError::UndefinedVariable(name)),
                }
            },
            crate::ast::Node::ArrayLiteral(items, t0, l, c) => self.check_array(items, t0, l, c),
            crate::ast::Node::Binary(x) => self.check_binary(x),
            crate::ast::Node::Logical(x) => self.check_logical(x),
            crate::ast::Node::Unary(x) => self.check_unary(x),
            crate::ast::Node::Grouping(x) => {
                match self.check(x.expr) {
                    Ok((e2, t)) => Ok(
                        (Box::new(crate::ast::Node::Grouping(crate::ast::Grouping { expr: e2 })), t),
                    ),
                    Err(e) => Err(e),
                }
            },
            crate::ast::Node::GetPtr(x) => {
                match self.resolve_type("ptr") {
                    Ok(t) => {
                        proof {
                            lemma_same_shape_refl(*x.expr);
                        }
                        Ok((Box::new(crate::ast::Node::GetPtr(x)), t))
                    },
                    Err(e) => Err(e),
                }
            },
            crate::ast::Node::Assign(x) => self.check_assign(x),
            crate::ast::Node::VarDecl(x) => self.check_vardecl(x),
            crate::ast::Node::ExprStmt(x) => {
                match self.check(x.expr) {
                    Ok((e2, t)) => Ok(
                        (
                            Box::new(crate::ast::Node::ExprStmt(crate::ast::ExprStmt { expr: e2 })),
                            t,
                        ),
                    ),
                    Err(e) => Err(e),
                }
            },
            crate::ast::Node::Block(x) => self.check_block(x),
            crate::ast::Node::If(x) => self.check_if(x),
            crate::ast::Node::Function(x) => self.check_function(x),
            other => {
                proof {
                    lemma_same_shape_refl(other);
                }
                Err(TypeError::UnsupportedNode)
            },
        }
    }

    /// Register the string type, sized to this literal, and resolve it.
    fn check_string(&mut self, lit: String, l: usize, c: usize) -> (r: Result<
        (Box<crate::ast::Node>, Type),
        TypeError,
    >)
        ensures
            ({
                let step = spec_check(old(self)@, crate::ast::Node::StringLiteral(lit, l, c));
                &&& final(self)@ == step.st
                &&& (lit_kinds_ok(old(self)@) ==> lit_kinds_ok(final(self)@))
                &&& match (r, step.res) {
                    (Ok(p), Ok(tv)) => p.1@ == tv && same_shape(
                        crate::ast::Node::StringLiteral(lit, l, c),
                        *p.0,
                    ) && result_tag_rel(crate::ast::Node::StringLiteral(lit, l, c), *p.0, tv) && (
                    lit_kinds_ok(old(self)@) ==> tags_ok(*p.0)),
                    (Err(e), Err(ev)) => e@ == ev,
                    _ => false,
                }
            }),
    {
        let size = lit.as_str().unicode_len();
        self.create_type(Type::new(String::from_str("str"), size, TypeKind::Textual, None));
        proof {
            reveal_strlit("str");
            reveal_strlit("i32");
            reveal_strlit("f64");
            reveal_strlit("bool");
            assert("str"@.len() == 3 && "i32"@.len() == 3 && "f64"@.len() == 3 && "bool"@.len()
                == 4);
            assert("str"@[0] == 's' && "i32"@[0] == 'i' && "f64"@[0] == 'f' && "bool"@[0] == 'b');
            broadcast use lemma_tv_lookup_push;

        }
        match self.resolve_type("str") {
            Ok(t) => Ok((Box::new(crate::ast::Node::StringLiteral(lit, l, c)), t)),
            Err(e) => Err(e),
        }
    }

    /// Check the first element of an array literal and size the array's tag
    /// to the literal's length.
    fn check_array(
        &mut self,
        items: Vec<Box<crate::ast::Node>>,
        t0: TaggedType,
        l: usize,
        c: usize,
    ) -> (r: Result<(Box<crate::ast::Node>, Type), TypeError>)
        ensures
            ({
                let step = spec_check(old(self)@, crate::ast::Node::ArrayLiteral(items, t0, l, c));
                &&& final(self)@ == step.st
                &&& (lit_kinds_ok(old(self)@) ==> lit_kinds_ok(final(self)@))
                &&& match (r, step.res) {
                    (Ok(p), Ok(tv)) => p.1@ == tv && same_shape(
                        crate::ast::Node::ArrayLiteral(items, t0, l, c),
                        *p.0,
                    ) && result_tag_rel(crate::ast::Node::ArrayLiteral(items, t0, l, c), *p.0, tv)
                        && (lit_kinds_ok(old(self)@) ==> tags_ok(*p.0)),
                    (Err(e), Err(ev)) => e@ == ev,
                    _ => false,
                }
            }),
        decreases crate::ssir::node_size(crate::ast::Node::ArrayLiteral(items, t0, l, c)), 0nat,
    {
        let ghost n0 = crate::ast::Node::ArrayLiteral(items, t0, l, c);
        let mut items = items;
        if items.len() == 0 {
            return Err(TypeError::EmptyArrayLiteral);
        }
        let ghost pre = items@;
        let first = items.remove(0);
        proof {
            assert(first == pre[0]);
            assert(crate::ssir::node_size(*first) <= crate::ssir::nodes_size(pre)) by {
                crate::ssir::lemma_nodes_size_elem(pre, 0);
            }
        }
        let (first2, t) = match self.check(first) {
            Ok(p) => p,
            Err(e) => {
                return Err(e);
            },
        };
        match t.size.checked_mul(items.len() + 1) {
            Some(total) => {
                let ghost rest = items@;
                items.insert(0, first2);
                proof {
                    assert(items@[0] == first2);
                    assert(items@.drop_first() =~= rest);
                    assert(rest =~= pre.drop_first());
                    lemma_same_shape_seq_refl(pre.drop_first());
                    assert(items@.len() == pre.len());
                    assert(pre.first() == pre[0]);
                    assert(items@.first() == first2);
                    assert(same_shape_seq(pre, items@));
                }
                let tag = TaggedType::new(total, t.kind, t.signed);
                Ok((Box::new(crate::ast::Node::ArrayLiteral(items, tag, l, c)), t))
            },
            None => Err(TypeError::SizeOverflow),
        }
    }

    /// Check a binary expression: both operands, implicit widening of
    /// mismatched numeric operands, and the result type by operator class.
    fn check_binary(&mut self, x: crate::ast::Binary) -> (r: Result<
        (Box<crate::ast::Node>, Type),
        TypeError,
    >)
        ensures
            ({
                let step = spec_check(old(self)@, crate::ast::Node::Binary(x));
                &&& final(self)@ == step.st
                &&& (lit_kinds_ok(old(self)@) ==> lit_kinds_ok(final(self)@))
                &&& match (r, step.res) {
                    (Ok(p), Ok(tv)) => p.1@ == tv && same_shape(crate::ast::Node::Binary(x), *p.0)
                        && result_tag_rel(crate::ast::Node::Binary(x), *p.0, tv) && (lit_kinds_ok(
                        old(self)@,
                    ) ==> tags_ok(*p.0)),
                    (Err(e), Err(ev)) => e@ == ev,
                    _ => false,
                }
            }),
        decreases crate::ssir::node_size(crate::ast::Node::Binary(x)), 0nat,
    {
        let crate::ast::Binary { lhs, rhs, op } = x;
        let (lhs2, lt) = match self.check(lhs) {
            Ok(p) => p,
            Err(e) => {
                return Err(e);
            },
        };
        let (rhs2, rt) = match self.check(rhs) {
            Ok(p) => p,
            Err(e) => {
                return Err(e);
            },
        };
        let eq = lt.same_type(&rt);
        if !eq && !(lt.kind == TypeKind::Numeric && rt.kind == TypeKind::Numeric) {
            return Err(TypeError::BinaryOperandsDiffer);
        }
        let wt = if !eq && lt.size < rt.size {
            rt
        } else {
            lt
        };
        let node2 = Box::new(crate::ast::Node::Binary(crate::ast::Binary { lhs: lhs2, rhs: rhs2, op }));
        match op {
            crate::ast::BinaryOp::Add
            | crate::ast::BinaryOp::Sub
            | crate::ast::BinaryOp::Mul
            | crate::ast::BinaryOp::Div => {
                if wt.kind == TypeKind::Numeric || wt.kind == TypeKind::Float {
                    Ok((node2, wt))
                } else {
                    Err(TypeError::NonNumericArithmetic)
                }
            },
            crate::ast::BinaryOp::NoneOp => Err(TypeError::NonNumericArithmetic),
            _ => {
                match self.resolve_type("bool") {
                    Ok(t) => Ok((node2, t)),
                    Err(e) => Err(e),
                }
            },
        }
    }

    /// Check a logical expression: both operands must resolve to one type.
    fn check_logical(&mut self, x: crate::ast::Logical) -> (r: Result<
        (Box<crate::ast::Node>, Type),
        TypeError,
    >)
        ensures
            ({
                let step = spec_check(old(self)@, crate::ast::Node::Logical(x));
                &&& final(self)@ == step.st
                &&& (lit_kinds_ok(old(self)@) ==> lit_kinds_ok(final(self)@))
                &&& match (r, step.res) {
                    (Ok(p), Ok(tv)) => p.1@ == tv && same_shape(crate::ast::Node::Logical(x), *p.0)
                        && result_tag_rel(crate::ast::Node::Logical(x), *p.0, tv) && (lit_kinds_ok(
                        old(self)@,
                    ) ==> tags_ok(*p.0)),
                    (Err(e), Err(ev)) => e@ == ev,
                    _ => false,
                }
            }),
        decreases crate::ssir::node_size(crate::ast::Node::Logical(x)), 0nat,
    {
        let crate::ast::Logical { lhs, rhs, op } = x;
        let (lhs2, lt) = match self.check(lhs) {
            Ok(p) => p,
            Err(e) => {
                return Err(e);
            },
        };
        let (rhs2, rt) = match self.check(rhs) {
            Ok(p) => p,
            Err(e) => {
                return Err(e);
            },
        };
        if lt.same_type(&rt) {
            Ok(
                (
                    Box::new(crate::ast::Node::Logical(crate::ast::Logical { lhs: lhs2, rhs: rhs2, op })),
                    lt,
                ),
            )
        } else {
            Err(TypeError::InvalidLogical)
        }
    }

    /// Check a unary expression: `!` yields `bool` without visiting its
    /// operand, `-` yields the operand's type.
    fn check_unary(&mut self, x: crate::ast::Unary) -> (r: Result<
        (Box<crate::ast::Node>, Type),
        TypeError,
    >)
        ensures
            ({
                let step = spec_check(old(self)@, crate::ast::Node::Unary(x));
                &&& final(self)@ == step.st
                &&& (lit_kinds_ok(old(self)@) ==> lit_kinds_ok(final(self)@))
                &&& match (r, step.res) {
                    (Ok(p), Ok(tv)) => p.1@ == tv && same_shape(crate::ast::Node::Unary(x), *p.0)
                        && result_tag_rel(crate::ast::Node::Unary(x), *p.0, tv) && (lit_kinds_ok(
                        old(self)@,
                    ) ==> tags_ok(*p.0)),
                    (Err(e), Err(ev)) => e@ == ev,
                    _ => false,
                }
            }),
        decreases crate::ssir::node_size(crate::ast::Node::Unary(x)), 0nat,
    {
        let crate::ast::Unary { op, op_loc, expr } = x;
        let not = match op {
            crate::ast::UnaryOp::Not => true,
            _ => false,
        };
        if not {
            match self.resolve_type("bool") {
                Ok(t) => {
                    proof {
                        lemma_same_shape_refl(*expr);
                    }
                    Ok(
                        (
                            Box::new(crate::ast::Node::Unary(crate::ast::Unary { op, op_loc, expr })),
                            t,
                        ),
                    )
                },
                Err(e) => Err(e),
            }
        } else {
            match self.check(expr) {
                Ok((e2, t)) => Ok(
                    (
                        Box::new(crate::ast::Node::Unary(crate::ast::Unary { op, op_loc, expr: e2 })),
                        t,
                    ),
                ),
                Err(e) => Err(e),
            }
        }
    }

    /// Check an assignment: the target must be a known local and the value's
    /// kind (or full type, outside numerics and floats) must match it.
    fn check_assign(&mut self, x: crate::ast::Assign) -> (r: Result<
        (Box<crate::ast::Node>, Type),
        TypeError,
    >)
        ensures
            ({
                let step = spec_check(old(self)@, crate::ast::Node::Assign(x));
                &&& final(self)@ == step.st
                &&& (lit_kinds_ok(old(self)@) ==> lit_kinds_ok(final(self)@))
                &&& match (r, step.res) {
                    (Ok(p), Ok(tv)) => p.1@ == tv && same_shape(crate::ast::Node::Assign(x), *p.0)
                        && result_tag_rel(crate::ast::Node::Assign(x), *p.0, tv) && (lit_kinds_ok(
                        old(self)@,
                    ) ==> tags_ok(*p.0)),
                    (Err(e), Err(ev)) => e@ == ev,
                    _ => false,
                }
            }),
        decreases crate::ssir::node_size(crate::ast::Node::Assign(x)), 0nat,
    {
        let crate::ast::Assign { name, name_loc, value } = x;
        let local = match self.resolve_local(name.as_str()) {
            Ok(t) => t,
            Err(_) => {
                return Err(TypeError::UndefinedVariable(name));
            },
        };
        let (value2, vt) = match self.check(value) {
            Ok(p) => p,
            Err(e) => {
                return Err(e);
            },
        };
        let kinds = vt.kind == TypeKind::Numeric || vt.kind == TypeKind::Float;
        let ok = if kinds {
            vt.kind == local.kind
        } else {
            vt.same_type(&local)
        };
        if ok {
            Ok(
                (
                    Box::new(
                        crate::ast::Node::Assign(crate::ast::Assign { name, name_loc, value: value2 }),
                    ),
                    local,
                ),
            )
        } else {
            Err(TypeError::AssignTypeMismatch)
        }
    }

    /// Check a declaration: the value first, then the explicit annotation
    /// when present (matching kinds, narrowing numeric literals, sizing
    /// arrays), and install the local.
    fn check_vardecl(&mut self, x: crate::ast::VarDecl) -> (r: Result<
        (Box<crate::ast::Node>, Type),
        TypeError,
    >)
        ensures
            ({
                let step = spec_check(old(self)@, crate::ast::Node::VarDecl(x));
                &&& final(self)@ == step.st
                &&& (lit_kinds_ok(old(self)@) ==> lit_kinds_ok(final(self)@))
                &&& match (r, step.res) {
                    (Ok(p), Ok(tv)) => p.1@ == tv && same_shape(crate::ast::Node::VarDecl(x), *p.0)
                        && result_tag_rel(crate::ast::Node::VarDecl(x), *p.0, tv) && (lit_kinds_ok(
                        old(self)@,
                    ) ==> tags_ok(*p.0)),
                    (Err(e), Err(ev)) => e@ == ev,
                    _ => false,
                }
            }),
        decreases crate::ssir::node_size(crate::ast::Node::VarDecl(x)), 0nat,
    {
        let ghost n0 = crate::ast::Node::VarDecl(x);
        let crate::ast::VarDecl { name, name_loc, dtype_str, dtype, value } = x;
        let ghost value0 = *value;
        let arr_len_pre: usize = match &*value {
            crate::ast::Node::ArrayLiteral(items, _, _, _) => items.len(),
            _ => 1,
        };
        let (value2, vt) = match self.check(value) {
            Ok(p) => p,
            Err(e) => {
                return Err(e);
            },
        };
        let ghost stv = self@;
        if let Some(created) = &mut self.created_locals {
            created.push(name.clone());
        }
        proof {
            if stv.created is Some {
                assert(names_view(self.created_locals.unwrap()@) =~= names_view(
                    self.created_locals.unwrap()@.drop_last(),
                ).push(name@));
                assert(self@.created == Some(stv.created.unwrap().push(name@)));
            }
        }
        match dtype_str {
            Some(ex) => {
                let ext = match self.resolve_type(ex.as_str()) {
                    Ok(t) => t,
                    Err(_) => {
                        return Err(TypeError::UndefinedType(ex));
                    },
                };
                let kind_err = if ext.kind == TypeKind::Numeric {
                    vt.kind != TypeKind::Numeric
                } else if ext.kind == TypeKind::Float {
                    vt.kind != TypeKind::Float
                } else {
                    !ext.same_type(&vt)
                };
                if kind_err {
                    return Err(TypeError::ExplicitTypeMismatch);
                }
                let ghost v2v = *value2;
                proof {
                    lemma_overwrite_ok_shape(value0, v2v, ext@);
                }
                let value3 = if ext.kind == TypeKind::Numeric {
                    match self.overwrite_type(value2, &ext) {
                        Ok(n) => {
                            proof {
                                lemma_same_shape_trans(value0, v2v, *n);
                            }
                            n
                        },
                        Err(e) => {
                            return Err(e);
                        },
                    }
                } else {
                    value2
                };
                let arr: usize = arr_len_pre;
                match ext.size.checked_mul(arr) {
                    Some(total) => {
                        let t2 = Type::new(ext.name.clone(), total, ext.kind, ext.signed);
                        let tag = TaggedType::from_type(&t2);
                        let ghost lv = self.locals@;
                        self.locals.push((name.clone(), t2.duplicate()));
                        proof {
                            assert(entries_view(self.locals@) =~= entries_view(lv).push(
                                (name@, t2@),
                            ));
                        }
                        Ok(
                            (
                                Box::new(
                                    crate::ast::Node::VarDecl(
                                        crate::ast::VarDecl {
                                            name,
                                            name_loc,
                                            dtype_str: Some(ex),
                                            dtype: tag,
                                            value: value3,
                                        },
                                    ),
                                ),
                                t2,
                            ),
                        )
                    },
                    None => Err(TypeError::SizeOverflow),
                }
            },
            None => {
                let tag = TaggedType::from_type(&vt);
                let ghost lv = self.locals@;
                self.locals.push((name.clone(), vt.duplicate()));
                proof {
                    assert(entries_view(self.locals@) =~= entries_view(lv).push((name@, vt@)));
                }
                Ok(
                    (
                        Box::new(
                            crate::ast::Node::VarDecl(
                                crate::ast::VarDecl {
                                    name,
                                    name_loc,
                                    dtype_str: None,
                                    dtype: tag,
                                    value: value2,
                                },
                            ),
                        ),
                        vt,
                    ),
                )
            },
        }
    }
}

impl TypeCheck {
    /// Check a block: a fresh created-locals record, the statements in
    /// order, then the block's locals leave scope.
    #[verifier::loop_isolation(false)]
    #[verifier::rlimit(100)]
    fn check_block(&mut self, x: crate::ast::Block) -> (r: Result<
        (Box<crate::ast::Node>, Type),
        TypeError,
    >)
        ensures
            ({
                let step = spec_check(old(self)@, crate::ast::Node::Block(x));
                &&& final(self)@ == step.st
                &&& (lit_kinds_ok(old(self)@) ==> lit_kinds_ok(final(self)@))
                &&& match (r, step.res) {
                    (Ok(p), Ok(tv)) => p.1@ == tv && same_shape(crate::ast::Node::Block(x), *p.0)
                        && result_tag_rel(crate::ast::Node::Block(x), *p.0, tv) && (lit_kinds_ok(
                        old(self)@,
                    ) ==> tags_ok(*p.0)),
                    (Err(e), Err(ev)) => e@ == ev,
                    _ => false,
                }
            }),
        decreases crate::ssir::node_size(crate::ast::Node::Block(x)), 0nat,
    {
        let ghost n0 = crate::ast::Node::Block(x);
        let crate::ast::Block { statements } = x;
        let old_created = match self.created_locals.take() {
            Some(v) => v,
            None => Vec::new(),
        };
        self.created_locals = Some(Vec::new());
        proof {
            assert(names_view(Seq::<String>::empty()) =~= Seq::<Seq<char>>::empty());
        }
        let ghost st1 = self@;
        let ghost orig = statements@;
        let ghost target = spec_check_seq(st1, orig);
        let ghost entry = *old(self);
        let mut items = statements;
        let mut out: Vec<Box<crate::ast::Node>> = Vec::new();
        proof {
            assert(crate::ssir::node_size(n0) == 1 + crate::ssir::nodes_size(orig));
            assert(same_shape_seq(orig.subrange(0, 0), out@));
        }
        while items.len() > 0
            invariant
                spec_check_seq(self@, items@) == target,
                (lit_kinds_ok(entry@) ==> lit_kinds_ok(self@)),
                out@.len() + items@.len() == orig.len(),
                items@ == orig.subrange(out@.len() as int, orig.len() as int),
                same_shape_seq(orig.subrange(0, out@.len() as int), out@),
                (lit_kinds_ok(entry@) ==> tags_ok_seq(out@)),
                crate::ssir::nodes_size(items@) <= crate::ssir::nodes_size(orig),
                crate::ssir::nodes_size(orig) < crate::ssir::node_size(n0),
            decreases items@.len(),
        {
            let ghost pre = items@;
            let ghost k = out@.len() as int;
            let stmt = items.remove(0);
            proof {
                assert(items@ =~= pre.drop_first());
                assert(stmt == pre[0]);
                assert(pre.first() == pre[0]);
                assert(crate::ssir::node_size(*pre.first()) + crate::ssir::nodes_size(
                    pre.drop_first(),
                ) == crate::ssir::nodes_size(pre));
                assert(crate::ssir::node_size(*stmt) <= crate::ssir::nodes_size(pre));
                assert(items@ =~= orig.subrange(k + 1, orig.len() as int));
            }
            let (s2, _) = match self.check(stmt) {
                Ok(p) => p,
                Err(e) => {
                    return Err(e);
                },
            };
            let ghost outpre = out@;
            let ghost s2v = s2;
            out.push(s2);
            proof {
                assert(out@ =~= outpre.push(s2v));
                assert(pre[0] == orig[k]);
                assert(orig.subrange(0, k + 1) =~= orig.subrange(0, k).push(orig[k]));
                lemma_same_shape_seq_push(orig.subrange(0, k), outpre, orig[k], s2v);
                if lit_kinds_ok(entry@) {
                    lemma_tags_ok_seq_push(outpre, s2v);
                }
            }
        }
        proof {
            assert(items@ =~= Seq::<Box<crate::ast::Node>>::empty());
            assert(orig.subrange(0, orig.len() as int) =~= orig);
        }
        let names = match self.created_locals.take() {
            Some(v) => v,
            None => Vec::new(),
        };
        let ghost nv = names_view(names@);
        let ghost stpost = self@;
        let ghost locals0 = self@.locals;
        let mut i: usize = 0;
        proof {
            assert(nv.subrange(0, nv.len() as int) =~= nv);
        }
        while i < names.len()
            invariant
                i <= names@.len(),
                nv == names_view(names@),
                nv.len() == names@.len(),
                spec_remove_names(self@.locals, nv.subrange(i as int, nv.len() as int))
                    == spec_remove_names(locals0, nv),
                self.created_locals is None,
                self@.types == stpost.types,
                (lit_kinds_ok(entry@) ==> lit_kinds_ok(self@)),
            decreases names@.len() - i,
        {
            proof {
                assert(nv.subrange(i as int, nv.len() as int).first() == nv[i as int]);
                assert(nv[i as int] == names@[i as int]@);
                assert(nv.subrange(i as int, nv.len() as int).drop_first() =~= nv.subrange(
                    i as int + 1,
                    nv.len() as int,
                ));
            }
            let newl = map_remove(&self.locals, names[i].as_str());
            self.locals = newl;
            i = i + 1;
        }
        proof {
            assert(nv.subrange(nv.len() as int, nv.len() as int)
                =~= Seq::<Seq<char>>::empty());
        }
        self.created_locals = Some(old_created);
        match self.resolve_type("void") {
            Ok(t) => Ok(
                (
                    Box::new(crate::ast::Node::Block(crate::ast::Block { statements: out })),
                    t,
                ),
            ),
            Err(e) => Err(e),
        }
    }

    /// Check an `if`: the condition must resolve to `bool`, then both arms.
    fn check_if(&mut self, x: crate::ast::If) -> (r: Result<
        (Box<crate::ast::Node>, Type),
        TypeError,
    >)
        ensures
            ({
                let step = spec_check(old(self)@, crate::ast::Node::If(x));
                &&& final(self)@ == step.st
                &&& (lit_kinds_ok(old(self)@) ==> lit_kinds_ok(final(self)@))
                &&& match (r, step.res) {
                    (Ok(p), Ok(tv)) => p.1@ == tv && same_shape(crate::ast::Node::If(x), *p.0)
                        && result_tag_rel(crate::ast::Node::If(x), *p.0, tv) && (lit_kinds_ok(
                        old(self)@,
                    ) ==> tags_ok(*p.0)),
                    (Err(e), Err(ev)) => e@ == ev,
                    _ => false,
                }
            }),
        decreases crate::ssir::node_size(crate::ast::Node::If(x)), 0nat,
    {
        let crate::ast::If { condition, then_block, else_block } = x;
        let (cond2, ct) = match self.check(condition) {
            Ok(p) => p,
            Err(e) => {
                return Err(e);
            },
        };
        let bt = match self.resolve_type("bool") {
            Ok(t) => t,
            Err(e) => {
                return Err(e);
            },
        };
        if !ct.same_type(&bt) {
            return Err(TypeError::ConditionNotBool);
        }
        let (then2, _) = match self.check(then_block) {
            Ok(p) => p,
            Err(e) => {
                return Err(e);
            },
        };
        match else_block {
            Some(e) => {
                let (e2, _) = match self.check(e) {
                    Ok(p) => p,
                    Err(err) => {
                        return Err(err);
                    },
                };
                match self.resolve_type("void") {
                    Ok(t) => Ok(
                        (
                            Box::new(
                                crate::ast::Node::If(
                                    crate::ast::If {
                                        condition: cond2,
                                        then_block: then2,
                                        else_block: Some(e2),
                                    },
                                ),
                            ),
                            t,
                        ),
                    ),
                    Err(err) => Err(err),
                }
            },
            None => {
                match self.resolve_type("void") {
                    Ok(t) => Ok(
                        (
                            Box::new(
                                crate::ast::Node::If(
                                    crate::ast::If {
                                        condition: cond2,
                                        then_block: then2,
                                        else_block: None,
                                    },
                                ),
                            ),
                            t,
                        ),
                    ),
                    Err(err) => Err(err),
                }
            },
        }
    }

    /// Check a function declaration: resolve the return type, install it and
    /// the parameters as locals, check the body, then take them out again.
    #[verifier::loop_isolation(false)]
    #[verifier::rlimit(100)]
    fn check_function(&mut self, x: crate::ast::Function) -> (r: Result<
        (Box<crate::ast::Node>, Type),
        TypeError,
    >)
        ensures
            ({
                let step = spec_check(old(self)@, crate::ast::Node::Function(x));
                &&& final(self)@ == step.st
                &&& (lit_kinds_ok(old(self)@) ==> lit_kinds_ok(final(self)@))
                &&& match (r, step.res) {
                    (Ok(p), Ok(tv)) => p.1@ == tv && same_shape(
                        crate::ast::Node::Function(x),
                        *p.0,
                    ) && result_tag_rel(crate::ast::Node::Function(x), *p.0, tv) && (lit_kinds_ok(
                        old(self)@,
                    ) ==> tags_ok(*p.0)),
                    (Err(e), Err(ev)) => e@ == ev,
                    _ => false,
                }
            }),
        decreases crate::ssir::node_size(crate::ast::Node::Function(x)), 0nat,
    {
        let ghost n0 = crate::ast::Node::Function(x);
        let crate::ast::Function { name, loc, args, body, ret_type, ret_type_str } = x;
        let t = match &ret_type_str {
            Some(s) => match self.resolve_type(s.as_str()) {
                Ok(t) => t,
                Err(e) => {
                    return Err(e);
                },
            },
            None => match self.resolve_type("void") {
                Ok(t) => t,
                Err(e) => {
                    return Err(e);
                },
            },
        };
        self.locals.push((name.clone(), t.duplicate()));
        proof {
            assert(entries_view(self.locals@) =~= entries_view(old(self).locals@).push(
                (name@, t@),
            ));
        }
        let ghost st1 = self@;
        let ghost argsv = args@;
        let ghost target = spec_check_args(st1, argsv);
        let ghost entry = *old(self);
        let mut items = args;
        let mut out_args: Vec<crate::ast::FunctionArg> = Vec::new();
        while items.len() > 0
            invariant
                spec_check_args(self@, items@) == target,
                (lit_kinds_ok(entry@) ==> lit_kinds_ok(self@)),
                out_args@.len() + items@.len() == argsv.len(),
                items@ == argsv.subrange(out_args@.len() as int, argsv.len() as int),
                same_args(argsv.subrange(0, out_args@.len() as int), out_args@),
                self@.types == st1.types,
            decreases items@.len(),
        {
            let ghost pre = items@;
            let ghost k = out_args@.len() as int;
            let a = items.remove(0);
            proof {
                assert(items@ =~= pre.drop_first());
                assert(a == pre[0]);
                assert(pre.first() == pre[0]);
                assert(items@ =~= argsv.subrange(k + 1, argsv.len() as int));
            }
            let ghost stpre = self@;
            let crate::ast::FunctionArg { name: a_name, name_loc: a_loc, dtype: a_dtype, size: _ } = a;
            let at = match map_get(&self.types, a_dtype.as_str()) {
                Some(t) => t,
                None => {
                    return Err(TypeError::UndefinedType(a_dtype));
                },
            };
            out_args.push(
                crate::ast::FunctionArg {
                    name: a_name.clone(),
                    name_loc: a_loc,
                    dtype: a_dtype,
                    size: at.size,
                },
            );
            let ghost lv = self.locals@;
            self.locals.push((a_name, at));
            proof {
                assert(entries_view(self.locals@) =~= entries_view(lv).push(
                    (self.locals@.last().0@, self.locals@.last().1@),
                ));
                assert(self@ == (TypeCheckV { locals: stpre.locals.push((pre[0].name@, at@)), ..stpre }));
                assert(spec_check_args(stpre, pre) == spec_check_args(self@, items@));
                assert(argsv.subrange(0, k + 1) =~= argsv.subrange(0, k).push(argsv[k]));
                assert(same_args(argsv.subrange(0, k + 1), out_args@)) by {
                    assert(forall|j: int|
                        0 <= j < k ==> out_args@[j] == #[trigger] out_args@.drop_last()[j]);
                }
            }
        }
        proof {
            assert(items@ =~= Seq::<crate::ast::FunctionArg>::empty());
            assert(argsv.subrange(0, argsv.len() as int) =~= argsv);
        }
        let (body2, _) = match self.check(body) {
            Ok(p) => p,
            Err(e) => {
                return Err(e);
            },
        };
        let newl = map_remove(&self.locals, name.as_str());
        self.locals = newl;
        let ghost names = argsv.map_values(|a: crate::ast::FunctionArg| a.name@);
        let ghost stpost = self@;
        let ghost locals0 = self@.locals;
        let mut i: usize = 0;
        proof {
            assert(names.subrange(0, names.len() as int) =~= names);
        }
        while i < out_args.len()
            invariant
                i <= out_args@.len(),
                out_args@.len() == names.len(),
                same_args(argsv, out_args@),
                names == argsv.map_values(|a: crate::ast::FunctionArg| a.name@),
                spec_remove_names(self@.locals, names.subrange(i as int, names.len() as int))
                    == spec_remove_names(locals0, names),
                self@.types == stpost.types,
                self@.created == stpost.created,
                (lit_kinds_ok(entry@) ==> lit_kinds_ok(self@)),
            decreases out_args@.len() - i,
        {
            proof {
                assert(names.subrange(i as int, names.len() as int).first() == names[i as int]);
                assert(names[i as int] == argsv[i as int].name@);
                assert(out_args@[i as int].name@ == argsv[i as int].name@);
                assert(names.subrange(i as int, names.len() as int).drop_first() =~= names.subrange(
                    i as int + 1,
                    names.len() as int,
                ));
            }
            let newl2 = map_remove(&self.locals, out_args[i].name.as_str());
            self.locals = newl2;
            i = i + 1;
        }
        proof {
            assert(names.subrange(names.len() as int, names.len() as int)
                =~= Seq::<Seq<char>>::empty());
        }
        let tag = TaggedType::from_type(&t);
        Ok(
            (
                Box::new(
                    crate::ast::Node::Function(
                        crate::ast::Function {
                            name,
                            loc,
                            args: out_args,
                            body: body2,
                            ret_type: tag,
                            ret_type_str,
                        },
                    ),
                ),
                t,
            ),
        )
    }
}

/// Appending a shape-equal statement keeps two sequences shape-equal.
pub proof fn lemma_same_shape_seq_push(
    a: Seq<Box<crate::ast::Node>>,
    b: Seq<Box<crate::ast::Node>>,
    x: Box<crate::ast::Node>,
    y: Box<crate::ast::Node>,
)
    requires
        same_shape_seq(a, b),
        same_shape(*x, *y),
    ensures
        same_shape_seq(a.push(x), b.push(y)),
    decreases a,
{
    if a.len() == 0 {
        assert(a.push(x).drop_first() =~= Seq::<Box<crate::ast::Node>>::empty());
        assert(b.push(y).drop_first() =~= Seq::<Box<crate::ast::Node>>::empty());
        assert(a.push(x).first() == x);
        assert(b.push(y).first() == y);
        assert(same_shape_seq(a.push(x).drop_first(), b.push(y).drop_first()));
    } else {
        assert(a.push(x).first() == a.first());
        assert(b.push(y).first() == b.first());
        assert(a.push(x).drop_first() =~= a.drop_first().push(x));
        assert(b.push(y).drop_first() =~= b.drop_first().push(y));
        lemma_same_shape_seq_push(a.drop_first(), b.drop_first(), x, y);
    }
}

/// Appending a tagged statement keeps a sequence tagged.
pub proof fn lemma_tags_ok_seq_push(s: Seq<Box<crate::ast::Node>>, x: Box<crate::ast::Node>)
    requires
        tags_ok_seq(s),
        tags_ok(*x),
    ensures
        tags_ok_seq(s.push(x)),
    decreases s,
{
    if s.len() == 0 {
        assert(s.push(x).drop_first() =~= Seq::<Box<crate::ast::Node>>::empty());
        assert(s.push(x).first() == x);
        assert(tags_ok_seq(s.push(x).drop_first()));
    } else {
        assert(s.push(x).first() == s.first());
        assert(s.push(x).drop_first() =~= s.drop_first().push(x));
        lemma_tags_ok_seq_push(s.drop_first(), x);
    }
}

/// Parse a plain decimal that fits a 32-bit unsigned value; anything else
/// gives nothing back.
pub fn parse_u32(text: &str) -> (r: Option<u32>)
    ensures
        match r {
            Some(v) => fits_in(text@, u32::MAX as nat) && v as nat == digits_val(text@),
            None => !fits_in(text@, u32::MAX as nat),
        },
{
    let n = text.unicode_len();
    if n == 0 {
        return None;
    }
    let mut i: usize = 0;
    let mut acc: u64 = 0;
    let max: u64 = 4294967295;
    proof {
        assert(text@.subrange(0, 0) =~= Seq::<char>::empty());
    }
    while i < n
        invariant
            n == text@.len(),
            i <= n,
            all_digits(text@.subrange(0, i as int)),
            acc == digits_val(text@.subrange(0, i as int)),
            acc <= max,
            max == 4294967295,
        decreases n - i,
    {
        let c = text.get_char(i);
        if c < '0' || c > '9' {
            return None;
        }
        let d: u64 = (c as u32 - '0' as u32) as u64;
        proof {
            assert(text@.subrange(0, i as int + 1).drop_last() =~= text@.subrange(0, i as int));
            assert(text@.subrange(0, i as int + 1).last() == text@[i as int]);
        }
        if acc > max / 10 || (acc == max / 10 && d > max % 10) {
            proof {
                let prev = digits_val(text@.subrange(0, i as int));
                let now = digits_val(text@.subrange(0, i as int + 1));
                assert(now == prev * 10 + d);
                if acc > max / 10 {
                    assert(prev * 10 >= (max / 10 + 1) * 10) by (nonlinear_arith)
                        requires
                            prev >= max / 10 + 1,
                    ;
                    assert(max / 10 * 10 + 9 >= max);
                }
                lemma_digits_val_grows(text@, i as int + 1);
            }
            return None;
        }
        acc = acc * 10 + d;
        i = i + 1;
    }
    proof {
        assert(text@.subrange(0, n as int) =~= text@);
    }
    Some(acc as u32)
}

/// Once a digit prefix exceeds a bound, the whole digit string does.
pub proof fn lemma_digits_val_grows(s: Seq<char>, i: int)
    requires
        0 <= i <= s.len(),
    ensures
        all_digits(s) ==> digits_val(s) >= digits_val(s.subrange(0, i)),
    decreases s.len() - i,
{
    if i < s.len() {
        lemma_digits_val_grows(s, i + 1);
        if all_digits(s) {
            let a = digits_val(s.subrange(0, i));
            let b = digits_val(s.subrange(0, i + 1));
            assert(s.subrange(0, i + 1).drop_last() =~= s.subrange(0, i));
            assert(s.subrange(0, i + 1).last() == s[i]);
            assert(b == a * 10 + (s[i] as int - '0' as int));
            assert(a * 10 >= a) by (nonlinear_arith)
                requires
                    a >= 0,
            ;
        }
    } else {
        assert(s.subrange(0, i) =~= s);
    }
}

} // verus!
