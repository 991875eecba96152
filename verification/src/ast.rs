use vstd::prelude::*;

use crate::typechecker::TaggedType;

verus! {

/// A typed parameter of a function declaration, with the location of its
/// name. `size` starts at zero and is filled by the type checker.
#[derive(Debug, PartialEq)]
pub struct FunctionArg {
    pub name: String,
    pub name_loc: (usize, usize),
    pub dtype: String,
    pub size: usize,
}

impl FunctionArg {
    pub fn new(name: String, name_loc: (usize, usize), dtype: String) -> (r: FunctionArg)
        ensures
            r == (FunctionArg { name, name_loc, dtype, size: 0 }),
    {
        FunctionArg { name, name_loc, dtype, size: 0 }
    }
}

/// One node of the abstract syntax tree. Literal and declaration nodes carry
/// a mutable type tag that the parser leaves at its default and the type
/// checker fills in. Locations are one-based `(line, column)` pairs.
#[derive(Debug, PartialEq)]
pub enum Node {
    Number(String, TaggedType, usize, usize),
    Float(String, TaggedType, usize, usize),
    StringLiteral(String, usize, usize),
    BoolLiteral(bool, TaggedType, usize, usize),
    ArrayLiteral(Vec<Box<Node>>, TaggedType, usize, usize),
    VarGet(String, usize, usize),
    Binary(Binary),
    Function(Function),
    Call(Call),
    VarDecl(VarDecl),
    Grouping(Grouping),
    Unary(Unary),
    Logical(Logical),
    Assign(Assign),
    For(For),
    If(If),
    Use(Use),
    Ret(Ret),
    Block(Block),
    ExprStmt(ExprStmt),
    GetPtr(GetPtr),
}

/// Binary operators; `None` is the sentinel for "no operator".
#[derive(PartialEq, Eq, Structural, Clone, Copy, Debug)]
pub enum BinaryOp {
    Add,
    Sub,
    Mul,
    Div,
    Greater,
    GreaterEq,
    Less,
    LessEq,
    Equal,
    NotEqual,
    NoneOp,
}

/// Logical operators; `None` is the sentinel for "no operator".
#[derive(PartialEq, Eq, Structural, Clone, Copy, Debug)]
pub enum LogicalOp {
    And,
    Or,
    NoneOp,
}

/// Unary operators; `None` is the sentinel for "no operator".
#[derive(PartialEq, Eq, Structural, Clone, Copy, Debug)]
pub enum UnaryOp {
    Not,
    Negate,
    NoneOp,
}

#[derive(Debug, PartialEq)]
pub struct Binary {
    pub lhs: Box<Node>,
    pub rhs: Box<Node>,
    pub op: BinaryOp,
}

impl Binary {
    pub fn new(lhs: Box<Node>, rhs: Box<Node>, op: BinaryOp) -> (r: Box<Node>)
        ensures
            *r == Node::Binary(Binary { lhs, rhs, op }),
    {
        Box::new(Node::Binary(Binary { lhs, rhs, op }))
    }
}

#[derive(Debug, PartialEq)]
pub struct Function {
    pub name: String,
    pub loc: (usize, usize),
    pub args: Vec<FunctionArg>,
    pub body: Box<Node>,
    pub ret_type: TaggedType,
    pub ret_type_str: Option<String>,
}

impl Function {
    pub fn new(
        name: String,
        loc: (usize, usize),
        args: Vec<FunctionArg>,
        body: Box<Node>,
        ret_type: TaggedType,
        ret_type_str: Option<String>,
    ) -> (r: Box<Node>)
        ensures
            *r == Node::Function(Function { name, loc, args, body, ret_type, ret_type_str }),
    {
        Box::new(Node::Function(Function { name, loc, args, body, ret_type, ret_type_str }))
    }
}

#[derive(Debug, PartialEq)]
pub struct Call {
    pub args: Vec<Box<Node>>,
    pub callee: Box<Node>,
}

impl Call {
    pub fn new(args: Vec<Box<Node>>, callee: Box<Node>) -> (r: Box<Node>)
        ensures
            *r == Node::Call(Call { args, callee }),
    {
        Box::new(Node::Call(Call { args, callee }))
    }
}

#[derive(Debug, PartialEq)]
pub struct VarDecl {
    pub name: String,
    pub name_loc: (usize, usize),
    pub dtype_str: Option<String>,
    pub dtype: TaggedType,
    pub value: Box<Node>,
}

impl VarDecl {
    pub fn new(
        name: String,
        name_loc: (usize, usize),
        dtype_str: Option<String>,
        dtype: TaggedType,
        value: Box<Node>,
    ) -> (r: Box<Node>)
        ensures
            *r == Node::VarDecl(VarDecl { name, name_loc, dtype_str, dtype, value }),
    {
        Box::new(Node::VarDecl(VarDecl { name, name_loc, dtype_str, dtype, value }))
    }
}

#[derive(Debug, PartialEq)]
pub struct Grouping {
    pub expr: Box<Node>,
}

impl Grouping {
    pub fn new(expr: Box<Node>) -> (r: Box<Node>)
        ensures
            *r == Node::Grouping(Grouping { expr }),
    {
        Box::new(Node::Grouping(Grouping { expr }))
    }
}

#[derive(Debug, PartialEq)]
pub struct GetPtr {
    pub expr: Box<Node>,
}

impl GetPtr {
    pub fn new(expr: Box<Node>) -> (r: Box<Node>)
        ensures
            *r == Node::GetPtr(GetPtr { expr }),
    {
        Box::new(Node::GetPtr(GetPtr { expr }))
    }
}

#[derive(Debug, PartialEq)]
pub struct Unary {
    pub op: UnaryOp,
    pub op_loc: (usize, usize),
    pub expr: Box<Node>,
}

impl Unary {
    pub fn new(op: UnaryOp, op_loc: (usize, usize), expr: Box<Node>) -> (r: Box<Node>)
        ensures
            *r == Node::Unary(Unary { op, op_loc, expr }),
    {
        Box::new(Node::Unary(Unary { op, op_loc, expr }))
    }
}

#[derive(Debug, PartialEq)]
pub struct Logical {
    pub lhs: Box<Node>,
    pub rhs: Box<Node>,
    pub op: LogicalOp,
}

impl Logical {
    pub fn new(lhs: Box<Node>, rhs: Box<Node>, op: LogicalOp) -> (r: Box<Node>)
        ensures
            *r == Node::Logical(Logical { lhs, rhs, op }),
    {
        Box::new(Node::Logical(Logical { lhs, rhs, op }))
    }
}

#[derive(Debug, PartialEq)]
pub struct Assign {
    pub name: String,
    pub name_loc: (usize, usize),
    pub value: Box<Node>,
}

impl Assign {
    pub fn new(name: String, name_loc: (usize, usize), value: Box<Node>) -> (r: Box<Node>)
        ensures
            *r == Node::Assign(Assign { name, name_loc, value }),
    {
        Box::new(Node::Assign(Assign { name, name_loc, value }))
    }
}

#[derive(Debug, PartialEq)]
pub struct For {
    pub name: String,
    pub name_loc: (usize, usize),
    pub target: Box<Node>,
    pub body: Box<Node>,
}

impl For {
    pub fn new(name: String, name_loc: (usize, usize), target: Box<Node>, body: Box<Node>) -> (r:
        Box<Node>)
        ensures
            *r == Node::For(For { name, name_loc, target, body }),
    {
        Box::new(Node::For(For { name, name_loc, target, body }))
    }
}

#[derive(Debug, PartialEq)]
pub struct If {
    pub condition: Box<Node>,
    pub then_block: Box<Node>,
    pub else_block: Option<Box<Node>>,
}

impl If {
    pub fn new(condition: Box<Node>, then_block: Box<Node>, else_block: Option<Box<Node>>) -> (r:
        Box<Node>)
        ensures
            *r == Node::If(If { condition, then_block, else_block }),
    {
        Box::new(Node::If(If { condition, then_block, else_block }))
    }
}

#[derive(Debug, PartialEq)]
pub struct Use {
    pub module: Box<Node>,
    pub item: String,
    pub loc: (usize, usize),
}

impl Use {
    pub fn new(module: Box<Node>, item: String, loc: (usize, usize)) -> (r: Box<Node>)
        ensures
            *r == Node::Use(Use { module, item, loc }),
    {
        Box::new(Node::Use(Use { module, item, loc }))
    }
}

#[derive(Debug, PartialEq)]
pub struct Ret {
    pub value: Option<Box<Node>>,
    pub loc: (usize, usize),
}

impl Ret {
    pub fn new(value: Option<Box<Node>>, loc: (usize, usize)) -> (r: Box<Node>)
        ensures
            *r == Node::Ret(Ret { value, loc }),
    {
        Box::new(Node::Ret(Ret { value, loc }))
    }
}

#[derive(Debug, PartialEq)]
pub struct Block {
    pub statements: Vec<Box<Node>>,
}

impl Block {
    pub fn new(statements: Vec<Box<Node>>) -> (r: Box<Node>)
        ensures
            *r == Node::Block(Block { statements }),
    {
        Box::new(Node::Block(Block { statements }))
    }
}

#[derive(Debug, PartialEq)]
pub struct ExprStmt {
    pub expr: Box<Node>,
}

impl ExprStmt {
    pub fn new(expr: Box<Node>) -> (r: Box<Node>)
        ensures
            *r == Node::ExprStmt(ExprStmt { expr }),
    {
        Box::new(Node::ExprStmt(ExprStmt { expr }))
    }
}

} // verus!
