use vstd::prelude::*;

use crate::ast::{
    Assign, Binary, BinaryOp, Block, ExprStmt, For, Function, FunctionArg, GetPtr, If, Logical,
    LogicalOp, Node, Ret, Unary, UnaryOp, VarDecl,
};
use crate::tokenizer::{
    get_tok_len, get_tok_loc, spec_tok_len, spec_tok_loc, tok_fits, TokenKind, TokenV, Tokenizer,
};
use crate::typechecker::TaggedType;
use crate::typechecker::TypeKind;

verus! {

/// One parse diagnostic as a value: where it points (one-based line and
/// column just past the offending token), the token's width for the caret
/// underline, and the message.
pub struct Diagnostic {
    pub line: usize,
    pub column: usize,
    pub len: usize,
    pub message: String,
}

impl Diagnostic {
    /// Render the diagnostic: `line:column message`, then a caret underline
    /// of the token's width on its own line.
    pub fn render(&self) -> (r: String)
        ensures
            r@ == crate::util::dec_digits(self.line as nat) + ":"@ + crate::util::dec_digits(
                self.column as nat,
            ) + " "@ + self.message@ + "
"@ + crate::util::repeat_seq("~"@, self.len as nat),
    {
        let mut out = crate::util::usize_to_string(self.line);
        out.append(":");
        let col = crate::util::usize_to_string(self.column);
        out.append(col.as_str());
        out.append(" ");
        out.append(self.message.as_str());
        out.append("
");
        let carets = crate::util::repeat_str("~", self.len);
        out.append(carets.as_str());
        proof {
            assert(out@ =~= crate::util::dec_digits(self.line as nat) + ":"@
                + crate::util::dec_digits(self.column as nat) + " "@ + self.message@ + "
"@
                + crate::util::repeat_seq("~"@, self.len as nat));
        }
        out
    }
}

/// What a `{` means at expression position: nothing, the head of an
/// annotated array declaration (with its declared size, when one was
/// written), or the inside of an array literal.
pub enum ParserContext {
    NoneCtx,
    ArrayParse(Option<u32>),
    ArrayLiteral,
}

/// How many source characters are left in front of the lexer.
pub open spec fn rem(p: Parser) -> int {
    p.tokenizer.source@.len() - p.tokenizer.current
}

/// Whether the parser still holds a real token.
pub open spec fn live(p: Parser) -> int {
    if p.current@ is Eof {
        0
    } else {
        1
    }
}

/// The parser consumed something: the lexer moved, or the held token fell
/// to the end marker.
pub open spec fn plt(b: Parser, a: Parser) -> bool {
    rem(b) < rem(a) || (rem(b) == rem(a) && live(b) < live(a))
}

/// The parser went forwards or stood still.
pub open spec fn ple(b: Parser, a: Parser) -> bool {
    rem(b) < rem(a) || (rem(b) == rem(a) && live(b) <= live(a))
}

/// What every production step keeps: the source, a well-formed lexer, a
/// bounded held token, and forward-only movement.
pub open spec fn pstep(a: Parser, b: Parser) -> bool {
    &&& b.wf()
    &&& b.tokenizer.source == a.tokenizer.source
    &&& ple(b, a)
    &&& (plt(b, a) || b.current == a.current)
    &&& b.declarations == a.declarations
    &&& a.diagnostics@.is_prefix_of(b.diagnostics@)
}

/// `pstep`, but the parser may have recorded declarations and diagnostics:
/// what the recovery loops keep.
pub open spec fn pstep_rec(a: Parser, b: Parser) -> bool {
    &&& b.wf()
    &&& b.tokenizer.source == a.tokenizer.source
    &&& ple(b, a)
    &&& (plt(b, a) || b.current == a.current)
    &&& a.declarations@.is_prefix_of(b.declarations@)
    &&& a.diagnostics@.is_prefix_of(b.diagnostics@)
}

/// Prefixes chain: a prefix of a prefix is a prefix.
pub broadcast proof fn lemma_prefix_trans<T>(a: Seq<T>, b: Seq<T>, c: Seq<T>)
    requires
        #[trigger] a.is_prefix_of(b),
        #[trigger] b.is_prefix_of(c),
    ensures
        a.is_prefix_of(c),
{
    assert forall|i: int| 0 <= i < a.len() implies a[i] == c.subrange(0, a.len() as int)[i] by {
        assert(a[i] == b.subrange(0, a.len() as int)[i]);
        assert(b[i] == c.subrange(0, b.len() as int)[i]);
    }
    assert(a =~= c.subrange(0, a.len() as int));
}

/// A node that can stand as an expression.
pub open spec fn is_expr_node(n: Node) -> bool {
    match n {
        Node::Number(_, _, _, _) | Node::Float(_, _, _, _) | Node::StringLiteral(_, _, _)
        | Node::BoolLiteral(_, _, _, _) | Node::ArrayLiteral(_, _, _, _) | Node::VarGet(_, _, _)
        | Node::Binary(_) | Node::Logical(_) | Node::Unary(_) | Node::Grouping(_)
        | Node::GetPtr(_) | Node::Assign(_) => true,
        _ => false,
    }
}

/// The recursive-descent parser: the token stream, the one-token buffer, the
/// array context, and what it has produced so far.
pub struct Parser {
    pub tokenizer: Tokenizer,
    pub current: TokenKind,
    pub ctx: ParserContext,
    pub declarations: Vec<Box<Node>>,
    pub diagnostics: Vec<Diagnostic>,
}

/// The result of one production: a value, or the diagnostic of the first
/// fault.
pub type ParseResult<T> = Result<T, Diagnostic>;

impl Parser {
    /// The lexer is well formed and the held token's width is bounded.
    pub open spec fn wf(self) -> bool {
        &&& self.tokenizer.wf()
        &&& tok_fits(self.current@)
    }

    /// A fresh parser over a lexer: the first token is pulled in.
    pub fn new(tokenizer: Tokenizer) -> (r: Parser)
        requires
            tokenizer.wf(),
            tokenizer.current == 0,
        ensures
            r.wf(),
            r.tokenizer.source == tokenizer.source,
            r.declarations@.len() == 0,
            r.diagnostics@.len() == 0,
    {
        let mut p = Parser {
            tokenizer,
            current: TokenKind::Eof,
            ctx: ParserContext::NoneCtx,
            declarations: Vec::new(),
            diagnostics: Vec::new(),
        };
        p.advance();
        p
    }

    /// Whether the token stream is exhausted.
    pub fn is_at_end(&self) -> (r: bool)
        ensures
            r == (self.current@ is Eof),
    {
        match self.current {
            TokenKind::Eof => true,
            _ => false,
        }
    }

    /// Pull the next token into the buffer; the end marker when none is
    /// left.
    fn advance(&mut self)
        requires
            old(self).wf(),
        ensures
            pstep(*old(self), *final(self)),
            final(self).ctx == old(self).ctx,
            final(self).declarations == old(self).declarations,
            final(self).diagnostics == old(self).diagnostics,
            old(self).current@ !is Eof ==> plt(*final(self), *old(self)),
    {
        proof {
            crate::tokenizer::lemma_next_progress(
                self.tokenizer.source@,
                self.tokenizer.current as int,
                self.tokenizer.line as int,
                self.tokenizer.column as int,
            );
            crate::tokenizer::lemma_next_token_fits(
                self.tokenizer.source@,
                self.tokenizer.current as int,
                self.tokenizer.line as int,
                self.tokenizer.column as int,
            );
        }
        match self.tokenizer.next() {
            Some(t) => {
                self.current = t;
            },
            None => {
                self.current = TokenKind::Eof;
            },
        }
    }

    /// Build the diagnostic for the held token: its position and width, and
    /// the message.
    fn error(&self, message: String) -> (r: Diagnostic)
        requires
            self.wf(),
        ensures
            r.message@ == message@,
            self.current@ !is Eof ==> (r.line, r.column) == spec_tok_loc(self.current@) && r.len
                == spec_tok_len(self.current@),
    {
        match &self.current {
            TokenKind::Eof => Diagnostic {
                line: self.tokenizer.line,
                column: self.tokenizer.column,
                len: 0,
                message,
            },
            tok => {
                let (line, column) = get_tok_loc(tok);
                let len = get_tok_len(tok);
                Diagnostic { line, column, len, message }
            },
        }
    }

    /// Skip to the next statement boundary: consume until the last token was
    /// an expression delimiter or the next one starts a statement.
    fn synchronize(&mut self)
        requires
            old(self).wf(),
        ensures
            pstep(*old(self), *final(self)),
            final(self).declarations == old(self).declarations,
            final(self).diagnostics == old(self).diagnostics,
            old(self).current@ !is Eof ==> plt(*final(self), *old(self)),
    {
        broadcast use lemma_prefix_trans;

        let mut previous = self.current.duplicate();
        self.advance();
        loop
            invariant
                self.wf(),
                self.tokenizer.source == old(self).tokenizer.source,
                self.declarations == old(self).declarations,
                self.diagnostics == old(self).diagnostics,
                ple(*self, *old(self)),
                old(self).current@ !is Eof ==> plt(*self, *old(self)),
                (plt(*self, *old(self)) || self.current == old(self).current),
            decreases rem(*self), live(*self),
        {
            if self.is_at_end() {
                return ;
            }
            let prev_delim = match previous {
                TokenKind::ExprDelimiter(_, _) => true,
                _ => false,
            };
            if prev_delim {
                return ;
            }
            let stop = match &self.current {
                TokenKind::Func(_, _) => true,
                TokenKind::For(_, _) => true,
                TokenKind::If(_, _) => true,
                TokenKind::Ret(_, _) => true,
                TokenKind::Use(_, _) => true,
                TokenKind::Mod(_, _) => true,
                TokenKind::Else(_, _) => true,
                _ => false,
            };
            if stop {
                return ;
            }
            previous = self.current.duplicate();
            self.advance();
        }
    }

    /// Parse every declaration of the stream, recording each fault and
    /// resuming at the next statement boundary.
    pub fn parse(&mut self)
        requires
            old(self).wf(),
        ensures
            pstep_rec(*old(self), *final(self)),
    {
        broadcast use lemma_prefix_trans;

        loop
            invariant
                self.wf(),
                pstep_rec(*old(self), *self),
            decreases rem(*self), live(*self),
        {
            if self.is_at_end() {
                return ;
            }
            let ghost pre = *self;
            match self.declaration() {
                Ok(res) => {
                    match res {
                        Some(decl) => {
                            let ghost dv = *self;
                            self.declarations.push(decl);
                            proof {
                                assert(self.declarations@.drop_last() =~= dv.declarations@);
                                assert(old(self).declarations@.is_prefix_of(self.declarations@));
                            }
                        },
                        None => {},
                    }
                },
                Err(e) => {
                    let ghost dv = *self;
                    self.diagnostics.push(e);
                    proof {
                        assert(self.diagnostics@.drop_last() =~= dv.diagnostics@);
                        assert(old(self).diagnostics@.is_prefix_of(self.diagnostics@));
                    }
                    self.synchronize();
                },
            }
        }
    }

    /// One top-level declaration: a function, an explicit or implicit
    /// variable declaration, or a statement.
    fn declaration(&mut self) -> (r: ParseResult<Option<Box<Node>>>)
        requires
            old(self).wf(),
        ensures
            pstep(*old(self), *final(self)),
            r is Ok ==> plt(*final(self), *old(self)),
        decreases rem(*self), live(*self), 14int,
    {
        broadcast use lemma_prefix_trans;

        let is_func = match &self.current {
            TokenKind::Func(_, _) => true,
            _ => false,
        };
        if is_func {
            self.advance();
            return match self.func_decl() {
                Ok(n) => Ok(Some(n)),
                Err(e) => Err(e),
            };
        }
        let is_var = match &self.current {
            TokenKind::Var(_, _) => true,
            _ => false,
        };
        if is_var {
            self.advance();
            return match self.explicit_var_decl() {
                Ok(n) => Ok(Some(n)),
                Err(e) => Err(e),
            };
        }
        let is_iden = match &self.current {
            TokenKind::IdenLiteral(_, _, _) => true,
            _ => false,
        };
        if is_iden {
            let ahead = self.tokenizer.peek_ahead();
            let ahead_coloneq = match ahead {
                Some(TokenKind::ColonEq(_, _)) => true,
                _ => false,
            };
            if ahead_coloneq {
                return match self.implicit_var_decl() {
                    Ok(n) => Ok(Some(n)),
                    Err(e) => Err(e),
                };
            }
        }
        self.statement()
    }

    /// One statement: a block, `ret`, `for`, `if`, an expression statement,
    /// or nothing for a bare delimiter.
    fn statement(&mut self) -> (r: ParseResult<Option<Box<Node>>>)
        requires
            old(self).wf(),
        ensures
            pstep(*old(self), *final(self)),
            r is Ok ==> plt(*final(self), *old(self)),
        decreases rem(*self), live(*self), 13int,
    {
        broadcast use lemma_prefix_trans;

        let is_delim = match &self.current {
            TokenKind::ExprDelimiter(_, _) => true,
            _ => false,
        };
        if is_delim {
            self.advance();
            return Ok(None);
        }
        let loc = match &self.current {
            TokenKind::Eof => (0, 0),
            tok => get_tok_loc(tok),
        };
        let is_brace = match &self.current {
            TokenKind::LeftBrace(_, _) => true,
            _ => false,
        };
        if is_brace {
            self.advance();
            let stmts = match self.block() {
                Ok(v) => v,
                Err(e) => {
                    return Err(e);
                },
            };
            return Ok(Some(Block::new(stmts)));
        }
        let is_ret = match &self.current {
            TokenKind::Ret(_, _) => true,
            _ => false,
        };
        if is_ret {
            self.advance();
            return match self.ret_stmt(loc) {
                Ok(n) => Ok(Some(n)),
                Err(e) => Err(e),
            };
        }
        let is_for = match &self.current {
            TokenKind::For(_, _) => true,
            _ => false,
        };
        if is_for {
            self.advance();
            return match self.for_stmt() {
                Ok(n) => Ok(Some(n)),
                Err(e) => Err(e),
            };
        }
        let is_if = match &self.current {
            TokenKind::If(_, _) => true,
            _ => false,
        };
        if is_if {
            self.advance();
            return match self.if_stmt() {
                Ok(n) => Ok(Some(n)),
                Err(e) => Err(e),
            };
        }
        match self.expr_stmt() {
            Ok(n) => Ok(Some(n)),
            Err(e) => Err(e),
        }
    }

    /// `var name: T [ [N] ] = expr`, with the annotation and the optional
    /// fixed array size; the `var` keyword was already consumed.
    fn explicit_var_decl(&mut self) -> (r: ParseResult<Box<Node>>)
        requires
            old(self).wf(),
        ensures
            pstep(*old(self), *final(self)),
            match r {
                Ok(n) => *n matches Node::VarDecl(d) && d.dtype_str is Some && d.dtype
                    == (TaggedType { size: 0, kind: TypeKind::NoneKind, signed: None }),
                Err(_) => true,
            },
        decreases rem(*self), live(*self), 13int,
    {
        broadcast use lemma_prefix_trans;

        let (name, name_loc) = match &self.current {
            TokenKind::IdenLiteral(n, line, column) => (n.clone(), (*line, *column)),
            _ => {
                return Err(self.error(String::from_str("expected an identifier")));
            },
        };
        self.advance();
        let is_colon = match &self.current {
            TokenKind::Colon(_, _) => true,
            _ => false,
        };
        if !is_colon {
            return Err(self.error(String::from_str("expected ':'")));
        }
        self.advance();
        let dtype = match &self.current {
            TokenKind::IdenLiteral(t, _, _) => t.clone(),
            _ => {
                return Err(self.error(String::from_str("expected an identifier")));
            },
        };
        self.advance();
        let is_bracket = match &self.current {
            TokenKind::LeftBracket(_, _) => true,
            _ => false,
        };
        if is_bracket {
            self.advance();
            let size: Option<u32> = match &self.current {
                TokenKind::IntLiteral(t, _, _) => {
                    match crate::typechecker::parse_u32(t.as_str()) {
                        Some(v) => Some(v),
                        _ => None,
                    }
                },
                _ => None,
            };
            match size {
                Some(v) => {
                    self.advance();
                    self.ctx = ParserContext::ArrayParse(Some(v));
                },
                None => {
                    self.ctx = ParserContext::ArrayParse(None);
                },
            }
            let is_rbracket = match &self.current {
                TokenKind::RightBracket(_, _) => true,
                _ => false,
            };
            if !is_rbracket {
                return Err(self.error(String::from_str("expected ']'")));
            }
            self.advance();
        }
        let is_eq = match &self.current {
            TokenKind::Equal(_, _) => true,
            _ => false,
        };
        if !is_eq {
            return Err(self.error(String::from_str("expected '='")));
        }
        self.advance();
        let value = match self.expr() {
            Ok(v) => v,
            Err(e) => {
                return Err(e);
            },
        };
        self.ctx = ParserContext::NoneCtx;
        Ok(
            VarDecl::new(
                name,
                name_loc,
                Some(dtype),
                TaggedType::new(0, TypeKind::NoneKind, None),
                value,
            ),
        )
    }

    /// `name := expr`; nothing was consumed yet.
    fn implicit_var_decl(&mut self) -> (r: ParseResult<Box<Node>>)
        requires
            old(self).wf(),
        ensures
            pstep(*old(self), *final(self)),
            match r {
                Ok(n) => plt(*final(self), *old(self)) && (*n matches Node::VarDecl(d)
                    && d.dtype_str is None && d.dtype == (TaggedType {
                    size: 0,
                    kind: TypeKind::NoneKind,
                    signed: None,
                })),
                Err(_) => true,
            },
        decreases rem(*self), live(*self), 13int,
    {
        broadcast use lemma_prefix_trans;

        let (name, name_loc) = match &self.current {
            TokenKind::IdenLiteral(n, line, column) => (n.clone(), (*line, *column)),
            _ => {
                return Err(self.error(String::from_str("expected an identifier")));
            },
        };
        self.advance();
        let is_coloneq = match &self.current {
            TokenKind::ColonEq(_, _) => true,
            _ => false,
        };
        if !is_coloneq {
            return Err(self.error(String::from_str("expected ':='")));
        }
        self.advance();
        let value = match self.expr() {
            Ok(v) => v,
            Err(e) => {
                return Err(e);
            },
        };
        Ok(VarDecl::new(name, name_loc, None, TaggedType::new(0, TypeKind::NoneKind, None), value))
    }

    /// `func name [(arg: T, …)] [-> T] { … }`; the `func` keyword was
    /// already consumed.
    fn func_decl(&mut self) -> (r: ParseResult<Box<Node>>)
        requires
            old(self).wf(),
        ensures
            pstep(*old(self), *final(self)),
            match r {
                Ok(n) => *n matches Node::Function(f) && f.ret_type == (TaggedType {
                    size: 0,
                    kind: TypeKind::NoneKind,
                    signed: None,
                }),
                Err(_) => true,
            },
        decreases rem(*self), live(*self), 13int,
    {
        broadcast use lemma_prefix_trans;

        let (name, name_loc) = match &self.current {
            TokenKind::IdenLiteral(literal, line, column) => (literal.clone(), (*line, *column)),
            _ => {
                return Err(self.error(String::from_str("expected an identifier")));
            },
        };
        self.advance();
        let mut args: Vec<FunctionArg> = Vec::new();
        let is_paren = match &self.current {
            TokenKind::LeftParen(_, _) => true,
            _ => false,
        };
        if is_paren {
            self.advance();
            loop
                invariant
                    self.wf(),
                    self.tokenizer.source == old(self).tokenizer.source,
                    self.declarations == old(self).declarations,
                    self.diagnostics == old(self).diagnostics,
                    ple(*self, *old(self)),
                    plt(*self, *old(self)),
                decreases rem(*self), live(*self),
            {
                let (arg_name, arg_name_loc) = match &self.current {
                    TokenKind::IdenLiteral(literal, line, column) => (
                        literal.clone(),
                        (*line, *column),
                    ),
                    _ => {
                        return Err(self.error(String::from_str("expected an identifier")));
                    },
                };
                self.advance();
                let is_colon = match &self.current {
                    TokenKind::Colon(_, _) => true,
                    _ => false,
                };
                if !is_colon {
                    return Err(self.error(String::from_str("expected a ':'")));
                }
                self.advance();
                let arg_type = match &self.current {
                    TokenKind::IdenLiteral(literal, _, _) => literal.clone(),
                    _ => {
                        return Err(self.error(String::from_str("expected an identifier")));
                    },
                };
                args.push(FunctionArg::new(arg_name, arg_name_loc, arg_type));
                self.advance();
                let is_comma = match &self.current {
                    TokenKind::Comma(_, _) => true,
                    _ => false,
                };
                if !is_comma {
                    break ;
                }
                self.advance();
            }
            let is_rparen = match &self.current {
                TokenKind::RightParen(_, _) => true,
                _ => false,
            };
            if !is_rparen {
                return Err(self.error(String::from_str("expected a ')'")));
            }
            self.advance();
        }
        let mut ret_type: Option<String> = None;
        let is_arrow = match &self.current {
            TokenKind::Arrow(_, _) => true,
            _ => false,
        };
        if is_arrow {
            self.advance();
            match &self.current {
                TokenKind::IdenLiteral(iden, _, _) => {
                    ret_type = Some(iden.clone());
                },
                _ => {
                    return Err(self.error(String::from_str("expected an identifier")));
                },
            }
            self.advance();
        }
        let is_brace = match &self.current {
            TokenKind::LeftBrace(_, _) => true,
            _ => false,
        };
        if !is_brace {
            return Err(self.error(String::from_str("expected a '{'")));
        }
        self.advance();
        let body = match self.block() {
            Ok(v) => v,
            Err(e) => {
                return Err(e);
            },
        };
        Ok(
            Function::new(
                name,
                name_loc,
                args,
                Block::new(body),
                TaggedType::new(0, TypeKind::NoneKind, None),
                ret_type,
            ),
        )
    }

    /// `if cond { … } [else { … }]`; the `if` keyword was already consumed.
    fn if_stmt(&mut self) -> (r: ParseResult<Box<Node>>)
        requires
            old(self).wf(),
        ensures
            pstep(*old(self), *final(self)),
            match r {
                Ok(n) => *n is If,
                Err(_) => true,
            },
        decreases rem(*self), live(*self), 12int,
    {
        broadcast use lemma_prefix_trans;

        let cond = match self.expr() {
            Ok(v) => v,
            Err(e) => {
                return Err(e);
            },
        };
        let is_brace = match &self.current {
            TokenKind::LeftBrace(_, _) => true,
            _ => false,
        };
        if !is_brace {
            return Err(self.error(String::from_str("expected a '{'")));
        }
        self.advance();
        let then_branch = match self.block() {
            Ok(v) => v,
            Err(e) => {
                return Err(e);
            },
        };
        let mut else_branch: Option<Box<Node>> = None;
        let is_else = match &self.current {
            TokenKind::Else(_, _) => true,
            _ => false,
        };
        if is_else {
            self.advance();
            let is_brace2 = match &self.current {
                TokenKind::LeftBrace(_, _) => true,
                _ => false,
            };
            if !is_brace2 {
                return Err(self.error(String::from_str("expected a '{'")));
            }
            self.advance();
            let eb = match self.block() {
                Ok(v) => v,
                Err(e) => {
                    return Err(e);
                },
            };
            else_branch = Some(Block::new(eb));
        }
        Ok(If::new(cond, Block::new(then_branch), else_branch))
    }

    /// `ret [expr]` up to the statement delimiter; the keyword was already
    /// consumed.
    fn ret_stmt(&mut self, loc: (usize, usize)) -> (r: ParseResult<Box<Node>>)
        requires
            old(self).wf(),
        ensures
            pstep(*old(self), *final(self)),
            match r {
                Ok(n) => *n is Ret,
                Err(_) => true,
            },
        decreases rem(*self), live(*self), 12int,
    {
        broadcast use lemma_prefix_trans;

        let mut expr: Option<Box<Node>> = None;
        let is_delim = match &self.current {
            TokenKind::ExprDelimiter(_, _) => true,
            _ => false,
        };
        if !is_delim {
            let e = match self.expr() {
                Ok(v) => v,
                Err(e) => {
                    return Err(e);
                },
            };
            expr = Some(e);
        }
        let is_delim2 = match &self.current {
            TokenKind::ExprDelimiter(_, _) => true,
            _ => false,
        };
        if !is_delim2 {
            return Err(self.error(String::from_str("expected a ';' or a new line")));
        }
        self.advance();
        Ok(Ret::new(expr, loc))
    }

    /// `for name in expr { … }`; the keyword was already consumed.
    fn for_stmt(&mut self) -> (r: ParseResult<Box<Node>>)
        requires
            old(self).wf(),
        ensures
            pstep(*old(self), *final(self)),
            match r {
                Ok(n) => *n is For,
                Err(_) => true,
            },
        decreases rem(*self), live(*self), 12int,
    {
        broadcast use lemma_prefix_trans;

        let (name, name_loc) = match &self.current {
            TokenKind::IdenLiteral(n, line, column) => (n.clone(), (*line, *column)),
            _ => {
                return Err(self.error(String::from_str("expected an identifier")));
            },
        };
        self.advance();
        let is_in = match &self.current {
            TokenKind::In(_, _) => true,
            _ => false,
        };
        if !is_in {
            return Err(self.error(String::from_str("expected 'in'")));
        }
        self.advance();
        let target = match self.expr() {
            Ok(v) => v,
            Err(e) => {
                return Err(e);
            },
        };
        let is_brace = match &self.current {
            TokenKind::LeftBrace(_, _) => true,
            _ => false,
        };
        if !is_brace {
            return Err(self.error(String::from_str("expected a '{'")));
        }
        self.advance();
        let body = match self.block() {
            Ok(v) => v,
            Err(e) => {
                return Err(e);
            },
        };
        Ok(For::new(name, name_loc, target, Block::new(body)))
    }

    /// The statements up to the closing brace, with fault recovery inside
    /// the block.
    fn block(&mut self) -> (r: ParseResult<Vec<Box<Node>>>)
        requires
            old(self).wf(),
        ensures
            final(self).wf(),
            final(self).tokenizer.source == old(self).tokenizer.source,
            ple(*final(self), *old(self)),
            final(self).declarations == old(self).declarations,
            old(self).diagnostics@.is_prefix_of(final(self).diagnostics@),
            r is Ok ==> plt(*final(self), *old(self)),
        decreases rem(*self), live(*self), 15int,
    {
        broadcast use lemma_prefix_trans;

        let mut statements: Vec<Box<Node>> = Vec::new();
        loop
            invariant
                self.wf(),
                self.tokenizer.source == old(self).tokenizer.source,
                self.declarations == old(self).declarations,
                old(self).diagnostics@.is_prefix_of(self.diagnostics@),
                ple(*self, *old(self)),
                (plt(*self, *old(self)) || self.current == old(self).current),
            decreases rem(*self), live(*self),
        {
            let is_rbrace = match &self.current {
                TokenKind::RightBrace(_, _) => true,
                _ => false,
            };
            if is_rbrace || self.is_at_end() {
                break ;
            }
            let ghost pre = *self;
            match self.declaration() {
                Ok(res) => {
                    match res {
                        Some(decl) => {
                            statements.push(decl);
                        },
                        None => {},
                    }
                },
                Err(e) => {
                    let ghost dv = *self;
                    self.diagnostics.push(e);
                    proof {
                        assert(self.diagnostics@.drop_last() =~= dv.diagnostics@);
                        assert(old(self).diagnostics@.is_prefix_of(self.diagnostics@));
                    }
                    self.synchronize();
                },
            }
        }
        let is_rbrace = match &self.current {
            TokenKind::RightBrace(_, _) => true,
            _ => false,
        };
        if !is_rbrace {
            return Err(self.error(String::from_str("Expected an '}'")));
        }
        self.advance();
        Ok(statements)
    }

    /// One expression statement up to its delimiter.
    fn expr_stmt(&mut self) -> (r: ParseResult<Box<Node>>)
        requires
            old(self).wf(),
        ensures
            pstep(*old(self), *final(self)),
            match r {
                Ok(n) => plt(*final(self), *old(self)) && *n is ExprStmt,
                Err(_) => true,
            },
        decreases rem(*self), live(*self), 11int,
    {
        broadcast use lemma_prefix_trans;

        let expr = match self.expr() {
            Ok(v) => v,
            Err(e) => {
                return Err(e);
            },
        };
        let is_delim = match &self.current {
            TokenKind::ExprDelimiter(_, _) => true,
            _ => false,
        };
        if !is_delim {
            return Err(self.error(String::from_str("Expected a ';' or a new line.")));
        }
        self.advance();
        Ok(ExprStmt::new(expr))
    }

    /// An expression: the precedence ladder from assignment down.
    fn expr(&mut self) -> (r: ParseResult<Box<Node>>)
        requires
            old(self).wf(),
        ensures
            pstep(*old(self), *final(self)),
            final(self).declarations == old(self).declarations,
            final(self).diagnostics == old(self).diagnostics,
            match r {
                Ok(n) => plt(*final(self), *old(self)) && is_expr_node(*n),
                Err(_) => true,
            },
        decreases rem(*self), live(*self), 10int,
    {
        broadcast use lemma_prefix_trans;

        self.assignment()
    }

    /// Right-associative assignment; only a variable read may stand on the
    /// left.
    fn assignment(&mut self) -> (r: ParseResult<Box<Node>>)
        requires
            old(self).wf(),
        ensures
            pstep(*old(self), *final(self)),
            final(self).declarations == old(self).declarations,
            final(self).diagnostics == old(self).diagnostics,
            match r {
                Ok(n) => plt(*final(self), *old(self)) && is_expr_node(*n),
                Err(_) => true,
            },
        decreases rem(*self), live(*self), 9int,
    {
        broadcast use lemma_prefix_trans;

        let expr = match self.or() {
            Ok(v) => v,
            Err(e) => {
                return Err(e);
            },
        };
        let is_eq = match &self.current {
            TokenKind::Equal(_, _) => true,
            _ => false,
        };
        if is_eq {
            self.advance();
            let value = match self.assignment() {
                Ok(v) => v,
                Err(e) => {
                    return Err(e);
                },
            };
            return match *expr {
                Node::VarGet(name, line, column) => Ok(Assign::new(name, (line, column), value)),
                _ => Err(self.error(String::from_str("Invalid target for assignment"))),
            };
        }
        Ok(expr)
    }

    /// Left-associative `||`.
    fn or(&mut self) -> (r: ParseResult<Box<Node>>)
        requires
            old(self).wf(),
        ensures
            pstep(*old(self), *final(self)),
            final(self).declarations == old(self).declarations,
            final(self).diagnostics == old(self).diagnostics,
            match r {
                Ok(n) => plt(*final(self), *old(self)) && is_expr_node(*n),
                Err(_) => true,
            },
        decreases rem(*self), live(*self), 8int,
    {
        broadcast use lemma_prefix_trans;

        let mut expr = match self.and() {
            Ok(v) => v,
            Err(e) => {
                return Err(e);
            },
        };
        loop
            invariant
                self.wf(),
                self.tokenizer.source == old(self).tokenizer.source,
                self.declarations == old(self).declarations,
                self.diagnostics == old(self).diagnostics,
                plt(*self, *old(self)),
                is_expr_node(*expr),
            decreases rem(*self), live(*self),
        {
            let is_or = match &self.current {
                TokenKind::Or(_, _) => true,
                _ => false,
            };
            if !is_or {
                break ;
            }
            self.advance();
            let right = match self.and() {
                Ok(v) => v,
                Err(e) => {
                    return Err(e);
                },
            };
            expr = Logical::new(expr, right, LogicalOp::Or);
        }
        Ok(expr)
    }

    /// Left-associative `&&`.
    fn and(&mut self) -> (r: ParseResult<Box<Node>>)
        requires
            old(self).wf(),
        ensures
            pstep(*old(self), *final(self)),
            final(self).declarations == old(self).declarations,
            final(self).diagnostics == old(self).diagnostics,
            match r {
                Ok(n) => plt(*final(self), *old(self)) && is_expr_node(*n),
                Err(_) => true,
            },
        decreases rem(*self), live(*self), 7int,
    {
        broadcast use lemma_prefix_trans;

        let mut expr = match self.equality() {
            Ok(v) => v,
            Err(e) => {
                return Err(e);
            },
        };
        loop
            invariant
                self.wf(),
                self.tokenizer.source == old(self).tokenizer.source,
                self.declarations == old(self).declarations,
                self.diagnostics == old(self).diagnostics,
                plt(*self, *old(self)),
                is_expr_node(*expr),
            decreases rem(*self), live(*self),
        {
            let is_and = match &self.current {
                TokenKind::And(_, _) => true,
                _ => false,
            };
            if !is_and {
                break ;
            }
            self.advance();
            let right = match self.equality() {
                Ok(v) => v,
                Err(e) => {
                    return Err(e);
                },
            };
            expr = Logical::new(expr, right, LogicalOp::And);
        }
        Ok(expr)
    }

    /// Left-associative `==` and `!=`.
    fn equality(&mut self) -> (r: ParseResult<Box<Node>>)
        requires
            old(self).wf(),
        ensures
            pstep(*old(self), *final(self)),
            final(self).declarations == old(self).declarations,
            final(self).diagnostics == old(self).diagnostics,
            match r {
                Ok(n) => plt(*final(self), *old(self)) && is_expr_node(*n),
                Err(_) => true,
            },
        decreases rem(*self), live(*self), 6int,
    {
        broadcast use lemma_prefix_trans;

        let mut expr = match self.comparison() {
            Ok(v) => v,
            Err(e) => {
                return Err(e);
            },
        };
        loop
            invariant
                self.wf(),
                self.tokenizer.source == old(self).tokenizer.source,
                self.declarations == old(self).declarations,
                self.diagnostics == old(self).diagnostics,
                plt(*self, *old(self)),
                is_expr_node(*expr),
            decreases rem(*self), live(*self),
        {
            let bop = match &self.current {
                TokenKind::NotEqual(_, _) => BinaryOp::NotEqual,
                TokenKind::EqualEqual(_, _) => BinaryOp::Equal,
                _ => BinaryOp::NoneOp,
            };
            let stop = match bop {
                BinaryOp::NoneOp => true,
                _ => false,
            };
            if stop {
                break ;
            }
            self.advance();
            let right = match self.comparison() {
                Ok(v) => v,
                Err(e) => {
                    return Err(e);
                },
            };
            expr = Binary::new(expr, right, bop);
        }
        Ok(expr)
    }

    /// Left-associative `>`, `>=`, `<`, `<=`.
    fn comparison(&mut self) -> (r: ParseResult<Box<Node>>)
        requires
            old(self).wf(),
        ensures
            pstep(*old(self), *final(self)),
            final(self).declarations == old(self).declarations,
            final(self).diagnostics == old(self).diagnostics,
            match r {
                Ok(n) => plt(*final(self), *old(self)) && is_expr_node(*n),
                Err(_) => true,
            },
        decreases rem(*self), live(*self), 5int,
    {
        broadcast use lemma_prefix_trans;

        let mut expr = match self.term() {
            Ok(v) => v,
            Err(e) => {
                return Err(e);
            },
        };
        loop
            invariant
                self.wf(),
                self.tokenizer.source == old(self).tokenizer.source,
                self.declarations == old(self).declarations,
                self.diagnostics == old(self).diagnostics,
                plt(*self, *old(self)),
                is_expr_node(*expr),
            decreases rem(*self), live(*self),
        {
            let bop = match &self.current {
                TokenKind::Greater(_, _) => BinaryOp::Greater,
                TokenKind::GreaterEq(_, _) => BinaryOp::GreaterEq,
                TokenKind::Less(_, _) => BinaryOp::Less,
                TokenKind::LessEq(_, _) => BinaryOp::LessEq,
                _ => BinaryOp::NoneOp,
            };
            let stop = match bop {
                BinaryOp::NoneOp => true,
                _ => false,
            };
            if stop {
                break ;
            }
            self.advance();
            let right = match self.term() {
                Ok(v) => v,
                Err(e) => {
                    return Err(e);
                },
            };
            expr = Binary::new(expr, right, bop);
        }
        Ok(expr)
    }

    /// Left-associative `+` and `-`.
    fn term(&mut self) -> (r: ParseResult<Box<Node>>)
        requires
            old(self).wf(),
        ensures
            pstep(*old(self), *final(self)),
            final(self).declarations == old(self).declarations,
            final(self).diagnostics == old(self).diagnostics,
            match r {
                Ok(n) => plt(*final(self), *old(self)) && is_expr_node(*n),
                Err(_) => true,
            },
        decreases rem(*self), live(*self), 4int,
    {
        broadcast use lemma_prefix_trans;

        let mut expr = match self.factor() {
            Ok(v) => v,
            Err(e) => {
                return Err(e);
            },
        };
        loop
            invariant
                self.wf(),
                self.tokenizer.source == old(self).tokenizer.source,
                self.declarations == old(self).declarations,
                self.diagnostics == old(self).diagnostics,
                plt(*self, *old(self)),
                is_expr_node(*expr),
            decreases rem(*self), live(*self),
        {
            let bop = match &self.current {
                TokenKind::Plus(_, _) => BinaryOp::Add,
                TokenKind::Minus(_, _) => BinaryOp::Sub,
                _ => BinaryOp::NoneOp,
            };
            let stop = match bop {
                BinaryOp::NoneOp => true,
                _ => false,
            };
            if stop {
                break ;
            }
            self.advance();
            let right = match self.factor() {
                Ok(v) => v,
                Err(e) => {
                    return Err(e);
                },
            };
            expr = Binary::new(expr, right, bop);
        }
        Ok(expr)
    }

    /// Left-associative `*` and `/`.
    fn factor(&mut self) -> (r: ParseResult<Box<Node>>)
        requires
            old(self).wf(),
        ensures
            pstep(*old(self), *final(self)),
            final(self).declarations == old(self).declarations,
            final(self).diagnostics == old(self).diagnostics,
            match r {
                Ok(n) => plt(*final(self), *old(self)) && is_expr_node(*n),
                Err(_) => true,
            },
        decreases rem(*self), live(*self), 3int,
    {
        broadcast use lemma_prefix_trans;

        let mut expr = match self.get_ptr() {
            Ok(v) => v,
            Err(e) => {
                return Err(e);
            },
        };
        loop
            invariant
                self.wf(),
                self.tokenizer.source == old(self).tokenizer.source,
                self.declarations == old(self).declarations,
                self.diagnostics == old(self).diagnostics,
                plt(*self, *old(self)),
                is_expr_node(*expr),
            decreases rem(*self), live(*self),
        {
            let bop = match &self.current {
                TokenKind::Slash(_, _) => BinaryOp::Div,
                TokenKind::Star(_, _) => BinaryOp::Mul,
                _ => BinaryOp::NoneOp,
            };
            let stop = match bop {
                BinaryOp::NoneOp => true,
                _ => false,
            };
            if stop {
                break ;
            }
            self.advance();
            let right = match self.get_ptr() {
                Ok(v) => v,
                Err(e) => {
                    return Err(e);
                },
            };
            expr = Binary::new(expr, right, bop);
        }
        Ok(expr)
    }

    /// Right-recursive address-of `&`.
    fn get_ptr(&mut self) -> (r: ParseResult<Box<Node>>)
        requires
            old(self).wf(),
        ensures
            pstep(*old(self), *final(self)),
            final(self).declarations == old(self).declarations,
            final(self).diagnostics == old(self).diagnostics,
            match r {
                Ok(n) => plt(*final(self), *old(self)) && is_expr_node(*n),
                Err(_) => true,
            },
        decreases rem(*self), live(*self), 2int,
    {
        broadcast use lemma_prefix_trans;

        let is_amp = match &self.current {
            TokenKind::GetPtr(_, _) => true,
            _ => false,
        };
        if is_amp {
            self.advance();
            let expr = match self.get_ptr() {
                Ok(v) => v,
                Err(e) => {
                    return Err(e);
                },
            };
            Ok(GetPtr::new(expr))
        } else {
            self.unary()
        }
    }

    /// Right-recursive unary `!` and `-`.
    fn unary(&mut self) -> (r: ParseResult<Box<Node>>)
        requires
            old(self).wf(),
        ensures
            pstep(*old(self), *final(self)),
            final(self).declarations == old(self).declarations,
            final(self).diagnostics == old(self).diagnostics,
            match r {
                Ok(n) => plt(*final(self), *old(self)) && is_expr_node(*n),
                Err(_) => true,
            },
        decreases rem(*self), live(*self), 1int,
    {
        broadcast use lemma_prefix_trans;

        let uop = match &self.current {
            TokenKind::Bang(_, _) => UnaryOp::Not,
            TokenKind::Minus(_, _) => UnaryOp::Negate,
            _ => UnaryOp::NoneOp,
        };
        let loc = match &self.current {
            TokenKind::Eof => (0, 0),
            tok => get_tok_loc(tok),
        };
        let is_op = match uop {
            UnaryOp::NoneOp => false,
            _ => true,
        };
        if is_op {
            self.advance();
            let expr = match self.unary() {
                Ok(v) => v,
                Err(e) => {
                    return Err(e);
                },
            };
            return Ok(Unary::new(uop, loc, expr));
        }
        self.primary()
    }

    /// A literal, an identifier, or an array literal where an array context
    /// is open. A bare `{` outside an array context and a `{` nested inside
    /// an array literal are each refused.
    fn primary(&mut self) -> (r: ParseResult<Box<Node>>)
        requires
            old(self).wf(),
        ensures
            pstep(*old(self), *final(self)),
            final(self).declarations == old(self).declarations,
            final(self).diagnostics == old(self).diagnostics,
            match r {
                Ok(n) => plt(*final(self), *old(self)) && is_expr_node(*n),
                Err(_) => true,
            },
            final(self).declarations == old(self).declarations,
            final(self).diagnostics == old(self).diagnostics,
            (old(self).current@ is LeftBrace && old(self).ctx is NoneCtx) ==> r is Err,
            (old(self).current@ is LeftBrace && old(self).ctx is ArrayLiteral) ==> r is Err,
        decreases rem(*self), live(*self), 0int,
    {
        broadcast use lemma_prefix_trans;

        let node: Box<Node> = match &self.current {
            TokenKind::True(line, column) => {
                let n = Box::new(
                    Node::BoolLiteral(
                        true,
                        TaggedType::new(0, TypeKind::NoneKind, None),
                        *line,
                        *column,
                    ),
                );
                self.advance();
                n
            },
            TokenKind::False(line, column) => {
                let n = Box::new(
                    Node::BoolLiteral(
                        false,
                        TaggedType::new(0, TypeKind::NoneKind, None),
                        *line,
                        *column,
                    ),
                );
                self.advance();
                n
            },
            TokenKind::IntLiteral(integer, line, column) => {
                let n = Box::new(
                    Node::Number(
                        integer.clone(),
                        TaggedType::new(0, TypeKind::NoneKind, None),
                        *line,
                        *column,
                    ),
                );
                self.advance();
                n
            },
            TokenKind::FloatLiteral(float, line, column) => {
                let n = Box::new(
                    Node::Float(
                        float.clone(),
                        TaggedType::new(0, TypeKind::NoneKind, None),
                        *line,
                        *column,
                    ),
                );
                self.advance();
                n
            },
            TokenKind::StrLiteral(string, line, column) => {
                let n = Box::new(Node::StringLiteral(string.clone(), *line, *column));
                self.advance();
                n
            },
            TokenKind::IdenLiteral(ident, line, column) => {
                let n = Box::new(Node::VarGet(ident.clone(), *line, *column));
                self.advance();
                n
            },
            TokenKind::LeftBrace(l0, c0) => {
                let line = *l0;
                let column = *c0;
                let size: usize = match &self.ctx {
                    ParserContext::ArrayParse(size) => {
                        match size {
                            Some(s) => *s as usize,
                            None => 0,
                        }
                    },
                    ParserContext::ArrayLiteral => {
                        return Err(
                            self.error(String::from_str("Nested arrays are not supported")),
                        );
                    },
                    ParserContext::NoneCtx => {
                        return Err(
                            self.error(
                                String::from_str(
                                    "can only use '{' in expressions where variable is an array",
                                ),
                            ),
                        );
                    },
                };
                self.ctx = ParserContext::ArrayLiteral;
                let mut items: Vec<Box<Node>> = Vec::new();
                self.advance();
                loop
                    invariant
                        self.wf(),
                        self.tokenizer.source == old(self).tokenizer.source,
                        self.declarations == old(self).declarations,
                        self.diagnostics == old(self).diagnostics,
                        plt(*self, *old(self)),
                    decreases rem(*self), live(*self),
                {
                    let expr = match self.expr() {
                        Ok(v) => v,
                        Err(e) => {
                            return Err(e);
                        },
                    };
                    items.push(expr);
                    let is_comma = match &self.current {
                        TokenKind::Comma(_, _) => true,
                        _ => false,
                    };
                    if !is_comma {
                        break ;
                    }
                    self.advance();
                }
                let is_rbrace = match &self.current {
                    TokenKind::RightBrace(_, _) => true,
                    _ => false,
                };
                if !is_rbrace {
                    return Err(self.error(String::from_str("expected a '}'")));
                }
                if size != 0 && items.len() != size {
                    let mut msg = String::from_str("Declared array size is ");
                    let s1 = crate::util::usize_to_string(size);
                    msg.append(s1.as_str());
                    msg.append(" while the array literal size is ");
                    let s2 = crate::util::usize_to_string(items.len());
                    msg.append(s2.as_str());
                    return Err(self.error(msg));
                }
                if items.len() == 0 {
                    return Err(self.error(String::from_str("Empty arrays are disallowed")));
                }
                let n = Box::new(
                    Node::ArrayLiteral(
                        items,
                        TaggedType::new(0, TypeKind::NoneKind, None),
                        line,
                        column,
                    ),
                );
                self.advance();
                n
            },
            _ => {
                return Err(self.error(String::from_str("unexpected token")));
            },
        };
        Ok(node)
    }
}

} // verus!
