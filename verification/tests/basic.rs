use curlyc::ast::{Binary, BinaryOp, Node};
use curlyc::ins::{Function, Instruction};
use curlyc::reg::{RegisterLabel, RegisterManager, RegisterSize};
use curlyc::reveng::{reverse_binary, reverse_op};
use curlyc::ssir::SSir;
use curlyc::tmp::{BinaryTmp, TmpChild, TmpNode, ValueTmp};
use curlyc::tokenizer::{get_tok_len, get_tok_loc, TokenKind, Tokenizer};
use curlyc::transform::RegisterLabeler;
use curlyc::typechecker::{literal_fits, TaggedType, Type, TypeKind};

#[test]
fn tokenizer_scans_declaration() {
    let mut t = Tokenizer::new("z := 111;");
    assert!(matches!(t.next(), Some(TokenKind::IdenLiteral(s, 1, 2)) if s == "z"));
    assert!(matches!(t.next(), Some(TokenKind::ColonEq(1, 5))));
    match t.next() {
        Some(TokenKind::IntLiteral(s, 1, 9)) => assert_eq!(s, "111"),
        other => panic!("unexpected token {:?}", other),
    }
    assert!(matches!(t.next(), Some(TokenKind::ExprDelimiter(1, 10))));
    assert!(t.next().is_none());
}

#[test]
fn tokenizer_keywords_and_operators() {
    let mut t = Tokenizer::new("func if else := == != <= >= && || -> & ret");
    assert!(matches!(t.next(), Some(TokenKind::Func(_, _))));
    assert!(matches!(t.next(), Some(TokenKind::If(_, _))));
    assert!(matches!(t.next(), Some(TokenKind::Else(_, _))));
    assert!(matches!(t.next(), Some(TokenKind::ColonEq(_, _))));
    assert!(matches!(t.next(), Some(TokenKind::EqualEqual(_, _))));
    assert!(matches!(t.next(), Some(TokenKind::NotEqual(_, _))));
    assert!(matches!(t.next(), Some(TokenKind::LessEq(_, _))));
    assert!(matches!(t.next(), Some(TokenKind::GreaterEq(_, _))));
    assert!(matches!(t.next(), Some(TokenKind::And(_, _))));
    assert!(matches!(t.next(), Some(TokenKind::Or(_, _))));
    assert!(matches!(t.next(), Some(TokenKind::Arrow(_, _))));
    assert!(matches!(t.next(), Some(TokenKind::GetPtr(_, _))));
    assert!(matches!(t.next(), Some(TokenKind::Ret(_, _))));
}

#[test]
fn tokenizer_skips_comments_and_strings() {
    let mut t = Tokenizer::new("// nothing here\nx \"ab\"");
    assert!(matches!(t.next(), Some(TokenKind::ExprDelimiter(2, 1))));
    assert!(matches!(t.next(), Some(TokenKind::IdenLiteral(s, _, _)) if s == "x"));
    match t.next() {
        Some(TokenKind::StrLiteral(s, _, _)) => assert_eq!(s, "ab"),
        other => panic!("unexpected token {:?}", other),
    }
}

#[test]
fn tokenizer_peek_ahead_restores_cursor() {
    let mut t = Tokenizer::new("a := 1");
    let _first = t.next();
    let peeked = t.peek_ahead();
    let real = t.next();
    assert_eq!(format!("{:?}", peeked), format!("{:?}", real));
}

#[test]
fn token_lengths() {
    assert_eq!(get_tok_len(&TokenKind::Func(1, 5)), 4);
    assert_eq!(get_tok_len(&TokenKind::False(1, 6)), 5);
    assert_eq!(get_tok_len(&TokenKind::IntLiteral(String::from("300"), 1, 4)), 3);
    assert_eq!(get_tok_len(&TokenKind::StrLiteral(String::from("ab"), 1, 5)), 4);
    assert_eq!(get_tok_loc(&TokenKind::Colon(3, 7)), (3, 7));
}

#[test]
fn reverse_binary_involution_on_ops() {
    let ops = [
        BinaryOp::Equal,
        BinaryOp::NotEqual,
        BinaryOp::Greater,
        BinaryOp::GreaterEq,
        BinaryOp::Less,
        BinaryOp::LessEq,
    ];
    for op in ops {
        assert_eq!(reverse_op(reverse_op(op)), op);
    }
    assert_eq!(reverse_op(BinaryOp::Equal), BinaryOp::NotEqual);
    assert_eq!(reverse_op(BinaryOp::Greater), BinaryOp::LessEq);
    assert_eq!(reverse_op(BinaryOp::Add), BinaryOp::Add);
}

#[test]
fn reverse_binary_flips_nested_comparison() {
    let lhs = Box::new(Node::VarGet(String::from("z"), 1, 1));
    let rhs = Box::new(Node::Number(String::from("222"), TaggedType::new(0, TypeKind::NoneKind, None), 1, 5));
    let cond = Binary::new(lhs, rhs, BinaryOp::Equal);
    let rev = reverse_binary(cond);
    match *rev {
        Node::Binary(b) => assert_eq!(b.op, BinaryOp::NotEqual),
        other => panic!("unexpected node {:?}", other),
    }
}

#[test]
fn literal_ranges() {
    assert!(literal_fits("255", 255));
    assert!(!literal_fits("300", 255));
    assert!(literal_fits("0", 127));
    assert!(!literal_fits("abc", 255));
    assert!(!literal_fits("", 255));
    assert!(literal_fits("007", 127));
}

#[test]
fn type_equality_ignores_missing_signedness() {
    let a = Type::new(String::from("bool"), 1, TypeKind::Bool, None);
    let b = Type::new(String::from("bool"), 1, TypeKind::Bool, Some(false));
    assert!(a.same_type(&b));
    let c = Type::new(String::from("i32"), 4, TypeKind::Numeric, Some(true));
    assert!(!a.same_type(&c));
}

#[test]
fn register_allocation_first_free_of_width() {
    let mut m = RegisterManager::new();
    assert_eq!(m.allocate(RegisterSize::Dword), Ok(RegisterLabel::Eax));
    assert_eq!(m.allocate(RegisterSize::Dword), Ok(RegisterLabel::Ebx));
    assert_eq!(m.allocate(RegisterSize::Byte), Ok(RegisterLabel::Al));
    m.deallocate_all();
    assert_eq!(m.allocate(RegisterSize::Dword), Ok(RegisterLabel::Eax));
}

#[test]
fn register_exhaustion_reported() {
    let mut m = RegisterManager::new();
    for _ in 0..8 {
        assert!(m.allocate(RegisterSize::Oword).is_ok());
    }
    assert!(m.allocate(RegisterSize::Oword).is_err());
}

#[test]
fn labeler_assigns_and_forwards_registers() {
    // tmp2 = load x; tmp3 = tmp2 + 50 reuses tmp2's register.
    let t32 = TaggedType::new(4, TypeKind::Numeric, Some(true));
    let mut f = Function::new(String::from("main"));
    f.add_ins(Instruction::TmpNode(
        TmpNode::ValueTmp(ValueTmp::new(TmpChild::LoadVar(String::from("x"), t32), 2)),
        t32,
        None,
    ));
    f.add_ins(Instruction::TmpNode(
        TmpNode::BinaryTmp(BinaryTmp::new(
            TmpChild::TmpRef(2, t32, None),
            TmpChild::Literal(String::from("50"), t32),
            BinaryOp::Add,
            3,
            t32,
        )),
        t32,
        None,
    ));
    let mut labeler = RegisterLabeler::new();
    let out = labeler.assign_labels(vec![f]).expect("labeling");
    assert_eq!(out.len(), 1);
    match &out[0].instructions[0] {
        Instruction::TmpNode(_, _, label) => assert_eq!(*label, Some(RegisterLabel::Eax)),
        other => panic!("unexpected instruction {:?}", other),
    }
    match &out[0].instructions[1] {
        Instruction::TmpNode(TmpNode::BinaryTmp(b), _, label) => {
            assert_eq!(*label, Some(RegisterLabel::Eax));
            match &b.lhs {
                TmpChild::TmpRef(2, _, slot) => assert_eq!(*slot, Some(RegisterLabel::Eax)),
                other => panic!("unexpected operand {:?}", other),
            }
        },
        other => panic!("unexpected instruction {:?}", other),
    }
}

#[test]
fn labeler_comparison_takes_byte_register() {
    let t32 = TaggedType::new(4, TypeKind::Numeric, Some(true));
    let tb = TaggedType::new(1, TypeKind::Bool, None);
    let mut f = Function::new(String::from("main"));
    f.add_ins(Instruction::TmpNode(
        TmpNode::BinaryTmp(BinaryTmp::new(
            TmpChild::Literal(String::from("1"), t32),
            TmpChild::Literal(String::from("2"), t32),
            BinaryOp::Equal,
            2,
            t32,
        )),
        tb,
        None,
    ));
    let mut labeler = RegisterLabeler::new();
    let out = labeler.assign_labels(vec![f]).expect("labeling");
    match &out[0].instructions[0] {
        Instruction::TmpNode(_, _, label) => assert_eq!(*label, Some(RegisterLabel::Al)),
        other => panic!("unexpected instruction {:?}", other),
    }
}

#[test]
fn labeler_second_run_keeps_assignments() {
    let t32 = TaggedType::new(4, TypeKind::Numeric, Some(true));
    let mut f = Function::new(String::from("main"));
    f.add_ins(Instruction::TmpNode(
        TmpNode::ValueTmp(ValueTmp::new(TmpChild::LoadVar(String::from("x"), t32), 2)),
        t32,
        None,
    ));
    let mut labeler = RegisterLabeler::new();
    let once = labeler.assign_labels(vec![f]).expect("labeling");
    let snapshot = format!("{:?}", once);
    let mut labeler2 = RegisterLabeler::new();
    let twice = labeler2.assign_labels(once).expect("relabeling");
    assert_eq!(snapshot, format!("{:?}", twice));
}

#[test]
fn builder_lowers_declaration_with_pop() {
    // func main { z := 111; } with the declaration already tagged i32.
    let t32 = TaggedType::new(4, TypeKind::Numeric, Some(true));
    let value = Box::new(Node::Number(String::from("111"), t32, 1, 10));
    let decl = curlyc::ast::VarDecl::new(String::from("z"), (1, 6), None, t32, value);
    let body = curlyc::ast::Block::new(vec![decl]);
    let func = curlyc::ast::Function::new(String::from("main"), (1, 5), Vec::new(), body, TaggedType::new(0, TypeKind::NoneKind, None), None);
    let mut ssir = SSir::new();
    ssir.generate(vec![func]).expect("lowering");
    let fns = ssir.get_functions();
    assert_eq!(fns.len(), 1);
    assert_eq!(fns[0].name, "main");
    assert_eq!(fns[0].instructions.len(), 2);
    assert!(matches!(&fns[0].instructions[0], Instruction::VarDecl(n, TmpChild::Literal(v, _), _) if n == "z" && v == "111"));
    assert!(matches!(&fns[0].instructions[1], Instruction::Pop));
}

#[test]
fn builder_inverts_if_condition_and_reserves_labels() {
    // func main { z := 111; if z == 222 { z = 333; } else { z = 444; } }
    let t32 = TaggedType::new(4, TypeKind::Numeric, Some(true));
    let decl = curlyc::ast::VarDecl::new(
        String::from("z"),
        (2, 6),
        None,
        t32,
        Box::new(Node::Number(String::from("111"), t32, 2, 10)),
    );
    let cond = Binary::new(
        Box::new(Node::VarGet(String::from("z"), 3, 8)),
        Box::new(Node::Number(String::from("222"), t32, 3, 15)),
        BinaryOp::Equal,
    );
    let then_block = curlyc::ast::Block::new(vec![curlyc::ast::Assign::new(
        String::from("z"),
        (4, 9),
        Box::new(Node::Number(String::from("333"), t32, 4, 14)),
    )]);
    let else_block = curlyc::ast::Block::new(vec![curlyc::ast::Assign::new(
        String::from("z"),
        (6, 9),
        Box::new(Node::Number(String::from("444"), t32, 6, 14)),
    )]);
    let ifs = curlyc::ast::If::new(cond, then_block, Some(else_block));
    let body = curlyc::ast::Block::new(vec![decl, ifs]);
    let func = curlyc::ast::Function::new(
        String::from("main"),
        (1, 5),
        Vec::new(),
        body,
        TaggedType::new(0, TypeKind::NoneKind, None),
        None,
    );
    let mut ssir = SSir::new();
    ssir.generate(vec![func]).expect("lowering");
    let fns = ssir.get_functions();
    assert_eq!(fns.len(), 1);
    // the If instruction carries the inverted comparison
    let mut found_if = false;
    for ins in &fns[0].instructions {
        if let Instruction::If(TmpNode::BinaryTmp(b)) = ins {
            assert_eq!(b.op, BinaryOp::NotEqual);
            found_if = true;
        }
    }
    assert!(found_if);
    // exactly one then-label and the reserved join label, ids increasing
    assert_eq!(fns[0].labels.len(), 2);
    assert_eq!(fns[0].labels[0].id, 1);
    assert_eq!(fns[0].labels[1].id, 2);
    assert!(matches!(fns[0].labels[1].instructions.last(), Some(Instruction::Pop)));
}
