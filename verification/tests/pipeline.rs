use curlyc::ast::{BinaryOp, Node};
use curlyc::ins::Instruction;
use curlyc::parser::Parser;
use curlyc::reg::RegisterLabel;
use curlyc::ssir::SSir;
use curlyc::tmp::{TmpChild, TmpNode};
use curlyc::tokenizer::Tokenizer;
use curlyc::transform::RegisterLabeler;
use curlyc::typechecker::{TypeCheck, TypeError, TypeKind};

fn parse_source(src: &str) -> Parser {
    let tokenizer = Tokenizer::new(src);
    let mut parser = Parser::new(tokenizer);
    parser.parse();
    parser
}

fn check_decls(parser: Parser) -> Result<Vec<Box<Node>>, TypeError> {
    assert!(parser.diagnostics.is_empty(), "unexpected diagnostics: {:?}", parser.diagnostics[0].message);
    let mut checker = TypeCheck::new();
    let mut out = Vec::new();
    for decl in parser.declarations {
        let (node, _) = checker.check(decl)?;
        out.push(node);
    }
    Ok(out)
}

#[test]
fn bare_brace_outside_array_context_is_rejected() {
    let parser = parse_source("z := {1, 2}\n");
    assert_eq!(parser.declarations.len(), 0);
    assert_eq!(parser.diagnostics.len(), 1);
    assert_eq!(
        parser.diagnostics[0].message,
        "can only use '{' in expressions where variable is an array"
    );
}

#[test]
fn array_size_mismatch_is_rejected() {
    let parser = parse_source("var x: i32[2] = {1, 2, 3}\n");
    assert_eq!(parser.declarations.len(), 0);
    assert_eq!(parser.diagnostics.len(), 1);
    assert_eq!(
        parser.diagnostics[0].message,
        "Declared array size is 2 while the array literal size is 3"
    );
}

#[test]
fn nested_array_literal_is_rejected() {
    let parser = parse_source("var x: i32[] = {1, {2}}\n");
    assert_eq!(parser.declarations.len(), 0);
    assert_eq!(parser.diagnostics.len(), 1);
    assert_eq!(parser.diagnostics[0].message, "Nested arrays are not supported");
}

#[test]
fn u8_overflow_is_rejected() {
    let parser = parse_source("func main { var x: u8 = 300; }");
    let err = check_decls(parser).unwrap_err();
    assert_eq!(err, TypeError::Overflow(String::from("300")));
}

#[test]
fn float_into_integer_annotation_is_rejected() {
    let parser = parse_source("func main { var x: i32 = 1.5; }");
    let err = check_decls(parser).unwrap_err();
    assert_eq!(err, TypeError::ExplicitTypeMismatch);
}

#[test]
fn ptr_plus_bool_is_rejected() {
    let parser = parse_source("func main(a: ptr, b: bool) { z := a + b; }");
    let err = check_decls(parser).unwrap_err();
    assert_eq!(err, TypeError::BinaryOperandsDiffer);
}

#[test]
fn rechecking_checked_output_is_a_fixed_point() {
    let src = "func main { x := 10 + 5; z := x + 50 - 1; z = 4210; }";
    let once = check_decls(parse_source(src)).expect("first check");
    let again = check_decls(parse_source(src)).expect("re-parse check");
    assert_eq!(once, again);
    // run the checker a second time over its own output
    let mut checker = TypeCheck::new();
    let mut twice = Vec::new();
    for decl in once {
        let (node, _) = checker.check(decl).expect("second check");
        twice.push(node);
    }
    assert_eq!(again, twice);
}

#[test]
fn if_condition_is_inverted_with_one_then_label_and_join_pop() {
    let src = "func main { z := 111;\nif z == 222 { z = 333; } else { z = 444; } }";
    let decls = check_decls(parse_source(src)).expect("check");
    let mut ssir = SSir::new();
    ssir.generate(decls).expect("lowering");
    let fns = ssir.get_functions();
    assert_eq!(fns.len(), 1);
    assert_eq!(fns[0].name, "main");
    let mut if_count = 0;
    for ins in &fns[0].instructions {
        if let Instruction::If(TmpNode::BinaryTmp(b)) = ins {
            assert_eq!(b.op, BinaryOp::NotEqual);
            if_count += 1;
        }
    }
    assert_eq!(if_count, 1);
    assert_eq!(fns[0].labels.len(), 2);
    assert!(fns[0].labels[0].id < fns[0].labels[1].id);
    // the then-label ends jumping to the join label; the join label opens with Pop
    assert!(matches!(
        fns[0].labels[0].instructions.last(),
        Some(Instruction::Jump(id)) if *id == fns[0].labels[1].id
    ));
    assert!(matches!(fns[0].labels[1].instructions.first(), Some(Instruction::Pop)));
}

#[test]
fn assign_of_plain_literal_is_outside_the_labeler() {
    // the labeler does not process an assignment temporary whose operand
    // is a literal rather than a reference
    let src = "func main { z := 1; z = 4210; }";
    let decls = check_decls(parse_source(src)).expect("check");
    let mut ssir = SSir::new();
    ssir.generate(decls).expect("lowering");
    let mut labeler = RegisterLabeler::new();
    let out = labeler.assign_labels(ssir.get_functions());
    assert!(matches!(out, Err(curlyc::transform::LabelError::MalformedTmp)));
}

#[test]
fn i32_chain_reuses_one_register() {
    let src = "func main { x := 10 + 5; z := x + 50 - 1; }";
    let decls = check_decls(parse_source(src)).expect("check");
    let mut ssir = SSir::new();
    ssir.generate(decls).expect("lowering");
    let mut labeler = RegisterLabeler::new();
    let out = labeler.assign_labels(ssir.get_functions()).expect("labeling");
    assert_eq!(out.len(), 1);
    // find the load of x and the two arithmetic binaries of the chain
    let mut load_reg = None;
    let mut chain_regs = Vec::new();
    for ins in &out[0].instructions {
        match ins {
            Instruction::TmpNode(TmpNode::ValueTmp(v), _, label) => {
                if matches!(&v.value, TmpChild::LoadVar(n, _) if n == "x") {
                    load_reg = *label;
                }
            },
            Instruction::TmpNode(TmpNode::BinaryTmp(b), _, label) => {
                let has_ref = matches!(b.lhs, TmpChild::TmpRef(_, _, _)) || matches!(
                    b.rhs,
                    TmpChild::TmpRef(_, _, _)
                );
                if has_ref && (b.op == BinaryOp::Add || b.op == BinaryOp::Sub) {
                    chain_regs.push(*label);
                }
            },
            _ => {},
        }
    }
    let load_reg = load_reg.expect("load of x");
    assert_eq!(load_reg, RegisterLabel::Eax);
    assert_eq!(chain_regs.len(), 2);
    for r in chain_regs {
        assert_eq!(r, Some(load_reg));
    }
}

#[test]
fn array_declaration_gets_total_byte_size() {
    let src = "func main { var x: i32[] = {2, 2, 3}; }";
    let decls = check_decls(parse_source(src)).expect("check");
    // walk: Function -> Block -> VarDecl
    let body = match &*decls[0] {
        Node::Function(f) => &f.body,
        other => panic!("unexpected node {:?}", other),
    };
    let stmts = match &**body {
        Node::Block(b) => &b.statements,
        other => panic!("unexpected node {:?}", other),
    };
    match &*stmts[0] {
        Node::VarDecl(d) => {
            assert_eq!(d.dtype.size, 12);
            assert_eq!(d.dtype.kind, TypeKind::Numeric);
            assert_eq!(d.dtype.signed, Some(true));
        },
        other => panic!("unexpected node {:?}", other),
    }
}

#[test]
fn u8_annotation_narrows_fitting_literals() {
    let src = "func main { var x: u8 = 200 + 55; }";
    let decls = check_decls(parse_source(src)).expect("check");
    let body = match &*decls[0] {
        Node::Function(f) => &f.body,
        other => panic!("unexpected node {:?}", other),
    };
    let stmts = match &**body {
        Node::Block(b) => &b.statements,
        other => panic!("unexpected node {:?}", other),
    };
    match &*stmts[0] {
        Node::VarDecl(d) => {
            assert_eq!(d.dtype.size, 1);
            match &*d.value {
                Node::Binary(b) => {
                    for side in [&b.lhs, &b.rhs] {
                        match &**side {
                            Node::Number(text, tag, _, _) => {
                                assert!(text == "200" || text == "55");
                                assert_eq!(tag.size, 1);
                                assert_eq!(tag.signed, Some(false));
                            },
                            other => panic!("unexpected node {:?}", other),
                        }
                    }
                },
                other => panic!("unexpected node {:?}", other),
            }
        },
        other => panic!("unexpected node {:?}", other),
    }
    let over = check_decls(parse_source("func main { var y: u8 = 300; }"));
    assert_eq!(over.unwrap_err(), TypeError::Overflow(String::from("300")));
}

#[test]
fn i16_chain_takes_word_registers() {
    let src = "func main { var x: i16 = 10; var z: i16 = 10 + x + 50; }";
    let decls = check_decls(parse_source(src)).expect("check");
    let mut ssir = SSir::new();
    ssir.generate(decls).expect("lowering");
    let mut labeler = RegisterLabeler::new();
    let out = labeler.assign_labels(ssir.get_functions()).expect("labeling");
    let mut saw_ax = false;
    for ins in &out[0].instructions {
        if let Instruction::TmpNode(_, tipe, label) = ins {
            if tipe.size == 2 {
                let reg = label.expect("labeled");
                let word = matches!(
                    reg,
                    RegisterLabel::Ax | RegisterLabel::Bx | RegisterLabel::Cx | RegisterLabel::Dx
                        | RegisterLabel::Si | RegisterLabel::Di | RegisterLabel::Bp
                        | RegisterLabel::Sp | RegisterLabel::R8w | RegisterLabel::R9w
                        | RegisterLabel::R10w | RegisterLabel::R11w | RegisterLabel::R12w
                        | RegisterLabel::R13w | RegisterLabel::R14w | RegisterLabel::R15w
                );
                assert!(word, "expected a word register, got {:?}", reg);
                if reg == RegisterLabel::Ax {
                    saw_ax = true;
                }
            }
        }
    }
    assert!(saw_ax);
}

#[test]
fn address_of_yields_pointer_type() {
    let src = "func main(y: i32) { x := &y; }";
    let decls = check_decls(parse_source(src)).expect("check");
    let body = match &*decls[0] {
        Node::Function(f) => &f.body,
        other => panic!("unexpected node {:?}", other),
    };
    let stmts = match &**body {
        Node::Block(b) => &b.statements,
        other => panic!("unexpected node {:?}", other),
    };
    match &*stmts[0] {
        Node::VarDecl(d) => {
            assert_eq!(d.dtype.size, 8);
            assert_eq!(d.dtype.kind, TypeKind::Numeric);
            assert_eq!(d.dtype.signed, Some(false));
        },
        other => panic!("unexpected node {:?}", other),
    }
}

#[test]
fn parser_recovers_and_keeps_good_declarations() {
    let parser = parse_source("func one { a := 1; }\nvar 5\nfunc two { b := 2; }\n");
    assert_eq!(parser.declarations.len(), 2);
    assert!(parser.diagnostics.len() >= 1);
    assert_eq!(parser.diagnostics[0].message, "expected an identifier");
}

#[test]
fn diagnostics_render_with_position_and_caret_line() {
    let parser = parse_source("var x: i32[2] = {1, 2, 3}\n");
    let text = parser.diagnostics[0].render();
    assert!(text.starts_with("1:"));
    assert!(text.contains("Declared array size is 2 while the array literal size is 3\n"));
    assert!(text.ends_with("~"));
}

#[test]
fn unknown_type_and_variable_are_reported() {
    let parser = parse_source("func main { var x: q99 = 1; }");
    let err = check_decls(parser).unwrap_err();
    assert_eq!(err, TypeError::UndefinedType(String::from("q99")));
    let parser2 = parse_source("func main { z = 3; }");
    let err2 = check_decls(parser2).unwrap_err();
    assert_eq!(err2, TypeError::UndefinedVariable(String::from("z")));
}

#[test]
fn logical_operands_must_agree() {
    let parser = parse_source("func main(a: bool, b: i32) { z := a && b; }");
    let err = check_decls(parser).unwrap_err();
    assert_eq!(err, TypeError::InvalidLogical);
}

#[test]
fn if_condition_must_be_bool() {
    let parser = parse_source("func main { x := 1; if x { x = 2; } }");
    let err = check_decls(parser).unwrap_err();
    assert_eq!(err, TypeError::ConditionNotBool);
}
