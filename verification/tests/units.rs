use lib::asmgen::{assembly, operand_is_n};
use lib::error::{CompileError, ErrorKind};
use lib::irgen::IR;
use lib::lex::{Lexer, Pos, Tok, TokKind};
use lib::names::NameMap;
use lib::optimise::Optimiser;
use lib::parse::AST;
use lib::preprocess::Processor;
use lib::represent::{Context, Instr, InstrKind, Label, Operand, Register, RegisterSize, Var};
use lib::text::{bytes_eq, push_decimal, push_signed_decimal};
use lib::types::{Analyser, Datatype};

fn lexed(src: &str) -> Result<Lexer, CompileError> {
    let mut lexer = Lexer::new(src.as_bytes().to_vec(), "unit.zod");
    lexer.tokenize()?;
    lexer.lex()?;
    Ok(lexer)
}

fn kinds(lexer: &Lexer) -> Vec<TokKind> {
    lexer.toks.iter().map(|t| t.kind).collect()
}

fn checked(src: &str) -> Result<AST, CompileError> {
    let mut lexer = lexed(src)?;
    let mut ast = AST::new();
    ast.construct(&mut lexer)?;
    let mut analyser = Analyser::new();
    analyser.typecheck_ast(&mut ast)?;
    Ok(ast)
}

fn generated_err(src: &str) -> ErrorKind {
    let ast = checked(src).expect("program checks");
    let mut ir = IR::new(&ast);
    ir.generate().expect_err("generation fails").kind
}

#[test]
fn lexer_gives_kinds_to_tokens() {
    let lexer = lexed("i64^ x = 42 ; while x >= 10 && y != 'a' { }\n").unwrap();
    assert_eq!(
        kinds(&lexer),
        vec![
            TokKind::TypeInt64Ptr,
            TokKind::Ident,
            TokKind::Assign,
            TokKind::Int,
            TokKind::End,
            TokKind::While,
            TokKind::Ident,
            TokKind::GE,
            TokKind::Int,
            TokKind::LogAnd,
            TokKind::Ident,
            TokKind::NotEqual,
            TokKind::Char,
            TokKind::OScope,
            TokKind::CScope,
        ]
    );
    assert_eq!(lexer.toks[12].val, b"a".to_vec());
    assert_eq!(lexer.toks[1].pos.row, 0);
    assert_eq!(lexer.toks[1].pos.col, 5);
    assert_eq!(lexer.cur, 0);
}

#[test]
fn lexer_strings_end_with_a_null_byte() {
    let lexer = lexed("\"hi\\n\" x\n").unwrap();
    assert_eq!(lexer.toks[0].kind, TokKind::String);
    assert_eq!(lexer.toks[0].val, b"hi\n\0".to_vec());
}

#[test]
fn lexer_skips_comments() {
    let lexer = lexed("a // b c\nd\n").unwrap();
    assert_eq!(lexer.toks.len(), 2);
    assert_eq!(lexer.toks[1].val, b"d".to_vec());
    assert_eq!(lexer.toks[1].pos.row, 1);
}

#[test]
fn lexer_rejects_bad_escape() {
    let err = lexed("'\\q' \n").err().unwrap();
    assert_eq!(err.kind, ErrorKind::InvalidEscape(b'q'));
}

#[test]
fn lexer_rejects_bad_identifier_byte() {
    let err = lexed("a`b \n").err().unwrap();
    assert_eq!(err.kind, ErrorKind::InvalidIdentChar(b'`'));
}

#[test]
fn lexer_rejects_unknown_symbol() {
    let err = lexed("x . y\n").err().unwrap();
    assert_eq!(err.kind, ErrorKind::InvalidToken);
    assert_eq!(err.text, b".".to_vec());
}

#[test]
fn lexer_cursor_and_expectations() {
    let mut lexer = lexed("void f ( ) x\n").unwrap();
    assert!(lexer.has_token());
    assert_eq!(lexer.peek_token().kind, TokKind::TypeVoid);
    assert_eq!(lexer.peek_next_token().kind, TokKind::Ident);
    assert!(lexer.expect_type().is_ok());
    assert_eq!(lexer.consume_token().val, b"f".to_vec());
    assert_eq!(lexer.expect_token(TokKind::CParen).err().unwrap().kind, ErrorKind::ExpectedToken(TokKind::CParen));
    assert_eq!(lexer.expect_token(TokKind::CParen).unwrap().kind, TokKind::CParen);
    assert!(!lexer.has_token());
    lexer.refresh();
    assert_eq!(lexer.cur, 0);
    let kinds = vec![TokKind::Ident, TokKind::TypeVoid];
    assert_eq!(lexer.expect_tokens(&kinds).unwrap().kind, TokKind::TypeVoid);
    assert_eq!(lexer.expect_tokens(&kinds).unwrap().kind, TokKind::Ident);
    assert_eq!(lexer.expect_tokens(&kinds).err().unwrap().kind, ErrorKind::ExpectedOneOf);
    assert_eq!(lexer.cur, 3);
}

#[test]
fn literal_values() {
    assert_eq!(Lexer::vec_val(&b"1234".to_vec()), 1234);
    assert_eq!(Lexer::int_value(&b"9223372036854775807".to_vec()), Some(i64::MAX));
    assert_eq!(Lexer::int_value(&b"9223372036854775808".to_vec()), None);
    assert_eq!(Lexer::int_value(&b"-1".to_vec()), None);
    assert_eq!(Lexer::int_value(&Vec::new()), None);
}

#[test]
fn positions_and_tokens() {
    let p = Pos { row: 3, col: 14, file: "f".to_string() };
    assert_eq!(p.as_vec(), b"3_14".to_vec());
    let t = Tok { kind: TokKind::Ident, val: b"abc".to_vec(), pos: p.clone() };
    assert_eq!(t.pos().row, 4);
    assert_eq!(t.pos().col, 15);
    assert_eq!(t.val_str(), Some("abc".to_string()));
    let bad = Tok { kind: TokKind::Ident, val: vec![0xff, 0xfe], pos: p };
    assert_eq!(bad.val_str(), None);
    let null = Tok::null();
    assert_eq!(null.kind, TokKind::Blank);
    assert_eq!(null.pos.row, u32::MAX);
    assert_eq!(TokKind::GE.val_str(), ">=");
    assert_eq!(TokKind::TypeChrPtr.val_str(), "chr^");
}

#[test]
fn decimal_text() {
    let mut out: Vec<u8> = Vec::new();
    push_decimal(&mut out, 907);
    push_signed_decimal(&mut out, -42);
    push_signed_decimal(&mut out, i64::MIN);
    assert_eq!(out, b"907-42-9223372036854775808".to_vec());
    assert!(bytes_eq(b"abc", b"abc"));
    assert!(!bytes_eq(b"abc", b"abd"));
}

#[test]
fn name_map_reads_what_was_written() {
    let mut m: NameMap<Datatype> = NameMap::new();
    m.insert(b"x".to_vec(), Datatype::I64);
    m.insert(b"y".to_vec(), Datatype::Chr);
    m.insert(b"x".to_vec(), Datatype::ChrPtr);
    assert_eq!(m.len(), 2);
    assert_eq!(m.get(b"x"), Some(&Datatype::ChrPtr));
    assert_eq!(m.get(b"y"), Some(&Datatype::Chr));
    assert_eq!(m.find(b"y"), Some(1));
    m.remove(b"x");
    assert!(!m.contains_key(b"x"));
    assert_eq!(m.get(b"y"), Some(&Datatype::Chr));
    assert_eq!(m.len(), 1);
}

#[test]
fn datatype_rules() {
    let all = [
        Datatype::NoType,
        Datatype::Unknown,
        Datatype::Void,
        Datatype::I64,
        Datatype::I64Ptr,
        Datatype::Chr,
        Datatype::ChrPtr,
        Datatype::AnyPtr,
    ];
    for t in all.iter() {
        let reflexive = t.is_compatible(t);
        assert_eq!(reflexive, *t != Datatype::NoType && *t != Datatype::Unknown);
        if let Some(b) = t.base_type() {
            assert!(t.is_ptr() && b.is_numeric() && t.size() == 8);
        }
    }
    assert!(Datatype::I64Ptr.is_compatible(&Datatype::I64));
    assert!(!Datatype::I64.is_compatible(&Datatype::I64Ptr));
    assert_eq!(Datatype::Chr.size(), 1);
    assert_eq!(Datatype::Void.size(), -1);
    let t = Tok { kind: TokKind::TypeAnyPtr, val: b"any^".to_vec(), pos: Pos { row: 0, col: 0, file: String::new() } };
    assert_eq!(Datatype::from_token(&t), Datatype::AnyPtr);
}

#[test]
fn type_errors() {
    let f = "void f(i64 a) { }\n";
    let call = |body: &str| -> ErrorKind {
        let mut src = String::from(f);
        src.push_str("void main() { ");
        src.push_str(body);
        src.push_str(" }\n");
        checked(&src).err().expect("error").kind
    };
    assert_eq!(call("f(1, 2);"), ErrorKind::ArgCount);
    assert_eq!(call("g(1);"), ErrorKind::FuncNotFound);
    assert_eq!(call("f(z);"), ErrorKind::VarNotFound);
    assert_eq!(call("chr^ s = \"x\"; i64^ p = s;"), ErrorKind::CannotAssign(Datatype::ChrPtr, Datatype::I64Ptr));
    assert_eq!(call("if \"s\" { }"), ErrorKind::CondType(Datatype::ChrPtr));
    assert_eq!(call("i64 x = 1; x = x[0];"), ErrorKind::CannotSubscript(Datatype::I64));
    assert_eq!(
        checked("chr^ g() { return 5; }\n").err().unwrap().kind,
        ErrorKind::InvalidReturnType(Datatype::ChrPtr, Datatype::I64)
    );
}

#[test]
fn typecheck_fills_in_types() {
    let ast = checked("i64 f(i64 a) { return a + 1; }\n").unwrap();
    let body = &ast.root.children[0].children[1];
    let ret = &body.children[0];
    assert_eq!(ret.children[0].datatype, Datatype::I64);
}

#[test]
fn typecheck_keeps_the_shape_of_the_tree() {
    let src = "i64 f(i64 a) { return a * 2 + 1; }\nvoid main() { i64 x = f(3); if x > 1 { x = x - 1; } }\n";
    let mut lexer = lexed(src).unwrap();
    let mut ast = AST::new();
    ast.construct(&mut lexer).unwrap();
    let before = ast.root.in_order();
    let mut analyser = Analyser::new();
    analyser.typecheck_ast(&mut ast).unwrap();
    let after = ast.root.in_order();
    assert_eq!(before.len(), after.len());
    let mut retyped = 0;
    for (b, a) in before.iter().zip(after.iter()) {
        assert_eq!(b.kind, a.kind);
        assert_eq!(b.tok.kind, a.tok.kind);
        assert_eq!(b.tok.val, a.tok.val);
        assert_eq!(b.children.len(), a.children.len());
        if b.datatype != a.datatype {
            retyped += 1;
        }
    }
    assert!(retyped > 0);
}

#[test]
fn parser_needs_tokens() {
    let mut lexer = lexed("\n").unwrap();
    let mut ast = AST::new();
    assert_eq!(ast.construct(&mut lexer).err().unwrap().kind, ErrorKind::EmptyProgram);
}

#[test]
fn walks_of_a_tree_agree() {
    let ast = checked("void main() { i64 x = 1 + 2 * 3; while x < 9 { x = x + 1; } }\n").unwrap();
    let pre = ast.root.in_order();
    let post = ast.root.post_order();
    assert_eq!(pre.len(), post.len());
    assert!(pre[0].same(&ast.root));
    assert!(post[post.len() - 1].same(&ast.root));
    assert_eq!(ast.root.exclusive_post_order().len(), post.len() - 1);
    let found = ast.find_node(&ast.root.children[0].tok).unwrap();
    assert!(found.same(&ast.root.children[0]));
}

#[test]
fn post_order_puts_descendants_first_and_visits_the_same_nodes() {
    let ast = checked("void main() { i64 x = 1 + 2 * 3; while x < 9 { x = x + 1; } }\n").unwrap();
    let post = ast.root.post_order();
    for (i, n) in post.iter().enumerate() {
        let sub = n.post_order();
        assert!(sub.len() <= i + 1);
        let start = i + 1 - sub.len();
        for (k, d) in sub.iter().enumerate() {
            assert!(post[start + k].same(d));
        }
    }
    let key = |n: &lib::parse::Node| (n.tok.pos.row, n.tok.pos.col, format!("{:?}", n.kind), n.tok.val.clone());
    let mut a: Vec<_> = ast.root.in_order().iter().map(key).collect();
    let mut b: Vec<_> = post.iter().map(key).collect();
    a.sort();
    b.sort();
    assert_eq!(a, b);
}

#[test]
fn name_map_keeps_each_name_once() {
    let mut m: NameMap<u64> = NameMap::new();
    m.insert(b"x".to_vec(), 1);
    m.insert(b"y".to_vec(), 2);
    m.insert(b"x".to_vec(), 3);
    assert_eq!(m.len(), 2);
    assert_eq!(m.get(b"x"), Some(&3));
    m.remove(b"x");
    assert_eq!(m.len(), 1);
    assert_eq!(m.get(b"x"), None);
    assert_eq!(m.get(b"y"), Some(&2));
}

#[test]
fn registers_and_widths() {
    assert_eq!(RegisterSize::from_i64(4), RegisterSize::DWord);
    assert_eq!(RegisterSize::from_i64(1).keyword(), "byte");
    assert_eq!(Register::RAX.size(1), "al");
    assert_eq!(Register::R10.size(2), "r10w");
    assert_eq!(Register::RSI.size(4), "esi");
    assert_eq!(Register::R15.size(8), "r15");
    let o = Operand::Register { name: Register::RDX, size: 8 };
    assert_eq!(o.byte(), "dl".to_string());
    assert_eq!(o.size(), "qword".to_string());
    assert_eq!(Operand::StackOffset { value: -8, size: 1 }.size(), "byte".to_string());
    assert!(operand_is_n(&Operand::LiteralInt { value: 0 }, 0));
    assert!(!operand_is_n(&Operand::Register { name: Register::RAX, size: 8 }, 0));
}

#[test]
fn labels_are_named_by_prefix_and_place() {
    let p = Pos { row: 2, col: 7, file: "f".to_string() };
    assert_eq!(Label::new_at(".end_", &p).name, b".end_2_7".to_vec());
    assert_eq!(Label::new_named("func_", &b"main".to_vec()).name, b"func_main".to_vec());
    let l = Label::new(".epilogue");
    assert_eq!(l.index, usize::MAX);
    assert_eq!(l.name_str(), Some(".epilogue".to_string()));
    assert!(l.same(&l.clone()));
}

#[test]
fn contexts_copy_their_variables() {
    let mut ctx = Context::new();
    assert_eq!(ctx.stack_ix, 0);
    ctx.locals.insert(b"v".to_vec(), Var { typ: Datatype::I64, offset: -8 });
    let inner = Context::from(&ctx);
    assert_eq!(inner.locals.len(), 1);
    let t = Tok { kind: TokKind::While, val: b"while".to_vec(), pos: Pos { row: 1, col: 1, file: String::new() } };
    let under = Context::under(&t, &ctx);
    assert_eq!(under.ident.kind, TokKind::While);
    assert_eq!(under.locals.get(b"v"), Some(&Var { typ: Datatype::I64, offset: -8 }));
}

#[test]
fn code_generation_errors() {
    assert_eq!(generated_err("void main() { i64 x = 1; i64 x = 2; }\n"), ErrorKind::Redeclared);
    assert_eq!(generated_err("void main() { break; }\n"), ErrorKind::InvalidScope);
    assert_eq!(generated_err("void main() { syscall(1, 2, 3, 4, 5, 6, 7, 8); }\n"), ErrorKind::TooManyArgs);
    assert_eq!(generated_err("void main() { i64 x = 99999999999999999999; }\n"), ErrorKind::IntLiteralRange);
}

#[test]
fn code_generation_of_a_function() {
    let ast = checked("i64 one() { return 1; }\n").unwrap();
    let mut ir = IR::new(&ast);
    ir.generate().unwrap();
    let kinds: Vec<InstrKind> = ir.instrs.iter().map(|i| i.kind).collect();
    assert_eq!(
        kinds,
        vec![
            InstrKind::Comment,
            InstrKind::Label,
            InstrKind::Push,
            InstrKind::CopyToRegA,
            InstrKind::Comment,
            InstrKind::Comment,
            InstrKind::Comment,
            InstrKind::Push,
            InstrKind::Comment,
            InstrKind::Pop,
            InstrKind::JLabel,
            InstrKind::Label,
            InstrKind::CopyToRegA,
            InstrKind::Pop,
            InstrKind::Return,
            InstrKind::DataSegment,
        ]
    );
    assert_eq!(ir.labels.len(), 2);
    assert_eq!(ir.labels[0].index, 0);
    assert_eq!(ir.labels[1].index, 1);
    assert!(ir.has_instr());
    let first = ir.consume_instr();
    assert_eq!(first.kind, InstrKind::Comment);
    assert_eq!(ir.peek_instr().kind, InstrKind::Label);
    assert_eq!(ir.peek_next_instr().kind, InstrKind::Push);
}

fn freed_before_jump(src: &str, word: &str) -> Option<i64> {
    let ast = checked(src).unwrap();
    let mut ir = IR::new(&ast);
    ir.generate().unwrap();
    let at = ir
        .instrs
        .iter()
        .position(|i| i.kind == InstrKind::Comment && matches!(&i.opera, Operand::Comment { comment } if comment == word))
        .expect("the jump is there");
    match &ir.instrs[at - 1] {
        Instr { kind: InstrKind::DeallocateStack, opera: Operand::LiteralInt { value }, .. } => Some(*value),
        _ => None,
    }
}

#[test]
fn break_frees_only_what_was_declared_before_it() {
    let freed = freed_before_jump(
        "void main() { i64 a = 1; while a < 3 { i64 b = 2; break; i64 c = 3; } }\n",
        "Break",
    );
    assert_eq!(freed, Some(8));
    let none = freed_before_jump("void main() { i64 a = 1; while a < 3 { break; i64 c = 3; } }\n", "Break");
    assert_eq!(none, None);
    let cont = freed_before_jump(
        "void main() { i64 a = 1; while a < 3 { i64 b = 2; a = a + 1; continue; i64 c = 3; } }\n",
        "Continue",
    );
    assert_eq!(cont, Some(8));
}

#[test]
fn an_if_frees_its_variables_before_its_end() {
    let ast = checked("void main() { i64 a = 1; if a > 0 { i64 b = 2; i64 c = 3; } a = 2; }\n").unwrap();
    let mut ir = IR::new(&ast);
    ir.generate().unwrap();
    let end = ir
        .instrs
        .iter()
        .position(|i| {
            i.kind == InstrKind::Label
                && matches!(&i.opera, Operand::Name { name } if name.name.starts_with(b".end_"))
        })
        .expect("the end label is there");
    assert!(matches!(
        &ir.instrs[end - 1],
        Instr { kind: InstrKind::DeallocateStack, opera: Operand::LiteralInt { value: 16 }, .. }
    ));
}

#[test]
fn an_if_frees_declarations_but_not_loop_variables() {
    let ast = checked(
        "void main() { i64 a = 1; if a > 0 { i64 b = 2; for i64 i = 0; i < 3; i = i + 1 { b = b + i; } i64 c = 3; } a = 2; }\n",
    )
    .unwrap();
    let mut ir = IR::new(&ast);
    ir.generate().unwrap();
    let end = ir
        .instrs
        .iter()
        .rposition(|i| {
            i.kind == InstrKind::Label
                && matches!(&i.opera, Operand::Name { name } if name.name.starts_with(b".end_"))
        })
        .expect("the end label of the if is there");
    assert!(matches!(
        &ir.instrs[end - 1],
        Instr { kind: InstrKind::DeallocateStack, opera: Operand::LiteralInt { value: 16 }, .. }
    ));
}

#[test]
fn code_generation_only_appends() {
    let ast = checked("void main() { chr^ s = \"a\"; }\n").unwrap();
    let mut ir = IR::new(&ast);
    ir.generate().unwrap();
    let first: Vec<String> = ir.instrs.iter().map(|i| format!("{:?}", i)).collect();
    ir.generate().unwrap();
    let second: Vec<String> = ir.instrs.iter().map(|i| format!("{:?}", i)).collect();
    assert_eq!(&second[..first.len()], &first[..]);
    assert_eq!(ir.strs.len(), 2);
    let n = second.len();
    assert_eq!(ir.instrs[n - 3].kind, InstrKind::DataSegment);
    assert_eq!(ir.instrs[n - 1].kind, InstrKind::DeclStr);
}

fn ir_of<'a>(ast: &'a AST, instrs: Vec<Instr>) -> IR<'a> {
    let mut ir = IR::new(ast);
    ir.instrs = instrs;
    ir
}

#[test]
fn optimiser_fuses_push_and_pop() {
    let ast = AST::new();
    let mut ir = ir_of(
        &ast,
        vec![
            Instr::comment("start"),
            Instr::push_reg(Register::RAX),
            Instr::pop(Register::RBX),
            Instr::push_int_lit(5),
            Instr::pop(Register::RCX),
            Instr::push_reg(Register::RDX),
            Instr::pop(Register::RDX),
            Instr::comment("end"),
        ],
    );
    assert!(Optimiser::new().optimise(&mut ir));
    assert_eq!(ir.instrs.len(), 4);
    assert_eq!(ir.instrs[1].kind, InstrKind::CopyToRegA);
    assert!(ir.instrs[1].opera.same(&Operand::Register { name: Register::RBX, size: 8 }));
    assert!(ir.instrs[1].operb.same(&Operand::Register { name: Register::RAX, size: 8 }));
    assert!(ir.instrs[2].operb.same(&Operand::LiteralInt { value: 5 }));
    assert_eq!(ir.cur, 8);
    let before: Vec<String> = ir.instrs.iter().map(|i| format!("{:?}", i)).collect();
    assert!(Optimiser::new().optimise(&mut ir));
    let after: Vec<String> = ir.instrs.iter().map(|i| format!("{:?}", i)).collect();
    assert_eq!(before, after);
}

#[test]
fn optimiser_refuses_a_leading_pop() {
    let ast = AST::new();
    let mut ir = ir_of(&ast, vec![Instr::comment("x"), Instr::pop(Register::RAX), Instr::returnn()]);
    assert!(!Optimiser::new().optimise(&mut ir));
}

#[test]
fn assembly_text() {
    let ast = AST::new();
    let main = Label::new_named("func_", &b"main".to_vec());
    let ir = ir_of(
        &ast,
        vec![
            Instr::label(&main),
            Instr::push_int_lit(5),
            Instr::pop(Register::RAX),
            Instr::copy_var_to_reg(Register::RBX, Var { typ: Datatype::Chr, offset: -16 }, 1),
            Instr::reg_b_lt_a(Register::RAX, Register::RBX, 8),
            Instr::dealloc_stack(16),
            Instr::returnn(),
            Instr::data_segment(),
            Instr::decl_str(0, vec![104, 10, 0]),
        ],
    );
    let text = String::from_utf8(assembly(&ir).unwrap()).unwrap();
    let expected = "global _start\nsection .text\n; --- Entrypoint ---\n_start:\n    call func_main\nfunc_main:\n    mov rax, 5\n    push rax\n    pop rax\n    mov bl, [rbp -16]\n    cmp rax, rbx\n    mov rax, 0\n    setl al\n    add rsp, 16\nret_placeholder";
    let expected = expected.replace("ret_placeholder", "    ret\nsegment .data\nstr_0: db 0x68,0x0A,0x00\n");
    assert_eq!(text, expected);
}

#[test]
fn assembly_refuses_bad_widths_and_ignores_culled() {
    let ast = AST::new();
    let bad = ir_of(&ast, vec![Instr::neg_reg(Register::RAX, 3)]);
    assert!(assembly(&bad).is_none());
    let mut culled = Instr::syscall();
    culled.kind = InstrKind::Culled;
    let with = ir_of(&ast, vec![Instr::syscall(), culled, Instr::returnn()]);
    let without = ir_of(&ast, vec![Instr::syscall(), Instr::returnn()]);
    assert_eq!(assembly(&with), assembly(&without));
}

#[test]
fn includes_are_spliced() {
    let mut lexer = lexed("include \"lib.zod\" void main ( ) { }\n").unwrap();
    let mut p = Processor::new();
    let file = p.next_include(&mut lexer).unwrap().unwrap();
    assert_eq!(file.val, b"lib.zod\0".to_vec());
    assert_eq!(lexer.cur, 2);
    let inc = lexed("void f ( ) { }\n").unwrap();
    let n = inc.toks.len();
    p.splice(&mut lexer, inc.toks);
    assert_eq!(lexer.cur, n);
    assert_eq!(lexer.toks.len(), n + 6);
    assert_eq!(lexer.toks[0].kind, TokKind::TypeVoid);
    assert_eq!(lexer.toks[1].val, b"f".to_vec());
    assert_eq!(lexer.toks[n + 1].val, b"main".to_vec());
    assert!(p.next_include(&mut lexer).unwrap().is_none());
}

#[test]
fn include_needs_a_file_name() {
    let mut lexer = lexed("include main x\n").unwrap();
    let err = Processor::new().next_include(&mut lexer).err().unwrap();
    assert_eq!(err.kind, ErrorKind::ExpectedToken(TokKind::String));
}
