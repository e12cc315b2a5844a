use vstd::prelude::*;

use crate::error::{CompileError, ErrV, ErrorKind};
use crate::lex::{int_literal, tok_error, Lexer, Tok, TokKind, TokV};
use crate::names::{find_key, insert_entry, lookup, remove_entry, NameMap};
use crate::parse::{first_with_tok, in_order_v, nodes_view, post_order_all, post_order_v, Node, NodeKind, NodeV, AST};
use crate::represent::{
    comment_v, dealloc_v, instrs_view, iv, jlabel_v, jzero_v, kernel_reg, kernel_reg_order, label_instr_v, label_v, lit, name,
    pop_v, pos_ok, pos_tail, push_int_v, push_reg_v, reg, reg_to_adr_v, reg_to_var_v, regs_v, top_ctx, user_reg,
    user_reg_order, var_to_reg_v, Context, CtxV, Instr, InstrKind, InstrV, Label, LabelV, Operand, OperandV, Register,
    Var,
};
use crate::types::{tok_err, Datatype};
use vstd::string::StringSliceAdditionalSpecFns;

verus! {

/// What code generation has made so far: the instructions, the labels
/// placed, and the strings of the data segment.
pub struct GenV {
    pub instrs: Seq<InstrV>,
    pub labels: Seq<LabelV>,
    pub strs: Seq<Seq<u8>>,
}

/// Instructions appended.
pub open spec fn put(g: GenV, s: Seq<InstrV>) -> GenV {
    GenV { instrs: g.instrs + s, ..g }
}

/// A label as it is recorded: numbered by the labels recorded before it.
pub open spec fn placed(g: GenV, l: LabelV) -> LabelV {
    LabelV { index: g.labels.len() as usize, ..l }
}

/// A label recorded.
pub open spec fn record(g: GenV, l: LabelV) -> GenV {
    GenV { labels: g.labels.push(placed(g, l)), ..g }
}

/// A label recorded and placed.
pub open spec fn place(g: GenV, l: LabelV) -> GenV {
    put(record(g, l), seq![label_instr_v(placed(g, l))])
}

/// A label named by a prefix and a position counted from 1.
pub open spec fn at(prefix: &str, t: TokV) -> LabelV {
    label_v(prefix.spec_bytes() + pos_tail(t.pos))
}

/// The size of a value of a type, as the instructions take it.
pub open spec fn size_i(t: Datatype) -> i64 {
    t.size_of() as i64
}

/// Pops into the first `n` registers of the system call order.
pub open spec fn kernel_pops(n: int) -> Seq<InstrV> {
    Seq::new(n as nat, |i: int| pop_v(kernel_reg(i)))
}

/// Pops into the first `n` registers of the function call order.
pub open spec fn user_pops(n: int) -> Seq<InstrV> {
    Seq::new(n as nat, |i: int| pop_v(user_reg(i)))
}

/// The words of a simple binary operation: comment, first and second
/// register popped, instruction on RAX and RBX, register pushed.
pub open spec fn arith(op: TokKind) -> Option<(&'static str, Register, Register, InstrKind, Register)> {
    match op {
        TokKind::Mod => Some(("BinOp Mod", Register::RBX, Register::RAX, InstrKind::DivAByBManglingD, Register::RDX)),
        TokKind::Plus => Some(("BinOp Plus", Register::RAX, Register::RBX, InstrKind::Add, Register::RAX)),
        TokKind::Minus => Some(("BinOp Minus", Register::RBX, Register::RAX, InstrKind::Sub, Register::RAX)),
        TokKind::Mul => Some(("BinOp Mul", Register::RAX, Register::RBX, InstrKind::Mul, Register::RAX)),
        TokKind::Div => Some(("BinOp Div", Register::RBX, Register::RAX, InstrKind::DivAByBManglingD, Register::RAX)),
        TokKind::Equal => Some(("BinOp Eq", Register::RBX, Register::RAX, InstrKind::RegBEqA, Register::RAX)),
        TokKind::NotEqual => Some(("BinOp NEq", Register::RBX, Register::RAX, InstrKind::RegBNeA, Register::RAX)),
        TokKind::GT => Some(("BinOp GT", Register::RBX, Register::RAX, InstrKind::RegBGtA, Register::RAX)),
        TokKind::LT => Some(("BinOp LT", Register::RBX, Register::RAX, InstrKind::RegBLtA, Register::RAX)),
        TokKind::GE => Some(("BinOp GE", Register::RBX, Register::RAX, InstrKind::RegBGeA, Register::RAX)),
        TokKind::LE => Some(("BinOp LE", Register::RBX, Register::RAX, InstrKind::RegBLeA, Register::RAX)),
        _ => None,
    }
}

/// The code of a logical or, its operands already on the stack.
pub open spec fn emit_log_or(g: GenV, node: NodeV) -> Result<GenV, ErrV> {
    let sz = size_i(node.datatype);
    let t = node.tok;
    if !pos_ok(t.pos) {
        Err(tok_error(ErrorKind::PositionOverflow, t))
    } else {
        let rhs_l = at(".rhs_", t);
        let end_l = at(".end_", t);
        let g1 = put(
            g,
            seq![
                comment_v("BinOp Logical Or"@),
                pop_v(Register::RAX),
                pop_v(Register::RBX),
                jzero_v(Register::RAX, rhs_l, sz),
                jlabel_v(end_l),
            ],
        );
        let g2 = place(g1, rhs_l);
        let g3 = put(
            g2,
            seq![
                iv(InstrKind::RegBNeIntLitA, lit(0), reg(Register::RBX, sz)),
                regs_v(InstrKind::CopyToRegA, Register::RAX, Register::RBX, sz),
            ],
        );
        Ok(put(place(g3, end_l), seq![push_reg_v(Register::RAX)]))
    }
}

/// The code of a logical and, its operands already on the stack.
pub open spec fn emit_log_and(g: GenV, node: NodeV) -> Result<GenV, ErrV> {
    let sz = size_i(node.datatype);
    let t = node.tok;
    if !pos_ok(t.pos) {
        Err(tok_error(ErrorKind::PositionOverflow, t))
    } else {
        let false_l = at(".false_", t);
        let end_l = at(".end_", t);
        let g1 = put(
            g,
            seq![
                comment_v("BinOp Logical And"@),
                pop_v(Register::RAX),
                pop_v(Register::RBX),
                jzero_v(Register::RAX, false_l, sz),
                jzero_v(Register::RBX, false_l, sz),
                push_int_v(1),
                jlabel_v(end_l),
            ],
        );
        let g2 = put(place(g1, false_l), seq![push_int_v(0)]);
        Ok(place(g2, end_l))
    }
}

/// The code of a subscript, the array and the index already on the stack.
pub open spec fn emit_subscript(g: GenV, ctx: CtxV, node: NodeV) -> Result<GenV, ErrV> {
    let t = node.tok;
    if node.children.len() == 0 {
        Err(tok_error(ErrorKind::MalformedTree, t))
    } else {
        let lhs = node.children[0];
        match lookup(ctx.locals, lhs.tok.val) {
            None => Err(tok_error(ErrorKind::VarNotFound, lhs.tok)),
            Some(v) => match v.typ.base() {
                None => Err(tok_error(ErrorKind::CannotSubscript(v.typ), lhs.tok)),
                Some(b) => {
                    let size = size_i(b);
                    Ok(
                        put(
                            g,
                            seq![
                                comment_v("BinOp Subscript"@),
                                pop_v(Register::RBX),
                                pop_v(Register::RAX),
                                iv(InstrKind::CopyToRegA, reg(Register::RCX, 8), lit(size)),
                                regs_v(InstrKind::Mul, Register::RBX, Register::RCX, 8),
                                regs_v(InstrKind::Add, Register::RAX, Register::RBX, 8),
                                iv(InstrKind::DerefReg, reg(Register::RAX, 8), OperandV::Blank),
                                push_reg_v(Register::RAX),
                            ],
                        ),
                    )
                },
            },
        }
    }
}

/// The code of a binary operation, its operands already on the stack.
pub open spec fn emit_binop(g: GenV, ctx: CtxV, node: NodeV) -> Result<GenV, ErrV> {
    let sz = size_i(node.datatype);
    let t = node.tok;
    match arith(t.kind) {
        Some((text, first, second, kind, result)) => Ok(
            put(
                g,
                seq![
                    comment_v(text@),
                    pop_v(first),
                    pop_v(second),
                    regs_v(kind, Register::RAX, Register::RBX, sz),
                    push_reg_v(result),
                ],
            ),
        ),
        None => if t.kind == TokKind::LogOr {
            emit_log_or(g, node)
        } else if t.kind == TokKind::LogAnd {
            emit_log_and(g, node)
        } else if t.kind == TokKind::Subscript {
            emit_subscript(g, ctx, node)
        } else {
            Err(tok_error(ErrorKind::UnexpectedNode, t))
        },
    }
}

/// The declarations among the nodes from the `i`-th on, up to the `break`
/// or `continue` itself, the walk stopping there.
pub open spec fn decls_until(ns: Seq<NodeV>, i: int, jump: NodeV) -> nat
    decreases ns.len() - i,
{
    if i < 0 || i >= ns.len() {
        0
    } else {
        let here: nat = if ns[i].kind == NodeKind::VarDecl {
            1
        } else {
            0
        };
        if ns[i] == jump {
            here
        } else {
            here + decls_until(ns, i + 1, jump)
        }
    }
}

/// The code of a `break` or `continue`: frees the variables declared in
/// the loop body before it, then jumps.
pub open spec fn emit_jump(root: NodeV, g: GenV, ctx: CtxV, node: NodeV) -> Result<GenV, ErrV> {
    let id = ctx.ident;
    if id.kind == TokKind::Blank {
        Err(tok_error(ErrorKind::InvalidScope, id))
    } else {
        match first_with_tok(post_order_v(root), id) {
            None => Err(tok_error(ErrorKind::NodeNotFound, id)),
            Some(f) => if f.children.len() == 0 {
                Err(tok_error(ErrorKind::MalformedTree, f.tok))
            } else {
                let cnt = decls_until(in_order_v(f.children.last()), 0, node);
                if cnt * 8 > i64::MAX {
                    Err(tok_error(ErrorKind::FrameTooLarge, node.tok))
                } else if !pos_ok(id.pos) {
                    Err(tok_error(ErrorKind::PositionOverflow, id))
                } else {
                    let g1 = if cnt > 0 {
                        put(g, seq![dealloc_v((cnt * 8) as i64)])
                    } else {
                        g
                    };
                    if node.kind == NodeKind::Continue {
                        Ok(put(g1, seq![comment_v("Continue"@), jlabel_v(at(".continue_", id))]))
                    } else {
                        Ok(put(g1, seq![comment_v("Break"@), jlabel_v(at(".break_", id))]))
                    }
                }
            },
        }
    }
}

/// The code of one node of an expression or simple statement, its
/// operands already on the stack; the scope after it.
pub open spec fn emit_node(root: NodeV, g: GenV, ctx: CtxV, node: NodeV) -> Result<(GenV, CtxV), ErrV> {
    let sz = size_i(node.datatype);
    let t = node.tok;
    if node.kind == NodeKind::BinaryOp {
        match emit_binop(g, ctx, node) {
            Err(e) => Err(e),
            Ok(g2) => Ok((g2, ctx)),
        }
    } else if node.kind == NodeKind::UnaryOp {
        if t.kind == TokKind::Minus {
            Ok(
                (
                    put(
                        g,
                        seq![
                            comment_v("UnOp Minus"@),
                            pop_v(Register::RAX),
                            iv(InstrKind::NegReg, reg(Register::RAX, sz), OperandV::Blank),
                            push_reg_v(Register::RAX),
                        ],
                    ),
                    ctx,
                ),
            )
        } else if t.kind == TokKind::Deref {
            Ok(
                (
                    put(
                        g,
                        seq![
                            comment_v("UnOp Dereference"@),
                            pop_v(Register::RAX),
                            iv(InstrKind::DerefReg, reg(Register::RAX, 8), OperandV::Blank),
                            push_reg_v(Register::RAX),
                        ],
                    ),
                    ctx,
                ),
            )
        } else {
            Err(tok_error(ErrorKind::UnexpectedNode, t))
        }
    } else if node.kind == NodeKind::LiteralInt {
        match int_literal(t.val) {
            None => Err(tok_error(ErrorKind::IntLiteralRange, t)),
            Some(v) => Ok((put(g, seq![comment_v("Literal Int"@), push_int_v(v)]), ctx)),
        }
    } else if node.kind == NodeKind::LiteralString {
        let g1 = put(
            g,
            seq![
                comment_v("Literal String"@),
                iv(InstrKind::Push, OperandV::LiteralStr { value: g.strs.len() as i64 }, OperandV::Blank),
            ],
        );
        Ok((GenV { strs: g.strs.push(t.val), ..g1 }, ctx))
    } else if node.kind == NodeKind::LiteralChar {
        if t.val.len() == 0 {
            Err(tok_error(ErrorKind::MalformedTree, t))
        } else {
            Ok((put(g, seq![comment_v("Literal Char"@), push_int_v(t.val[0] as i64)]), ctx))
        }
    } else if node.kind == NodeKind::Var {
        match lookup(ctx.locals, t.val) {
            None => Err(tok_error(ErrorKind::VarNotFound, t)),
            Some(v) => Ok(
                (
                    put(
                        g,
                        seq![comment_v("Var"@), var_to_reg_v(Register::RAX, v, size_i(v.typ)), push_reg_v(Register::RAX)],
                    ),
                    ctx,
                ),
            ),
        }
    } else if node.kind == NodeKind::VarDecl {
        if find_key(ctx.locals, t.val) is Some {
            Err(tok_error(ErrorKind::Redeclared, t))
        } else if ctx.stack_ix - 8 < i64::MIN {
            Err(tok_error(ErrorKind::FrameTooLarge, t))
        } else {
            Ok(
                (
                    put(g, seq![comment_v("Var Decl"@), iv(InstrKind::SubFromReg, lit(8), reg(Register::RSP, 8))]),
                    CtxV {
                        locals: insert_entry(ctx.locals, t.val, Var { typ: node.datatype, offset: ctx.stack_ix }),
                        stack_ix: (ctx.stack_ix - 8) as i64,
                        ..ctx
                    },
                ),
            )
        }
    } else if node.kind == NodeKind::Syscall {
        if node.children.len() > 7 {
            Err(tok_error(ErrorKind::TooManyArgs, t))
        } else {
            Ok(
                (
                    put(
                        g,
                        seq![comment_v("Syscall"@)] + kernel_pops(node.children.len() as int) + seq![
                            iv(InstrKind::Syscall, OperandV::Blank, OperandV::Blank),
                            push_reg_v(Register::RAX),
                        ],
                    ),
                    ctx,
                ),
            )
        }
    } else if node.kind == NodeKind::FuncCall {
        if node.children.len() > 6 {
            Err(tok_error(ErrorKind::TooManyArgs, t))
        } else {
            let g1 = put(
                g,
                seq![comment_v("Function Call"@)] + user_pops(node.children.len() as int) + seq![
                    iv(InstrKind::Call, name(label_v("func_".spec_bytes() + t.val)), OperandV::Blank),
                ],
            );
            if node.datatype != Datatype::Void {
                Ok((put(g1, seq![push_reg_v(Register::RAX)]), ctx))
            } else {
                Ok((g1, ctx))
            }
        }
    } else if node.kind == NodeKind::Continue || node.kind == NodeKind::Break {
        match emit_jump(root, g, ctx, node) {
            Err(e) => Err(e),
            Ok(g2) => Ok((g2, ctx)),
        }
    } else if node.kind == NodeKind::Return {
        Ok(
            (
                put(
                    g,
                    seq![comment_v("Return"@), pop_v(Register::RAX), jlabel_v(label_v(".epilogue".spec_bytes()))],
                ),
                ctx,
            ),
        )
    } else {
        Err(tok_error(ErrorKind::UnexpectedNode, t))
    }
}

/// The code of the nodes from the `i`-th on.
pub open spec fn emit_seq(root: NodeV, g: GenV, ctx: CtxV, ns: Seq<NodeV>, i: int) -> Result<(GenV, CtxV), ErrV>
    decreases ns.len() - i,
{
    if i < 0 || i >= ns.len() {
        Ok((g, ctx))
    } else {
        match emit_node(root, g, ctx, ns[i]) {
            Err(e) => Err(e),
            Ok((g2, c2)) => emit_seq(root, g2, c2, ns, i + 1),
        }
    }
}

/// The code of a tree: its nodes in post order.
pub open spec fn emit_tree(root: NodeV, g: GenV, ctx: CtxV, n: NodeV) -> Result<(GenV, CtxV), ErrV> {
    emit_seq(root, g, ctx, post_order_v(n), 0)
}

/// The code that stores the value on the stack into the target of an
/// assignment.
pub open spec fn emit_store(root: NodeV, g: GenV, ctx: CtxV, st: NodeV) -> Result<(GenV, CtxV), ErrV> {
    let lg = st.children[0];
    let undeclared = |n: NodeV| ErrV { kind: ErrorKind::VarNotFound, pos: st.tok.pos, text: n.tok.val };
    if lg.kind == NodeKind::UnaryOp && lg.tok.kind == TokKind::Deref {
        if lg.children.len() == 0 {
            Err(tok_error(ErrorKind::MalformedTree, lg.tok))
        } else {
            let lhs = lg.children[0];
            if lhs.kind == NodeKind::Var {
                match lookup(ctx.locals, lhs.tok.val) {
                    None => Err(undeclared(lhs)),
                    Some(v) => Ok(
                        (
                            put(
                                g,
                                seq![
                                    pop_v(Register::RAX),
                                    var_to_reg_v(Register::RBX, v, size_i(v.typ)),
                                    reg_to_adr_v(Register::RAX, Register::RBX, size_i(v.typ)),
                                ],
                            ),
                            ctx,
                        ),
                    ),
                }
            } else {
                match emit_tree(root, g, ctx, lhs) {
                    Err(e) => Err(e),
                    Ok((g2, c2)) => Ok(
                        (
                            put(
                                g2,
                                seq![
                                    pop_v(Register::RBX),
                                    pop_v(Register::RAX),
                                    reg_to_adr_v(Register::RAX, Register::RBX, size_i(lhs.datatype)),
                                ],
                            ),
                            c2,
                        ),
                    ),
                }
            }
        }
    } else if lg.kind == NodeKind::Var {
        match lookup(ctx.locals, lg.tok.val) {
            None => Err(undeclared(lg)),
            Some(v) => Ok(
                (put(g, seq![pop_v(Register::RAX), reg_to_var_v(v, Register::RAX, size_i(v.typ))]), ctx),
            ),
        }
    } else if lg.kind == NodeKind::BinaryOp && lg.tok.kind == TokKind::Subscript {
        if lg.children.len() == 0 {
            Err(tok_error(ErrorKind::MalformedTree, lg.tok))
        } else {
            let lhs = lg.children[0];
            match emit_tree(root, g, ctx, lg.children.last()) {
                Err(e) => Err(e),
                Ok((g2, c2)) => match lookup(c2.locals, lhs.tok.val) {
                    None => Err(undeclared(lhs)),
                    Some(v) => match v.typ.base() {
                        None => Err(tok_error(ErrorKind::CannotSubscript(v.typ), lhs.tok)),
                        Some(b) => {
                            let size = size_i(b);
                            Ok(
                                (
                                    put(
                                        g2,
                                        seq![
                                            pop_v(Register::RBX),
                                            pop_v(Register::RAX),
                                            iv(InstrKind::CopyToRegA, reg(Register::RCX, 8), lit(size)),
                                            regs_v(InstrKind::Mul, Register::RBX, Register::RCX, 8),
                                            var_to_reg_v(Register::RDX, v, 8),
                                            regs_v(InstrKind::Add, Register::RDX, Register::RBX, 8),
                                            reg_to_adr_v(Register::RAX, Register::RDX, size),
                                        ],
                                    ),
                                    c2,
                                ),
                            )
                        },
                    },
                },
            }
        }
    } else {
        Err(tok_error(ErrorKind::UnexpectedAssignTarget, lg.tok))
    }
}

/// The code of an assignment: the value first, then the store.
pub open spec fn emit_assign(root: NodeV, g: GenV, ctx: CtxV, st: NodeV) -> Result<(GenV, CtxV), ErrV> {
    let g1 = put(g, seq![comment_v("Assign"@)]);
    if st.children.len() < 2 {
        Err(tok_error(ErrorKind::MalformedTree, st.tok))
    } else {
        match emit_tree(root, g1, ctx, st.children[1]) {
            Err(e) => Err(e),
            Ok((g2, c2)) => emit_store(root, g2, c2, st),
        }
    }
}

/// Frees the variables that a nested scope declared beyond those of the
/// scope around it.
pub open spec fn close_scope(g: GenV, inner: CtxV, outer: CtxV, t: TokV) -> Result<GenV, ErrV> {
    let n = inner.locals.len() - outer.locals.len();
    if n < 0 {
        Err(tok_error(ErrorKind::MalformedTree, t))
    } else if n * 8 > i64::MAX {
        Err(tok_error(ErrorKind::FrameTooLarge, t))
    } else if n > 0 {
        Ok(put(g, seq![dealloc_v((n * 8) as i64)]))
    } else {
        Ok(g)
    }
}

/// The code of a statement; the scope after it.
pub open spec fn emit_stmt(root: NodeV, g: GenV, ctx: CtxV, st: NodeV) -> Result<(GenV, CtxV), ErrV>
    decreases st, 1int, 0int,
{
    let k = st.kind;
    if k == NodeKind::VarDecl || k == NodeKind::Continue || k == NodeKind::Break || k == NodeKind::Return || k
        == NodeKind::Syscall || k == NodeKind::FuncCall {
        emit_tree(root, g, ctx, st)
    } else if k == NodeKind::Assign {
        emit_assign(root, g, ctx, st)
    } else if k == NodeKind::WhileLoop {
        emit_while(root, g, ctx, st)
    } else if k == NodeKind::ForLoop {
        emit_for(root, g, ctx, st)
    } else if k == NodeKind::Conditional {
        emit_cond(root, g, ctx, st)
    } else if k == NodeKind::Null {
        Ok((g, ctx))
    } else {
        Err(tok_error(ErrorKind::ExpectedStatement, st.tok))
    }
}

/// The code of the statements from the `i`-th on.
pub open spec fn emit_stmts(root: NodeV, g: GenV, ctx: CtxV, sts: Seq<NodeV>, i: int) -> Result<(GenV, CtxV), ErrV>
    decreases sts, 0int, sts.len() - i,
{
    if i < 0 || i >= sts.len() {
        Ok((g, ctx))
    } else {
        match emit_stmt(root, g, ctx, sts[i]) {
            Err(e) => Err(e),
            Ok((g2, c2)) => emit_stmts(root, g2, c2, sts, i + 1),
        }
    }
}

/// The condition of a `while`, where it has one: its value, then a jump
/// to the end when it is 0.
pub open spec fn emit_while_cond(root: NodeV, g: GenV, ctx: CtxV, st: NodeV) -> Result<(GenV, CtxV), ErrV> {
    if st.children.len() > 0 {
        match emit_tree(root, g, ctx, st.children[0]) {
            Err(e) => Err(e),
            Ok((g2, c2)) => Ok(
                (
                    put(g2, seq![pop_v(Register::RAX), jzero_v(Register::RAX, at(".end_", st.tok), size_i(st.children[0].datatype))]),
                    c2,
                ),
            ),
        }
    } else {
        Ok((g, ctx))
    }
}

/// The rest of a `while`: its body in a scope of its own, the freeing of
/// the body's variables, the jump back to `loop_l`, and the labels that
/// `continue` and `break` jump to.
pub open spec fn emit_while_rest(root: NodeV, g: GenV, ctx: CtxV, st: NodeV, loop_l: LabelV) -> Result<
    (GenV, CtxV),
    ErrV,
>
    decreases st, 0int, 0int,
{
    let t = st.tok;
    let wctx = CtxV { ident: t, ..ctx };
    let br = if st.children.len() > 1 && st.children[1].kind != NodeKind::Null {
        emit_stmts(root, g, wctx, st.children[1].children, 0)
    } else {
        Ok((g, wctx))
    };
    match br {
        Err(e) => Err(e),
        Ok((g4, w4)) => match close_scope(g4, w4, ctx, t) {
            Err(e) => Err(e),
            Ok(g5) => {
                let g6 = put(place(g5, at(".continue_", t)), seq![jlabel_v(loop_l)]);
                match close_scope(place(g6, at(".break_", t)), w4, ctx, t) {
                    Err(e) => Err(e),
                    Ok(g7) => Ok((place(g7, at(".end_", t)), ctx)),
                }
            },
        },
    }
}

/// The code of a `while`: label, condition, then the rest.
pub open spec fn emit_while(root: NodeV, g: GenV, ctx: CtxV, st: NodeV) -> Result<(GenV, CtxV), ErrV>
    decreases st, 0int, 1int,
{
    let t = st.tok;
    if !pos_ok(t.pos) {
        Err(tok_error(ErrorKind::PositionOverflow, t))
    } else {
        let g0 = put(g, seq![comment_v("While"@)]);
        let loop_l = at(".while_", t);
        match emit_while_cond(root, place(g0, loop_l), ctx, st) {
            Err(e) => Err(e),
            Ok((g3, c3)) => emit_while_rest(root, g3, c3, st, placed(g0, loop_l)),
        }
    }
}

/// The head of a `for`, up to its condition: declaration and assignment
/// where they are there.
pub open spec fn emit_for_head(root: NodeV, g: GenV, ctx: CtxV, st: NodeV) -> Result<(GenV, CtxV), ErrV>
    decreases st, 0int, 0int,
{
    let has_decl = st.children.len() > 0 && st.children[0].kind != NodeKind::Null;
    let dr = if has_decl {
        emit_tree(root, put(g, seq![comment_v("Decl"@)]), ctx, st.children[0])
    } else {
        Ok((g, ctx))
    };
    match dr {
        Err(e) => Err(e),
        Ok((g2, c2)) => if st.children.len() > 1 && st.children[1].kind != NodeKind::Null {
            emit_stmt(root, put(g2, seq![comment_v("Init"@)]), c2, st.children[1])
        } else {
            Ok((g2, c2))
        },
    }
}

/// The condition of a `for`, where it is there: its value, then a jump to
/// the end when it is 0.
pub open spec fn emit_for_cond(root: NodeV, g: GenV, ctx: CtxV, st: NodeV) -> Result<(GenV, CtxV), ErrV> {
    if st.children.len() > 2 && st.children[2].kind != NodeKind::Null {
        let cond = st.children[2];
        match emit_tree(root, put(g, seq![comment_v("Condition"@)]), ctx, cond) {
            Err(e) => Err(e),
            Ok((g5, c5)) => Ok(
                (put(g5, seq![pop_v(Register::RAX), jzero_v(Register::RAX, at(".end_", st.tok), size_i(cond.datatype))]), c5),
            ),
        }
    } else {
        Ok((g, ctx))
    }
}

/// The body of a `for` in the scope `fctx`, and the freeing of its
/// variables beyond those of `ctx`.
pub open spec fn emit_for_body(root: NodeV, g: GenV, ctx: CtxV, fctx: CtxV, st: NodeV) -> Result<(GenV, CtxV), ErrV>
    decreases st, 0int, 0int,
{
    let br = if st.children.len() > 4 && st.children[4].kind != NodeKind::Null {
        emit_stmts(root, put(g, seq![comment_v("Body"@)]), fctx, st.children[4].children, 0)
    } else {
        Ok((g, fctx))
    };
    match br {
        Err(e) => Err(e),
        Ok((g6, f6)) => match close_scope(put(g6, seq![comment_v("Post"@)]), f6, ctx, st.tok) {
            Err(e) => Err(e),
            Ok(g7) => Ok((g7, f6)),
        },
    }
}

/// The end of a `for`: the step in the scope `fctx`, the jump back to
/// `loop_l`, the labels that `continue` and `break` jump to, and the
/// freeing of the declaration.
pub open spec fn emit_for_tail(root: NodeV, g: GenV, ctx: CtxV, fctx: CtxV, st: NodeV, loop_l: LabelV) -> Result<
    (GenV, CtxV),
    ErrV,
>
    decreases st, 0int, 0int,
{
    let t = st.tok;
    let g8 = place(g, at(".continue_", t));
    let pr = if st.children.len() > 3 && st.children[3].kind != NodeKind::Null {
        emit_stmt(root, g8, fctx, st.children[3])
    } else {
        Ok((g8, fctx))
    };
    match pr {
        Err(e) => Err(e),
        Ok((g9, _)) => {
            let g10 = put(g9, seq![jlabel_v(loop_l)]);
            let g11 = place(put(place(g10, at(".break_", t)), seq![comment_v("End"@)]), at(".end_", t));
            if st.children.len() > 0 && st.children[0].kind != NodeKind::Null {
                if ctx.stack_ix + 8 > i64::MAX {
                    Err(tok_error(ErrorKind::FrameTooLarge, t))
                } else {
                    Ok(
                        (
                            put(g11, seq![dealloc_v(8)]),
                            CtxV {
                                locals: remove_entry(ctx.locals, st.children[0].tok.val),
                                stack_ix: (ctx.stack_ix + 8) as i64,
                                ..ctx
                            },
                        ),
                    )
                }
            } else {
                Ok((g11, ctx))
            }
        },
    }
}

/// The code of a `for`: head, loop label, condition, body, and tail; the
/// body and the step in a scope of their own.
pub open spec fn emit_for(root: NodeV, g: GenV, ctx: CtxV, st: NodeV) -> Result<(GenV, CtxV), ErrV>
    decreases st, 0int, 1int,
{
    let t = st.tok;
    if !pos_ok(t.pos) {
        Err(tok_error(ErrorKind::PositionOverflow, t))
    } else {
        match emit_for_head(root, put(g, seq![comment_v("For"@)]), ctx, st) {
            Err(e) => Err(e),
            Ok((g3, c3)) => {
                let fctx = CtxV { ident: t, ..c3 };
                let loop_l = at(".for_", t);
                match emit_for_cond(root, place(g3, loop_l), c3, st) {
                    Err(e) => Err(e),
                    Ok((g5, c5)) => match emit_for_body(root, g5, c5, fctx, st) {
                        Err(e) => Err(e),
                        Ok((g7, f7)) => emit_for_tail(root, g7, c5, f7, st, placed(g3, loop_l)),
                    },
                }
            },
        }
    }
}

/// An `if` without `else`: jump to the end when the condition, already
/// popped into RAX, is 0; the body in a scope of its own, and the freeing
/// of its variables.
pub open spec fn emit_if_only(root: NodeV, g: GenV, ctx: CtxV, st: NodeV) -> Result<(GenV, CtxV), ErrV>
    decreases st, 0int, 0int,
{
    let t = st.tok;
    let end_l = at(".end_", t);
    let g4 = put(g, seq![jzero_v(Register::RAX, end_l, size_i(st.children[0].datatype)), comment_v("If"@)]);
    let ir = if st.children.len() > 1 {
        emit_stmts(root, g4, ctx, st.children[1].children, 0)
    } else {
        Ok((g4, ctx))
    };
    match ir {
        Err(e) => Err(e),
        Ok((g5, i5)) => match close_scope(g5, i5, ctx, t) {
            Err(e) => Err(e),
            Ok(g6) => Ok((place(g6, end_l), ctx)),
        },
    }
}

/// An `if` with `else`: jump to the `else` body when the condition,
/// already popped into RAX, is 0; the `if` body jumps over it. Each body
/// has a scope of its own.
pub open spec fn emit_if_else(root: NodeV, g: GenV, ctx: CtxV, st: NodeV) -> Result<(GenV, CtxV), ErrV>
    decreases st, 0int, 0int,
{
    let t = st.tok;
    let end_l = at(".end_", t);
    let else_l = at(".else_", t);
    let g4 = put(g, seq![jzero_v(Register::RAX, else_l, size_i(st.children[0].datatype)), comment_v("If"@)]);
    let ir = if st.children.len() > 1 {
        emit_stmts(root, g4, ctx, st.children[1].children, 0)
    } else {
        Ok((g4, ctx))
    };
    match ir {
        Err(e) => Err(e),
        Ok((g5, _)) => {
            let g6 = put(place(put(g5, seq![jlabel_v(end_l)]), else_l), seq![comment_v("Else"@)]);
            let er = if st.children.len() > 2 {
                emit_stmts(root, g6, ctx, st.children[2].children, 0)
            } else {
                Ok((g6, ctx))
            };
            match er {
                Err(e) => Err(e),
                Ok((g7, _)) => Ok((place(g7, end_l), ctx)),
            }
        },
    }
}

/// The code of an `if`: its condition, then the bodies.
pub open spec fn emit_cond(root: NodeV, g: GenV, ctx: CtxV, st: NodeV) -> Result<(GenV, CtxV), ErrV>
    decreases st, 0int, 1int,
{
    let t = st.tok;
    if !pos_ok(t.pos) {
        Err(tok_error(ErrorKind::PositionOverflow, t))
    } else if st.children.len() == 0 {
        Err(tok_error(ErrorKind::MalformedTree, t))
    } else {
        match emit_tree(root, put(g, seq![comment_v("Conditional"@)]), ctx, st.children[0]) {
            Err(e) => Err(e),
            Ok((g2, c2)) => {
                let g3 = put(g2, seq![pop_v(Register::RAX)]);
                if st.children.len() == 2 {
                    emit_if_only(root, g3, c2, st)
                } else {
                    emit_if_else(root, g3, c2, st)
                }
            },
        }
    }
}

/// The scope of a function body with its parameters from the `i`-th on
/// bound, each pushed from the register it comes in.
pub open spec fn bind_args(g: GenV, ctx: CtxV, args: Seq<NodeV>, i: int) -> Result<(GenV, CtxV), ErrV>
    decreases args.len() - i,
{
    if i < 0 || i >= args.len() {
        Ok((g, ctx))
    } else {
        let a = args[i];
        if a.datatype == Datatype::NoType || a.datatype == Datatype::Unknown {
            Err(tok_error(ErrorKind::UnknownVarType, a.tok))
        } else {
            bind_args(
                put(g, seq![push_reg_v(user_reg(i))]),
                CtxV {
                    locals: insert_entry(ctx.locals, a.tok.val, Var { typ: a.datatype, offset: ctx.stack_ix }),
                    stack_ix: (ctx.stack_ix - 8) as i64,
                    ..ctx
                },
                args,
                i + 1,
            )
        }
    }
}

/// The scope a function body starts in: no loop, no variables, the first
/// free offset below the saved base pointer.
pub open spec fn func_ctx() -> CtxV {
    CtxV { stack_ix: -8i64, ..top_ctx() }
}

/// The code of a function: label, prologue, parameters, body, epilogue.
pub open spec fn emit_func(root: NodeV, g: GenV, f: NodeV) -> Result<GenV, ErrV> {
    let g1 = put(g, seq![comment_v("Function Declaration"@)]);
    let g2 = put(
        place(g1, label_v("func_".spec_bytes() + f.tok.val)),
        seq![push_reg_v(Register::RBP), regs_v(InstrKind::CopyToRegA, Register::RBP, Register::RSP, 8)],
    );
    let ar = if f.children.len() > 0 {
        if f.children[0].children.len() > 6 {
            Err(tok_error(ErrorKind::TooManyArgs, f.tok))
        } else {
            bind_args(put(g2, seq![comment_v("Args"@)]), func_ctx(), f.children[0].children, 0)
        }
    } else {
        Ok((g2, func_ctx()))
    };
    match ar {
        Err(e) => Err(e),
        Ok((g3, c3)) => if f.children.len() > 1 {
            match emit_stmts(root, put(g3, seq![comment_v("Body"@)]), c3, f.children[1].children, 0) {
                Err(e) => Err(e),
                Ok((g4, _)) => Ok(
                    put(
                        place(g4, label_v(".epilogue".spec_bytes())),
                        seq![
                            regs_v(InstrKind::CopyToRegA, Register::RSP, Register::RBP, 8),
                            pop_v(Register::RBP),
                            iv(InstrKind::Return, OperandV::Blank, OperandV::Blank),
                        ],
                    ),
                ),
            }
        } else {
            Err(tok_error(ErrorKind::MissingBody, f.tok))
        },
    }
}

/// The code of the top-level functions from the `i`-th on.
pub open spec fn emit_funcs(root: NodeV, g: GenV, top: Seq<NodeV>, i: int) -> Result<GenV, ErrV>
    decreases top.len() - i,
{
    if i < 0 || i >= top.len() {
        Ok(g)
    } else if top[i].kind != NodeKind::FuncDecl {
        Err(tok_error(ErrorKind::UnexpectedTopLevel, top[i].tok))
    } else {
        match emit_func(root, g, top[i]) {
            Err(e) => Err(e),
            Ok(g2) => emit_funcs(root, g2, top, i + 1),
        }
    }
}

/// The data segment: each string declared under its number.
pub open spec fn data_segment(strs: Seq<Seq<u8>>) -> Seq<InstrV> {
    seq![iv(InstrKind::DataSegment, OperandV::Blank, OperandV::Blank)] + Seq::new(
        strs.len(),
        |i: int| iv(InstrKind::DeclStr, lit(i as i64), OperandV::Bytes { bytes: strs[i] }),
    )
}

/// The code of a program, after what was made before: its functions, then
/// the data segment.
pub open spec fn emit_program(root: NodeV, g: GenV) -> Result<GenV, ErrV> {
    match emit_funcs(root, g, root.children, 0) {
        Err(e) => Err(e),
        Ok(g2) => Ok(put(g2, data_segment(g2.strs))),
    }
}


/// Whether a sequence starts with another.
pub open spec fn starts_with<A>(s: Seq<A>, p: Seq<A>) -> bool {
    p.len() <= s.len() && forall|i: int| 0 <= i < p.len() ==> s[i] == p[i]
}

/// Whether the labels from the `from`-th on are numbered by their place.
pub open spec fn numbered_from(labels: Seq<LabelV>, from: int) -> bool {
    forall|i: int| from <= i < labels.len() ==> #[trigger] labels[i].index == i as usize
}

/// Whether one state of code generation carries on another: its
/// instructions, labels and strings start with those of the other, and
/// the labels it adds are numbered by their place.
pub open spec fn extends(g: GenV, g2: GenV) -> bool {
    &&& starts_with(g2.instrs, g.instrs)
    &&& starts_with(g2.labels, g.labels)
    &&& starts_with(g2.strs, g.strs)
    &&& numbered_from(g2.labels, g.labels.len() as int)
}

proof fn ext_trans(a: GenV, b: GenV, c: GenV)
    requires
        extends(a, b),
        extends(b, c),
    ensures
        extends(a, c),
{
    assert forall|i: int| 0 <= i < a.instrs.len() implies c.instrs[i] == a.instrs[i] by {
        assert(c.instrs[i] == b.instrs[i]);
    }
    assert forall|i: int| 0 <= i < a.labels.len() implies c.labels[i] == a.labels[i] by {
        assert(c.labels[i] == b.labels[i]);
    }
    assert forall|i: int| 0 <= i < a.strs.len() implies c.strs[i] == a.strs[i] by {
        assert(c.strs[i] == b.strs[i]);
    }
    assert forall|i: int| a.labels.len() <= i < c.labels.len() implies #[trigger] c.labels[i].index == i as usize by {
        if i < b.labels.len() {
            assert(c.labels[i] == b.labels[i]);
        }
    }
}

proof fn ext_node(root: NodeV, g: GenV, ctx: CtxV, node: NodeV)
    ensures
        emit_node(root, g, ctx, node) matches Ok((g2, _)) ==> extends(g, g2),
{
    let t = node.tok;
    if node.kind == NodeKind::BinaryOp {
        if arith(t.kind) is None {
            if t.kind == TokKind::LogOr && pos_ok(t.pos) {
                let sz = size_i(node.datatype);
                let rhs_l = at(".rhs_", t);
                let end_l = at(".end_", t);
                let g1 = put(
                    g,
                    seq![
                        comment_v("BinOp Logical Or"@),
                        pop_v(Register::RAX),
                        pop_v(Register::RBX),
                        jzero_v(Register::RAX, rhs_l, sz),
                        jlabel_v(end_l),
                    ],
                );
                let g2 = place(g1, rhs_l);
                let g3 = put(
                    g2,
                    seq![
                        iv(InstrKind::RegBNeIntLitA, lit(0), reg(Register::RBX, sz)),
                        regs_v(InstrKind::CopyToRegA, Register::RAX, Register::RBX, sz),
                    ],
                );
                let g4 = place(g3, end_l);
                ext_trans(g, g1, g2);
                ext_trans(g, g2, g3);
                ext_trans(g, g3, g4);
                ext_trans(g, g4, put(g4, seq![push_reg_v(Register::RAX)]));
            } else if t.kind == TokKind::LogAnd && pos_ok(t.pos) {
                let sz = size_i(node.datatype);
                let false_l = at(".false_", t);
                let end_l = at(".end_", t);
                let g1 = put(
                    g,
                    seq![
                        comment_v("BinOp Logical And"@),
                        pop_v(Register::RAX),
                        pop_v(Register::RBX),
                        jzero_v(Register::RAX, false_l, sz),
                        jzero_v(Register::RBX, false_l, sz),
                        push_int_v(1),
                        jlabel_v(end_l),
                    ],
                );
                let g2 = place(g1, false_l);
                let g3 = put(g2, seq![push_int_v(0)]);
                ext_trans(g, g1, g2);
                ext_trans(g, g2, g3);
                ext_trans(g, g3, place(g3, end_l));
            }
        }
    } else if node.kind == NodeKind::Continue || node.kind == NodeKind::Break {
        if let Ok(g2) = emit_jump(root, g, ctx, node) {
            let id = ctx.ident;
            let f = first_with_tok(post_order_v(root), id).unwrap();
            let cnt = decls_until(in_order_v(f.children.last()), 0, node);
            let g1 = if cnt > 0 {
                put(g, seq![dealloc_v((cnt * 8) as i64)])
            } else {
                g
            };
            ext_trans(g, g1, g2);
        }
    } else if node.kind == NodeKind::FuncCall {
        if node.children.len() <= 6 {
            let g1 = put(
                g,
                seq![comment_v("Function Call"@)] + user_pops(node.children.len() as int) + seq![
                    iv(InstrKind::Call, name(label_v("func_".spec_bytes() + t.val)), OperandV::Blank),
                ],
            );
            ext_trans(g, g1, put(g1, seq![push_reg_v(Register::RAX)]));
        }
    }
}

proof fn ext_seq(root: NodeV, g: GenV, ctx: CtxV, ns: Seq<NodeV>, i: int)
    ensures
        emit_seq(root, g, ctx, ns, i) matches Ok((g2, _)) ==> extends(g, g2),
    decreases ns.len() - i,
{
    if 0 <= i < ns.len() {
        ext_node(root, g, ctx, ns[i]);
        if let Ok((g2, c2)) = emit_node(root, g, ctx, ns[i]) {
            ext_seq(root, g2, c2, ns, i + 1);
            if let Ok((g3, _)) = emit_seq(root, g2, c2, ns, i + 1) {
                ext_trans(g, g2, g3);
            }
        }
    }
}

proof fn ext_tree(root: NodeV, g: GenV, ctx: CtxV, n: NodeV)
    ensures
        emit_tree(root, g, ctx, n) matches Ok((g2, _)) ==> extends(g, g2),
{
    ext_seq(root, g, ctx, post_order_v(n), 0);
}

proof fn ext_assign(root: NodeV, g: GenV, ctx: CtxV, st: NodeV)
    ensures
        emit_assign(root, g, ctx, st) matches Ok((g2, _)) ==> extends(g, g2),
{
    let g1 = put(g, seq![comment_v("Assign"@)]);
    if st.children.len() >= 2 {
        ext_tree(root, g1, ctx, st.children[1]);
        if let Ok((g2, c2)) = emit_tree(root, g1, ctx, st.children[1]) {
            ext_trans(g, g1, g2);
            let lg = st.children[0];
            if lg.kind == NodeKind::UnaryOp && lg.tok.kind == TokKind::Deref && lg.children.len() > 0
                && lg.children[0].kind != NodeKind::Var {
                ext_tree(root, g2, c2, lg.children[0]);
                if let Ok((g3, _)) = emit_tree(root, g2, c2, lg.children[0]) {
                    ext_trans(g, g2, g3);
                    ext_trans(g, g3, emit_store(root, g2, c2, st)->Ok_0.0);
                }
            } else if lg.kind == NodeKind::BinaryOp && lg.tok.kind == TokKind::Subscript && lg.children.len() > 0 {
                ext_tree(root, g2, c2, lg.children.last());
                if let Ok((g3, _)) = emit_tree(root, g2, c2, lg.children.last()) {
                    ext_trans(g, g2, g3);
                    if let Ok((g4, _)) = emit_store(root, g2, c2, st) {
                        ext_trans(g, g3, g4);
                    }
                }
            } else if let Ok((g4, _)) = emit_store(root, g2, c2, st) {
                ext_trans(g, g2, g4);
            }
        }
    }
}

proof fn ext_stmt(root: NodeV, g: GenV, ctx: CtxV, st: NodeV)
    ensures
        emit_stmt(root, g, ctx, st) matches Ok((g2, _)) ==> extends(g, g2),
    decreases st, 1int, 0int,
{
    let k = st.kind;
    if k == NodeKind::VarDecl || k == NodeKind::Continue || k == NodeKind::Break || k == NodeKind::Return || k
        == NodeKind::Syscall || k == NodeKind::FuncCall {
        ext_tree(root, g, ctx, st);
    } else if k == NodeKind::Assign {
        ext_assign(root, g, ctx, st);
    } else if k == NodeKind::WhileLoop {
        ext_while(root, g, ctx, st);
    } else if k == NodeKind::ForLoop {
        ext_for(root, g, ctx, st);
    } else if k == NodeKind::Conditional {
        ext_cond(root, g, ctx, st);
    }
}

proof fn ext_stmts(root: NodeV, g: GenV, ctx: CtxV, sts: Seq<NodeV>, i: int)
    ensures
        emit_stmts(root, g, ctx, sts, i) matches Ok((g2, _)) ==> extends(g, g2),
    decreases sts, 0int, sts.len() - i,
{
    if 0 <= i < sts.len() {
        ext_stmt(root, g, ctx, sts[i]);
        if let Ok((g2, c2)) = emit_stmt(root, g, ctx, sts[i]) {
            ext_stmts(root, g2, c2, sts, i + 1);
            if let Ok((g3, _)) = emit_stmts(root, g2, c2, sts, i + 1) {
                ext_trans(g, g2, g3);
            }
        }
    }
}

proof fn ext_while_rest(root: NodeV, g: GenV, ctx: CtxV, st: NodeV, loop_l: LabelV)
    ensures
        emit_while_rest(root, g, ctx, st, loop_l) matches Ok((g2, _)) ==> extends(g, g2),
    decreases st, 0int, 0int,
{
    let t = st.tok;
    let wctx = CtxV { ident: t, ..ctx };
    if st.children.len() > 1 && st.children[1].kind != NodeKind::Null {
        ext_stmts(root, g, wctx, st.children[1].children, 0);
    }
    let br = if st.children.len() > 1 && st.children[1].kind != NodeKind::Null {
        emit_stmts(root, g, wctx, st.children[1].children, 0)
    } else {
        Ok((g, wctx))
    };
    if let Ok((g4, w4)) = br {
        if let Ok(g5) = close_scope(g4, w4, ctx, t) {
            ext_trans(g, g4, g5);
            let g5b = place(g5, at(".continue_", t));
            let g6 = put(g5b, seq![jlabel_v(loop_l)]);
            ext_trans(g, g5, g5b);
            ext_trans(g, g5b, g6);
            let g6b = place(g6, at(".break_", t));
            ext_trans(g, g6, g6b);
            if let Ok(g7) = close_scope(g6b, w4, ctx, t) {
                ext_trans(g, g6b, g7);
                ext_trans(g, g7, place(g7, at(".end_", t)));
            }
        }
    }
}

proof fn ext_while(root: NodeV, g: GenV, ctx: CtxV, st: NodeV)
    ensures
        emit_while(root, g, ctx, st) matches Ok((g2, _)) ==> extends(g, g2),
    decreases st, 0int, 1int,
{
    let t = st.tok;
    if pos_ok(t.pos) {
        let g0 = put(g, seq![comment_v("While"@)]);
        let loop_l = at(".while_", t);
        let g1 = place(g0, loop_l);
        ext_trans(g, g0, g1);
        if st.children.len() > 0 {
            ext_tree(root, g1, ctx, st.children[0]);
        }
        if let Ok((g3, c3)) = emit_while_cond(root, g1, ctx, st) {
            if st.children.len() > 0 {
                let g2 = emit_tree(root, g1, ctx, st.children[0])->Ok_0.0;
                ext_trans(g, g1, g2);
                ext_trans(g, g2, g3);
            }
            ext_while_rest(root, g3, c3, st, placed(g0, loop_l));
            if let Ok((g4, _)) = emit_while_rest(root, g3, c3, st, placed(g0, loop_l)) {
                ext_trans(g, g3, g4);
            }
        }
    }
}

proof fn ext_for_head(root: NodeV, g: GenV, ctx: CtxV, st: NodeV)
    ensures
        emit_for_head(root, g, ctx, st) matches Ok((g2, _)) ==> extends(g, g2),
    decreases st, 0int, 0int,
{
    let has_decl = st.children.len() > 0 && st.children[0].kind != NodeKind::Null;
    let gd = put(g, seq![comment_v("Decl"@)]);
    if has_decl {
        ext_tree(root, gd, ctx, st.children[0]);
    }
    let dr = if has_decl {
        emit_tree(root, gd, ctx, st.children[0])
    } else {
        Ok((g, ctx))
    };
    if let Ok((g2, c2)) = dr {
        if has_decl {
            ext_trans(g, gd, g2);
        }
        if st.children.len() > 1 && st.children[1].kind != NodeKind::Null {
            let gi = put(g2, seq![comment_v("Init"@)]);
            ext_stmt(root, gi, c2, st.children[1]);
            ext_trans(g, g2, gi);
            if let Ok((g3, _)) = emit_stmt(root, gi, c2, st.children[1]) {
                ext_trans(g, gi, g3);
            }
        }
    }
}

proof fn ext_for_cond(root: NodeV, g: GenV, ctx: CtxV, st: NodeV)
    ensures
        emit_for_cond(root, g, ctx, st) matches Ok((g2, _)) ==> extends(g, g2),
{
    if st.children.len() > 2 && st.children[2].kind != NodeKind::Null {
        let gc = put(g, seq![comment_v("Condition"@)]);
        ext_tree(root, gc, ctx, st.children[2]);
        if let Ok((g5, _)) = emit_tree(root, gc, ctx, st.children[2]) {
            ext_trans(g, gc, g5);
            ext_trans(g, g5, emit_for_cond(root, g, ctx, st)->Ok_0.0);
        }
    }
}

proof fn ext_for_body(root: NodeV, g: GenV, ctx: CtxV, fctx: CtxV, st: NodeV)
    ensures
        emit_for_body(root, g, ctx, fctx, st) matches Ok((g2, _)) ==> extends(g, g2),
    decreases st, 0int, 0int,
{
    let has_body = st.children.len() > 4 && st.children[4].kind != NodeKind::Null;
    let gb = put(g, seq![comment_v("Body"@)]);
    if has_body {
        ext_stmts(root, gb, fctx, st.children[4].children, 0);
    }
    let br = if has_body {
        emit_stmts(root, gb, fctx, st.children[4].children, 0)
    } else {
        Ok((g, fctx))
    };
    if let Ok((g6, f6)) = br {
        if has_body {
            ext_trans(g, gb, g6);
        }
        let gp = put(g6, seq![comment_v("Post"@)]);
        ext_trans(g, g6, gp);
        if let Ok(g7) = close_scope(gp, f6, ctx, st.tok) {
            ext_trans(g, gp, g7);
        }
    }
}

proof fn ext_for_tail(root: NodeV, g: GenV, ctx: CtxV, fctx: CtxV, st: NodeV, loop_l: LabelV)
    ensures
        emit_for_tail(root, g, ctx, fctx, st, loop_l) matches Ok((g2, _)) ==> extends(g, g2),
    decreases st, 0int, 0int,
{
    let t = st.tok;
    let g8 = place(g, at(".continue_", t));
    let has_post = st.children.len() > 3 && st.children[3].kind != NodeKind::Null;
    if has_post {
        ext_stmt(root, g8, fctx, st.children[3]);
    }
    let pr = if has_post {
        emit_stmt(root, g8, fctx, st.children[3])
    } else {
        Ok((g8, fctx))
    };
    if let Ok((g9, _)) = pr {
        ext_trans(g, g8, g9);
        let g10 = put(g9, seq![jlabel_v(loop_l)]);
        let g10b = place(g10, at(".break_", t));
        let g10c = put(g10b, seq![comment_v("End"@)]);
        let g11 = place(g10c, at(".end_", t));
        ext_trans(g, g9, g10);
        ext_trans(g, g10, g10b);
        ext_trans(g, g10b, g10c);
        ext_trans(g, g10c, g11);
        ext_trans(g, g11, put(g11, seq![dealloc_v(8)]));
    }
}

proof fn ext_for(root: NodeV, g: GenV, ctx: CtxV, st: NodeV)
    ensures
        emit_for(root, g, ctx, st) matches Ok((g2, _)) ==> extends(g, g2),
    decreases st, 0int, 1int,
{
    let t = st.tok;
    if pos_ok(t.pos) {
        let g0 = put(g, seq![comment_v("For"@)]);
        ext_for_head(root, g0, ctx, st);
        if let Ok((g3, c3)) = emit_for_head(root, g0, ctx, st) {
            ext_trans(g, g0, g3);
            let fctx = CtxV { ident: t, ..c3 };
            let loop_l = at(".for_", t);
            let g4 = place(g3, loop_l);
            ext_trans(g, g3, g4);
            ext_for_cond(root, g4, c3, st);
            if let Ok((g5, c5)) = emit_for_cond(root, g4, c3, st) {
                ext_trans(g, g4, g5);
                ext_for_body(root, g5, c5, fctx, st);
                if let Ok((g7, f7)) = emit_for_body(root, g5, c5, fctx, st) {
                    ext_trans(g, g5, g7);
                    ext_for_tail(root, g7, c5, f7, st, placed(g3, loop_l));
                    if let Ok((g8, _)) = emit_for_tail(root, g7, c5, f7, st, placed(g3, loop_l)) {
                        ext_trans(g, g7, g8);
                    }
                }
            }
        }
    }
}

proof fn ext_if_only(root: NodeV, g: GenV, ctx: CtxV, st: NodeV)
    ensures
        emit_if_only(root, g, ctx, st) matches Ok((g2, _)) ==> extends(g, g2),
    decreases st, 0int, 0int,
{
    let t = st.tok;
    let end_l = at(".end_", t);
    let g4 = put(g, seq![jzero_v(Register::RAX, end_l, size_i(st.children[0].datatype)), comment_v("If"@)]);
    if st.children.len() > 1 {
        ext_stmts(root, g4, ctx, st.children[1].children, 0);
    }
    let ir = if st.children.len() > 1 {
        emit_stmts(root, g4, ctx, st.children[1].children, 0)
    } else {
        Ok((g4, ctx))
    };
    if let Ok((g5, i5)) = ir {
        ext_trans(g, g4, g5);
        if let Ok(g6) = close_scope(g5, i5, ctx, t) {
            ext_trans(g, g5, g6);
            ext_trans(g, g6, place(g6, end_l));
        }
    }
}

proof fn ext_if_else(root: NodeV, g: GenV, ctx: CtxV, st: NodeV)
    ensures
        emit_if_else(root, g, ctx, st) matches Ok((g2, _)) ==> extends(g, g2),
    decreases st, 0int, 0int,
{
    let t = st.tok;
    let end_l = at(".end_", t);
    let else_l = at(".else_", t);
    let g4 = put(g, seq![jzero_v(Register::RAX, else_l, size_i(st.children[0].datatype)), comment_v("If"@)]);
    if st.children.len() > 1 {
        ext_stmts(root, g4, ctx, st.children[1].children, 0);
    }
    let ir = if st.children.len() > 1 {
        emit_stmts(root, g4, ctx, st.children[1].children, 0)
    } else {
        Ok((g4, ctx))
    };
    if let Ok((g5, _)) = ir {
        ext_trans(g, g4, g5);
        let g5a = put(g5, seq![jlabel_v(end_l)]);
        let g5b = place(g5a, else_l);
        let g6 = put(g5b, seq![comment_v("Else"@)]);
        ext_trans(g, g5, g5a);
        ext_trans(g, g5a, g5b);
        ext_trans(g, g5b, g6);
        if st.children.len() > 2 {
            ext_stmts(root, g6, ctx, st.children[2].children, 0);
        }
        let er = if st.children.len() > 2 {
            emit_stmts(root, g6, ctx, st.children[2].children, 0)
        } else {
            Ok((g6, ctx))
        };
        if let Ok((g7, _)) = er {
            ext_trans(g, g6, g7);
            ext_trans(g, g7, place(g7, end_l));
        }
    }
}

proof fn ext_cond(root: NodeV, g: GenV, ctx: CtxV, st: NodeV)
    ensures
        emit_cond(root, g, ctx, st) matches Ok((g2, _)) ==> extends(g, g2),
    decreases st, 0int, 1int,
{
    let t = st.tok;
    if pos_ok(t.pos) && st.children.len() > 0 {
        let g1 = put(g, seq![comment_v("Conditional"@)]);
        ext_tree(root, g1, ctx, st.children[0]);
        if let Ok((g2, c2)) = emit_tree(root, g1, ctx, st.children[0]) {
            ext_trans(g, g1, g2);
            let g3 = put(g2, seq![pop_v(Register::RAX)]);
            ext_trans(g, g2, g3);
            if st.children.len() == 2 {
                ext_if_only(root, g3, c2, st);
                if let Ok((g4, _)) = emit_if_only(root, g3, c2, st) {
                    ext_trans(g, g3, g4);
                }
            } else {
                ext_if_else(root, g3, c2, st);
                if let Ok((g4, _)) = emit_if_else(root, g3, c2, st) {
                    ext_trans(g, g3, g4);
                }
            }
        }
    }
}

proof fn ext_bind_args(g: GenV, ctx: CtxV, args: Seq<NodeV>, i: int)
    ensures
        bind_args(g, ctx, args, i) matches Ok((g2, _)) ==> extends(g, g2),
    decreases args.len() - i,
{
    if 0 <= i < args.len() {
        let a = args[i];
        let g1 = put(g, seq![push_reg_v(user_reg(i))]);
        let c1 = CtxV {
            locals: insert_entry(ctx.locals, a.tok.val, Var { typ: a.datatype, offset: ctx.stack_ix }),
            stack_ix: (ctx.stack_ix - 8) as i64,
            ..ctx
        };
        ext_bind_args(g1, c1, args, i + 1);
        if let Ok((g2, _)) = bind_args(g1, c1, args, i + 1) {
            ext_trans(g, g1, g2);
        }
    }
}

proof fn ext_func(root: NodeV, g: GenV, f: NodeV)
    ensures
        emit_func(root, g, f) matches Ok(g2) ==> extends(g, g2),
{
    let g1 = put(g, seq![comment_v("Function Declaration"@)]);
    let g1b = place(g1, label_v("func_".spec_bytes() + f.tok.val));
    let g2 = put(g1b, seq![push_reg_v(Register::RBP), regs_v(InstrKind::CopyToRegA, Register::RBP, Register::RSP, 8)]);
    ext_trans(g, g1, g1b);
    ext_trans(g, g1b, g2);
    let ga = put(g2, seq![comment_v("Args"@)]);
    if f.children.len() > 0 && f.children[0].children.len() <= 6 {
        ext_bind_args(ga, func_ctx(), f.children[0].children, 0);
    }
    let ar = if f.children.len() > 0 {
        if f.children[0].children.len() > 6 {
            Err(tok_error(ErrorKind::TooManyArgs, f.tok))
        } else {
            bind_args(ga, func_ctx(), f.children[0].children, 0)
        }
    } else {
        Ok((g2, func_ctx()))
    };
    if let Ok((g3, c3)) = ar {
        if f.children.len() > 0 {
            ext_trans(g, g2, ga);
            ext_trans(g, ga, g3);
        }
        if f.children.len() > 1 {
            let gb = put(g3, seq![comment_v("Body"@)]);
            ext_trans(g, g3, gb);
            ext_stmts(root, gb, c3, f.children[1].children, 0);
            if let Ok((g4, _)) = emit_stmts(root, gb, c3, f.children[1].children, 0) {
                ext_trans(g, gb, g4);
                let g5 = place(g4, label_v(".epilogue".spec_bytes()));
                ext_trans(g, g4, g5);
                ext_trans(
                    g,
                    g5,
                    put(
                        g5,
                        seq![
                            regs_v(InstrKind::CopyToRegA, Register::RSP, Register::RBP, 8),
                            pop_v(Register::RBP),
                            iv(InstrKind::Return, OperandV::Blank, OperandV::Blank),
                        ],
                    ),
                );
            }
        }
    }
}

proof fn ext_funcs(root: NodeV, g: GenV, top: Seq<NodeV>, i: int)
    ensures
        emit_funcs(root, g, top, i) matches Ok(g2) ==> extends(g, g2),
    decreases top.len() - i,
{
    if 0 <= i < top.len() && top[i].kind == NodeKind::FuncDecl {
        ext_func(root, g, top[i]);
        if let Ok(g2) = emit_func(root, g, top[i]) {
            ext_funcs(root, g2, top, i + 1);
            if let Ok(g3) = emit_funcs(root, g2, top, i + 1) {
                ext_trans(g, g2, g3);
            }
        }
    }
}

/// What closes the scope of an `if` body that added `n` variables: a
/// deallocation of their 8 bytes each, where there are any, then the
/// `if`'s end label.
pub open spec fn if_tail(g5: GenV, n: int, end_l: LabelV) -> Seq<InstrV> {
    if n > 0 {
        seq![dealloc_v((n * 8) as i64), label_instr_v(placed(g5, end_l))]
    } else {
        seq![label_instr_v(placed(g5, end_l))]
    }
}

/// An `if` without `else` has a scope of its own: after it the scope is
/// the one before it, so what its body declared is no longer visible; its
/// code ends by freeing 8 bytes for each variable the body added to the
/// scope, then places its end label.
#[verifier::spinoff_prover]
#[verifier::rlimit(100)]
pub proof fn law_if_keeps_scope(root: NodeV, g: GenV, ctx: CtxV, st: NodeV)
    requires
        st.children.len() == 2,
    ensures
        emit_if_only(root, g, ctx, st) matches Ok((g2, c2)) ==> {
            let end_l = at(".end_", st.tok);
            let g4 = put(g, seq![jzero_v(Register::RAX, end_l, size_i(st.children[0].datatype)), comment_v("If"@)]);
            &&& c2 == ctx
            &&& emit_stmts(root, g4, ctx, st.children[1].children, 0) matches Ok((g5, inner)) && {
                &&& inner.locals.len() >= ctx.locals.len()
                &&& g2.instrs == g5.instrs + if_tail(g5, inner.locals.len() - ctx.locals.len(), end_l)
            }
        },
{
    let end_l = at(".end_", st.tok);
    let g4 = put(g, seq![jzero_v(Register::RAX, end_l, size_i(st.children[0].datatype)), comment_v("If"@)]);
    match emit_stmts(root, g4, ctx, st.children[1].children, 0) {
        Err(_) => {},
        Ok((g5, inner)) => {
            let n = inner.locals.len() - ctx.locals.len();
            match close_scope(g5, inner, ctx, st.tok) {
                Err(_) => {},
                Ok(g6) => {
                    assert(g6.labels == g5.labels);
                    assert(placed(g6, end_l) == placed(g5, end_l));
                    if n > 0 {
                        assert(g6.instrs == g5.instrs + seq![dealloc_v((n * 8) as i64)]);
                    } else {
                        assert(g6.instrs == g5.instrs);
                    }
                    assert(place(g6, end_l).instrs == g6.instrs + seq![label_instr_v(placed(g5, end_l))]);
                    assert(place(g6, end_l).instrs =~= g5.instrs + if_tail(g5, n, end_l));
                    assert(emit_if_only(root, g, ctx, st) == Ok::<(GenV, CtxV), ErrV>((place(g6, end_l), ctx)));
                },
            }
        },
    }
}

/// Whether a node declares nothing of its own: it is no declaration, and
/// as a `for` loop it has no loop variable.
pub open spec fn declares_nothing(n: NodeV) -> bool {
    &&& n.kind != NodeKind::VarDecl
    &&& (n.kind == NodeKind::ForLoop && n.children.len() > 0 ==> n.children[0].kind == NodeKind::Null)
}

/// Whether a tree declares nothing: no node of it does.
pub open spec fn plain(n: NodeV) -> bool {
    forall|j: int| 0 <= j < post_order_v(n).len() ==> declares_nothing(#[trigger] post_order_v(n)[j])
}

/// Whether no node in the walks of some trees declares anything.
pub open spec fn plain_all(cs: Seq<NodeV>) -> bool {
    forall|j: int| 0 <= j < post_order_all(cs).len() ==> declares_nothing(#[trigger] post_order_all(cs)[j])
}

proof fn lemma_plain_all_split(cs: Seq<NodeV>)
    requires
        plain_all(cs),
    ensures
        forall|i: int| 0 <= i < cs.len() ==> #[trigger] plain(cs[i]),
    decreases cs.len(),
{
    if cs.len() > 0 {
        let a = post_order_all(cs.drop_last());
        let b = post_order_v(cs.last());
        assert(post_order_all(cs) == a + b);
        assert forall|j: int| 0 <= j < a.len() implies declares_nothing(#[trigger] a[j]) by {
            assert(post_order_all(cs)[j] == a[j]);
        }
        assert(plain_all(cs.drop_last()));
        lemma_plain_all_split(cs.drop_last());
        assert forall|j: int| 0 <= j < b.len() implies declares_nothing(#[trigger] b[j]) by {
            assert(post_order_all(cs)[a.len() + j] == b[j]);
        }
        assert forall|i: int| 0 <= i < cs.len() implies #[trigger] plain(cs[i]) by {
            if i < cs.len() - 1 {
                assert(cs.drop_last()[i] == cs[i]);
            }
        }
    }
}

/// The children of a tree that declares nothing declare nothing.
proof fn lemma_plain_child(n: NodeV, i: int)
    requires
        plain(n),
        0 <= i < n.children.len(),
    ensures
        plain(n.children[i]),
{
    let a = post_order_all(n.children);
    assert(post_order_v(n) == a + seq![n]);
    assert forall|j: int| 0 <= j < a.len() implies declares_nothing(#[trigger] a[j]) by {
        assert(post_order_v(n)[j] == a[j]);
    }
    assert(plain_all(n.children));
    lemma_plain_all_split(n.children);
}

/// A tree that declares nothing is none of its own declarations.
proof fn lemma_plain_self(n: NodeV)
    requires
        plain(n),
    ensures
        declares_nothing(n),
{
    let p = post_order_v(n);
    assert(p[p.len() - 1] == n);
}

proof fn lemma_node_keeps(root: NodeV, g: GenV, ctx: CtxV, node: NodeV)
    requires
        node.kind != NodeKind::VarDecl,
    ensures
        emit_node(root, g, ctx, node) matches Ok((_, c)) ==> c == ctx,
{
}

proof fn lemma_seq_keeps(root: NodeV, g: GenV, ctx: CtxV, ns: Seq<NodeV>, i: int)
    requires
        forall|j: int| 0 <= j < ns.len() ==> (#[trigger] ns[j]).kind != NodeKind::VarDecl,
    ensures
        emit_seq(root, g, ctx, ns, i) matches Ok((_, c)) ==> c == ctx,
    decreases ns.len() - i,
{
    if 0 <= i < ns.len() {
        lemma_node_keeps(root, g, ctx, ns[i]);
        if let Ok((g2, c2)) = emit_node(root, g, ctx, ns[i]) {
            lemma_seq_keeps(root, g2, c2, ns, i + 1);
        }
    }
}

proof fn lemma_tree_keeps(root: NodeV, g: GenV, ctx: CtxV, n: NodeV)
    requires
        plain(n),
    ensures
        emit_tree(root, g, ctx, n) matches Ok((_, c)) ==> c == ctx,
{
    assert(forall|j: int| 0 <= j < post_order_v(n).len() ==> declares_nothing(#[trigger] post_order_v(n)[j]));
    lemma_seq_keeps(root, g, ctx, post_order_v(n), 0);
}

proof fn lemma_assign_keeps(root: NodeV, g: GenV, ctx: CtxV, st: NodeV)
    requires
        plain(st),
    ensures
        emit_assign(root, g, ctx, st) matches Ok((_, c)) ==> c == ctx,
{
    if st.children.len() >= 2 {
        let g1 = put(g, seq![comment_v("Assign"@)]);
        lemma_plain_child(st, 1);
        lemma_tree_keeps(root, g1, ctx, st.children[1]);
        lemma_plain_child(st, 0);
        let lg = st.children[0];
        if lg.children.len() > 0 {
            lemma_plain_child(lg, 0);
            lemma_plain_child(lg, lg.children.len() - 1);
        }
        if let Ok((g2, c2)) = emit_tree(root, g1, ctx, st.children[1]) {
            if lg.children.len() > 0 {
                lemma_tree_keeps(root, g2, c2, lg.children[0]);
                lemma_tree_keeps(root, g2, c2, lg.children.last());
            }
        }
    }
}

proof fn lemma_while_keeps(root: NodeV, g: GenV, ctx: CtxV, st: NodeV)
    requires
        plain(st),
    ensures
        emit_while(root, g, ctx, st) matches Ok((_, c)) ==> c == ctx,
{
    if st.children.len() > 0 {
        lemma_plain_child(st, 0);
        let g0 = put(g, seq![comment_v("While"@)]);
        lemma_tree_keeps(root, place(g0, at(".while_", st.tok)), ctx, st.children[0]);
    }
}

proof fn lemma_cond_keeps(root: NodeV, g: GenV, ctx: CtxV, st: NodeV)
    requires
        plain(st),
    ensures
        emit_cond(root, g, ctx, st) matches Ok((_, c)) ==> c == ctx,
{
    if st.children.len() > 0 {
        lemma_plain_child(st, 0);
        lemma_tree_keeps(root, put(g, seq![comment_v("Conditional"@)]), ctx, st.children[0]);
    }
}

proof fn lemma_for_tail_keeps(root: NodeV, g: GenV, ctx: CtxV, fctx: CtxV, st: NodeV, loop_l: LabelV)
    requires
        st.children.len() > 0 ==> st.children[0].kind == NodeKind::Null,
    ensures
        emit_for_tail(root, g, ctx, fctx, st, loop_l) matches Ok((_, c)) ==> c == ctx,
{
}

proof fn lemma_for_head_keeps(root: NodeV, g: GenV, ctx: CtxV, st: NodeV)
    requires
        plain(st),
        st.kind == NodeKind::ForLoop,
    ensures
        emit_for_head(root, g, ctx, st) matches Ok((_, c)) ==> c == ctx,
    decreases st, 0int,
{
    lemma_plain_self(st);
    if st.children.len() > 1 && st.children[1].kind != NodeKind::Null {
        lemma_plain_child(st, 1);
        lemma_stmt_keeps(root, put(g, seq![comment_v("Init"@)]), ctx, st.children[1]);
    }
}

proof fn lemma_for_cond_keeps(root: NodeV, g: GenV, ctx: CtxV, st: NodeV)
    requires
        plain(st),
    ensures
        emit_for_cond(root, g, ctx, st) matches Ok((_, c)) ==> c == ctx,
{
    if st.children.len() > 2 && st.children[2].kind != NodeKind::Null {
        lemma_plain_child(st, 2);
        lemma_tree_keeps(root, put(g, seq![comment_v("Condition"@)]), ctx, st.children[2]);
    }
}

proof fn lemma_for_keeps(root: NodeV, g: GenV, ctx: CtxV, st: NodeV)
    requires
        plain(st),
        st.kind == NodeKind::ForLoop,
    ensures
        emit_for(root, g, ctx, st) matches Ok((_, c)) ==> c == ctx,
    decreases st, 1int,
{
    lemma_plain_self(st);
    let t = st.tok;
    if pos_ok(t.pos) {
        let g1 = put(g, seq![comment_v("For"@)]);
        lemma_for_head_keeps(root, g1, ctx, st);
        match emit_for_head(root, g1, ctx, st) {
            Err(_) => {},
            Ok((g3, c3)) => {
                let fctx = CtxV { ident: t, ..c3 };
                let loop_l = at(".for_", t);
                lemma_for_cond_keeps(root, place(g3, loop_l), c3, st);
                match emit_for_cond(root, place(g3, loop_l), c3, st) {
                    Err(e) => {
                        assert(emit_for(root, g, ctx, st) == Err::<(GenV, CtxV), ErrV>(e));
                    },
                    Ok((g5, c5)) => match emit_for_body(root, g5, c5, fctx, st) {
                        Err(e) => {
                            assert(emit_for(root, g, ctx, st) == Err::<(GenV, CtxV), ErrV>(e));
                        },
                        Ok((g7, f7)) => {
                            lemma_for_tail_keeps(root, g7, c5, f7, st, placed(g3, loop_l));
                            assert(emit_for(root, g, ctx, st) == emit_for_tail(root, g7, c5, f7, st, placed(g3, loop_l)));
                        },
                    },
                }
            },
        }
    }
}

proof fn lemma_stmt_keeps(root: NodeV, g: GenV, ctx: CtxV, st: NodeV)
    requires
        plain(st),
    ensures
        emit_stmt(root, g, ctx, st) matches Ok((_, c)) ==> c == ctx,
    decreases st, 2int,
{
    lemma_plain_self(st);
    let k = st.kind;
    if k == NodeKind::Continue || k == NodeKind::Break || k == NodeKind::Return || k == NodeKind::Syscall || k
        == NodeKind::FuncCall {
        lemma_tree_keeps(root, g, ctx, st);
    } else if k == NodeKind::Assign {
        lemma_assign_keeps(root, g, ctx, st);
    } else if k == NodeKind::WhileLoop {
        lemma_while_keeps(root, g, ctx, st);
    } else if k == NodeKind::ForLoop {
        lemma_for_keeps(root, g, ctx, st);
    } else if k == NodeKind::Conditional {
        lemma_cond_keeps(root, g, ctx, st);
    }
}

/// Whether a statement is a declaration of one variable alone.
pub open spec fn leaf_decl(n: NodeV) -> bool {
    n.kind == NodeKind::VarDecl && n.children.len() == 0
}

/// The number of declarations among the statements from the `i`-th on.
pub open spec fn body_decls(sts: Seq<NodeV>, i: int) -> nat
    decreases sts.len() - i,
{
    if i < 0 || i >= sts.len() {
        0
    } else {
        (if leaf_decl(sts[i]) {
            1nat
        } else {
            0nat
        }) + body_decls(sts, i + 1)
    }
}

/// The scope after a declaration of one variable: the variable added at
/// the end, at the next free place on the stack.
pub open spec fn declared(ctx: CtxV, st: NodeV) -> CtxV {
    CtxV {
        locals: insert_entry(ctx.locals, st.tok.val, Var { typ: st.datatype, offset: ctx.stack_ix }),
        stack_ix: (ctx.stack_ix - 8) as i64,
        ..ctx
    }
}

proof fn lemma_decl_tree(root: NodeV, g: GenV, ctx: CtxV, st: NodeV)
    requires
        leaf_decl(st),
    ensures
        emit_tree(root, g, ctx, st) matches Ok((_, c)) ==> {
            &&& find_key(ctx.locals, st.tok.val) is None
            &&& ctx.stack_ix - 8 >= i64::MIN
            &&& c == declared(ctx, st)
            &&& c.locals.len() == ctx.locals.len() + 1
        },
{
    assert(post_order_all(st.children) =~= Seq::<NodeV>::empty());
    assert(post_order_v(st) =~= seq![st]);
    if let Ok((g2, c2)) = emit_node(root, g, ctx, st) {
        assert(emit_seq(root, g2, c2, seq![st], 1) == Ok::<(GenV, CtxV), ErrV>((g2, c2)));
        assert(emit_tree(root, g, ctx, st) == Ok::<(GenV, CtxV), ErrV>((g2, c2)));
    }
}

/// Taking out a name just added at the end gives back the table before.
proof fn lemma_remove_added<V>(s: Seq<(Seq<u8>, V)>, k: Seq<u8>, v: V)
    requires
        find_key(s, k) is None,
    ensures
        remove_entry(insert_entry(s, k, v), k) == s,
{
    let t = s.push((k, v));
    assert(t.drop_last() =~= s);
    assert(find_key(t, k) == Some(s.len() as int));
    assert(t.remove(s.len() as int) =~= s);
}

/// Whether a statement is a `for` loop whose loop variable is declared by
/// a declaration of its own, and whose start and condition declare nothing.
pub open spec fn for_with_var(n: NodeV) -> bool {
    &&& n.kind == NodeKind::ForLoop
    &&& n.children.len() > 2
    &&& leaf_decl(n.children[0])
    &&& plain(n.children[1])
    &&& plain(n.children[2])
}

proof fn lemma_for_var_head(root: NodeV, g: GenV, ctx: CtxV, st: NodeV)
    requires
        for_with_var(st),
    ensures
        emit_for_head(root, g, ctx, st) matches Ok((_, c)) ==> find_key(ctx.locals, st.children[0].tok.val) is None
            && ctx.stack_ix - 8 >= i64::MIN && c == declared(ctx, st.children[0]),
{
    let g1 = put(g, seq![comment_v("Decl"@)]);
    lemma_decl_tree(root, g1, ctx, st.children[0]);
    if let Ok((g2, c2)) = emit_tree(root, g1, ctx, st.children[0]) {
        if st.children[1].kind != NodeKind::Null {
            lemma_stmt_keeps(root, put(g2, seq![comment_v("Init"@)]), c2, st.children[1]);
        }
    }
}

/// Taking a declared variable out again gives back the scope before it.
proof fn lemma_undeclare(outer: CtxV, d0: NodeV)
    requires
        find_key(outer.locals, d0.tok.val) is None,
        outer.stack_ix - 8 >= i64::MIN,
    ensures
        ({
            let d = declared(outer, d0);
            CtxV { locals: remove_entry(d.locals, d0.tok.val), stack_ix: (d.stack_ix + 8) as i64, ..d }
        }) == outer,
{
    lemma_remove_added(outer.locals, d0.tok.val, Var { typ: d0.datatype, offset: outer.stack_ix });
}

proof fn lemma_for_var_tail(root: NodeV, g: GenV, ctx: CtxV, fctx: CtxV, st: NodeV, loop_l: LabelV, outer: CtxV)
    requires
        for_with_var(st),
        ctx == declared(outer, st.children[0]),
        ({
            let d = declared(outer, st.children[0]);
            CtxV { locals: remove_entry(d.locals, st.children[0].tok.val), stack_ix: (d.stack_ix + 8) as i64, ..d }
        }) == outer,
    ensures
        emit_for_tail(root, g, ctx, fctx, st, loop_l) matches Ok((_, c)) ==> c == outer,
{
}

proof fn lemma_for_var_keeps(root: NodeV, g: GenV, ctx: CtxV, st: NodeV)
    requires
        for_with_var(st),
    ensures
        emit_for(root, g, ctx, st) matches Ok((_, c)) ==> c == ctx,
{
    let t = st.tok;
    if pos_ok(t.pos) {
        let g1 = put(g, seq![comment_v("For"@)]);
        lemma_for_var_head(root, g1, ctx, st);
        match emit_for_head(root, g1, ctx, st) {
            Err(_) => {},
            Ok((g3, c3)) => {
                let fctx = CtxV { ident: t, ..c3 };
                let loop_l = at(".for_", t);
                if st.children[2].kind != NodeKind::Null {
                    lemma_tree_keeps(root, put(place(g3, loop_l), seq![comment_v("Condition"@)]), c3, st.children[2]);
                }
                match emit_for_cond(root, place(g3, loop_l), c3, st) {
                    Err(e) => {
                        assert(emit_for(root, g, ctx, st) == Err::<(GenV, CtxV), ErrV>(e));
                    },
                    Ok((g5, c5)) => match emit_for_body(root, g5, c5, fctx, st) {
                        Err(e) => {
                            assert(emit_for(root, g, ctx, st) == Err::<(GenV, CtxV), ErrV>(e));
                        },
                        Ok((g7, f7)) => {
                            lemma_undeclare(ctx, st.children[0]);
                            lemma_for_var_tail(root, g7, c5, f7, st, placed(g3, loop_l), ctx);
                            assert(emit_for(root, g, ctx, st) == emit_for_tail(root, g7, c5, f7, st, placed(g3, loop_l)));
                        },
                    },
                }
            },
        }
    }
}

proof fn lemma_stmts_count(root: NodeV, g: GenV, ctx: CtxV, sts: Seq<NodeV>, i: int)
    requires
        0 <= i,
        forall|j: int| 0 <= j < sts.len() ==> leaf_decl(#[trigger] sts[j]) || plain(sts[j]) || for_with_var(sts[j]),
    ensures
        emit_stmts(root, g, ctx, sts, i) matches Ok((_, c)) ==> c.locals.len() == ctx.locals.len() + body_decls(sts, i),
    decreases sts.len() - i,
{
    if i < sts.len() {
        let st = sts[i];
        if leaf_decl(st) {
            lemma_decl_tree(root, g, ctx, st);
        } else if plain(st) {
            lemma_stmt_keeps(root, g, ctx, st);
        } else {
            lemma_for_var_keeps(root, g, ctx, st);
        }
        if let Ok((g2, c2)) = emit_stmt(root, g, ctx, st) {
            lemma_stmts_count(root, g2, c2, sts, i + 1);
        }
    }
}

/// An `if` without `else` whose body declares variables only by
/// statements of their own (and by `for` loops, each of its own loop
/// variable, which the loop frees) frees exactly those: after it the scope is as
/// before, and its code ends by freeing 8 bytes for each such declaration,
/// where there is any, then places its end label.
pub proof fn law_if_frees_its_declarations(root: NodeV, g: GenV, ctx: CtxV, st: NodeV)
    requires
        st.children.len() == 2,
        forall|j: int|
            0 <= j < st.children[1].children.len() ==> leaf_decl(#[trigger] st.children[1].children[j]) || plain(
                st.children[1].children[j],
            ) || for_with_var(st.children[1].children[j]),
    ensures
        emit_if_only(root, g, ctx, st) matches Ok((g2, c2)) ==> {
            let end_l = at(".end_", st.tok);
            let g4 = put(g, seq![jzero_v(Register::RAX, end_l, size_i(st.children[0].datatype)), comment_v("If"@)]);
            let n = body_decls(st.children[1].children, 0) as int;
            &&& c2 == ctx
            &&& emit_stmts(root, g4, ctx, st.children[1].children, 0) matches Ok((g5, inner)) && {
                &&& inner.locals.len() == ctx.locals.len() + n
                &&& g2.instrs == g5.instrs + if_tail(g5, n, end_l)
            }
        },
{
    let end_l = at(".end_", st.tok);
    let g4 = put(g, seq![jzero_v(Register::RAX, end_l, size_i(st.children[0].datatype)), comment_v("If"@)]);
    law_if_keeps_scope(root, g, ctx, st);
    lemma_stmts_count(root, g4, ctx, st.children[1].children, 0);
}

/// The width in bytes of what a pointer of a type points at: 1 for `chr^`,
/// 8 for `i64^`.
pub open spec fn element_width(t: Datatype) -> i64 {
    if t == Datatype::ChrPtr {
        1
    } else {
        8
    }
}

/// Reading `a[i]` works only on a variable that points at `chr` or `i64`,
/// and addresses `a + i * w`, `w` the width of what `a` points at: the
/// index is multiplied by 1 for a `chr^` and by 8 for an `i64^`, then
/// added to the pointer, and the value there is read.
pub proof fn law_subscript_scales_by_width(g: GenV, ctx: CtxV, node: NodeV)
    requires
        node.children.len() > 0,
    ensures
        emit_subscript(g, ctx, node) matches Ok(g2) ==> {
            let v = lookup(ctx.locals, node.children[0].tok.val);
            let k = g.instrs.len() as int;
            &&& v is Some
            &&& v.unwrap().typ == Datatype::ChrPtr || v.unwrap().typ == Datatype::I64Ptr
            &&& g2.instrs.len() == k + 8
            &&& g2.instrs.subrange(0, k) == g.instrs
            &&& g2.instrs[k + 1] == InstrV { kind: InstrKind::Pop, opera: OperandV::Register { name: Register::RBX, size: 8 }, operb: OperandV::Blank }
            &&& g2.instrs[k + 2] == InstrV { kind: InstrKind::Pop, opera: OperandV::Register { name: Register::RAX, size: 8 }, operb: OperandV::Blank }
            &&& g2.instrs[k + 3] == InstrV {
                kind: InstrKind::CopyToRegA,
                opera: OperandV::Register { name: Register::RCX, size: 8 },
                operb: OperandV::LiteralInt { value: element_width(v.unwrap().typ) },
            }
            &&& g2.instrs[k + 4] == InstrV {
                kind: InstrKind::Mul,
                opera: OperandV::Register { name: Register::RBX, size: 8 },
                operb: OperandV::Register { name: Register::RCX, size: 8 },
            }
            &&& g2.instrs[k + 5] == InstrV {
                kind: InstrKind::Add,
                opera: OperandV::Register { name: Register::RAX, size: 8 },
                operb: OperandV::Register { name: Register::RBX, size: 8 },
            }
        },
        lookup(ctx.locals, node.children[0].tok.val) matches Some(v) && (v.typ == Datatype::ChrPtr || v.typ
            == Datatype::I64Ptr) ==> emit_subscript(g, ctx, node) is Ok,
{
    if let Ok(g2) = emit_subscript(g, ctx, node) {
        let k = g.instrs.len() as int;
        assert(g2.instrs.subrange(0, k) =~= g.instrs);
    }
}

/// Writing `a[i] = x` works only on a variable that points at `chr` or
/// `i64`, and stores at `a + i * w`, `w` the width of what `a` points at,
/// as many bytes as that width: the index is multiplied by 1 for a `chr^`
/// and by 8 for an `i64^`.
pub proof fn law_subscript_store_scales_by_width(root: NodeV, g: GenV, ctx: CtxV, st: NodeV)
    requires
        st.children.len() > 0,
        st.children[0].kind == NodeKind::BinaryOp,
        st.children[0].tok.kind == TokKind::Subscript,
        st.children[0].children.len() > 0,
    ensures
        emit_store(root, g, ctx, st) matches Ok((g3, _)) ==> {
            let lg = st.children[0];
            let done = emit_tree(root, g, ctx, lg.children.last())->Ok_0;
            let v = lookup(done.1.locals, lg.children[0].tok.val);
            let k = done.0.instrs.len() as int;
            let w = element_width(v.unwrap().typ);
            &&& v is Some
            &&& v.unwrap().typ == Datatype::ChrPtr || v.unwrap().typ == Datatype::I64Ptr
            &&& g3.instrs.len() == k + 7
            &&& g3.instrs[k + 2] == InstrV {
                kind: InstrKind::CopyToRegA,
                opera: OperandV::Register { name: Register::RCX, size: 8 },
                operb: OperandV::LiteralInt { value: w },
            }
            &&& g3.instrs[k + 3] == InstrV {
                kind: InstrKind::Mul,
                opera: OperandV::Register { name: Register::RBX, size: 8 },
                operb: OperandV::Register { name: Register::RCX, size: 8 },
            }
            &&& g3.instrs[k + 6] == InstrV {
                kind: InstrKind::CopyRegAToAdrAtRegB,
                opera: OperandV::Register { name: Register::RAX, size: w },
                operb: OperandV::Register { name: Register::RDX, size: 8 },
            }
        },
{
}

/// The instruction that computes a binary operator on its left operand in
/// RAX and its right operand in RBX: `+` adds, `-` subtracts, `*`
/// multiplies, `/` and `%` divide, and each comparison sets RAX by its own
/// condition.
pub open spec fn operator_instr(k: TokKind) -> Option<InstrKind> {
    match k {
        TokKind::Plus => Some(InstrKind::Add),
        TokKind::Minus => Some(InstrKind::Sub),
        TokKind::Mul => Some(InstrKind::Mul),
        TokKind::Div => Some(InstrKind::DivAByBManglingD),
        TokKind::Mod => Some(InstrKind::DivAByBManglingD),
        TokKind::Equal => Some(InstrKind::RegBEqA),
        TokKind::NotEqual => Some(InstrKind::RegBNeA),
        TokKind::GT => Some(InstrKind::RegBGtA),
        TokKind::GE => Some(InstrKind::RegBGeA),
        TokKind::LT => Some(InstrKind::RegBLtA),
        TokKind::LE => Some(InstrKind::RegBLeA),
        _ => None,
    }
}

/// A binary operator takes its operands from the stack, where the right
/// one is on top: it pops the right operand into RBX and the left into
/// RAX (for `+` and `*`, which commute, the two the other way round), applies
/// its own instruction to RAX and RBX, and pushes the result: the
/// remainder in RDX for `%`, RAX for every other operator.
pub proof fn law_binop_operands(g: GenV, ctx: CtxV, node: NodeV)
    requires
        operator_instr(node.tok.kind) is Some,
    ensures
        emit_binop(g, ctx, node) matches Ok(g2) && {
            let k = g.instrs.len() as int;
            let sz = node.datatype.size_of() as i64;
            let op = node.tok.kind;
            let rax = OperandV::Register { name: Register::RAX, size: 8 };
            let rbx = OperandV::Register { name: Register::RBX, size: 8 };
            &&& g2.instrs.len() == k + 5
            &&& g2.instrs.subrange(0, k) == g.instrs
            &&& g2.instrs[k + 3] == InstrV {
                kind: operator_instr(op).unwrap(),
                opera: OperandV::Register { name: Register::RAX, size: sz },
                operb: OperandV::Register { name: Register::RBX, size: sz },
            }
            &&& (op != TokKind::Plus && op != TokKind::Mul ==> {
                &&& g2.instrs[k + 1] == InstrV { kind: InstrKind::Pop, opera: rbx, operb: OperandV::Blank }
                &&& g2.instrs[k + 2] == InstrV { kind: InstrKind::Pop, opera: rax, operb: OperandV::Blank }
            })
            &&& (op == TokKind::Plus || op == TokKind::Mul ==> {
                &&& g2.instrs[k + 1] == InstrV { kind: InstrKind::Pop, opera: rax, operb: OperandV::Blank }
                &&& g2.instrs[k + 2] == InstrV { kind: InstrKind::Pop, opera: rbx, operb: OperandV::Blank }
            })
            &&& g2.instrs[k + 4] == InstrV {
                kind: InstrKind::Push,
                opera: OperandV::Register { name: if op == TokKind::Mod { Register::RDX } else { Register::RAX }, size: 8 },
                operb: OperandV::Blank,
            }
        },
{
    if let Ok(g2) = emit_binop(g, ctx, node) {
        assert(g2.instrs.subrange(0, g.instrs.len() as int) =~= g.instrs);
    }
}

/// Code generation only appends: what was made before stays in place,
/// the instructions, the labels and the strings; the labels it places
/// are numbered in the order they are placed; and the code of a program
/// ends with its data segment.
pub proof fn law_generation_appends(root: NodeV, g: GenV)
    ensures
        emit_program(root, g) matches Ok(g2) ==> {
            &&& extends(g, g2)
            &&& (numbered_from(g.labels, 0) ==> numbered_from(g2.labels, 0))
            &&& g2.instrs.len() >= g.instrs.len() + 1 + g2.strs.len()
            &&& g2.instrs.subrange(g2.instrs.len() - (1 + g2.strs.len()), g2.instrs.len() as int) == data_segment(
                g2.strs,
            )
        },
{
    ext_funcs(root, g, root.children, 0);
    if let Ok(g1) = emit_funcs(root, g, root.children, 0) {
        let g2 = put(g1, data_segment(g1.strs));
        ext_trans(g, g1, g2);
        assert(g2.instrs.subrange(g2.instrs.len() - (1 + g2.strs.len()), g2.instrs.len() as int) =~= data_segment(
            g2.strs,
        ));
    }
}

/// The intermediate representation of a program, as it is made from its
/// tree: the instructions, a cursor over them, the labels placed, and the
/// strings of the data segment.
pub struct IR<'a> {
    pub instrs: Vec<Instr>,
    pub cur: usize,
    pub labels: Vec<Label>,
    pub strs: Vec<Vec<u8>>,
    pub ast: &'a AST,
}

/// A result of generating code agrees with the spec: the state after, or
/// the error.
pub open spec fn gen_res(r: Result<(), CompileError>, g: GenV, c: CtxV, p: Result<(GenV, CtxV), ErrV>) -> bool {
    match p {
        Ok((g2, c2)) => r is Ok && g == g2 && c == c2,
        Err(e) => r is Err && r->Err_0@ == e,
    }
}

/// A result of generating code that leaves the scope alone agrees with
/// the spec.
pub open spec fn put_res(r: Result<(), CompileError>, g: GenV, p: Result<GenV, ErrV>) -> bool {
    match p {
        Ok(g2) => r is Ok && g == g2,
        Err(e) => r is Err && r->Err_0@ == e,
    }
}

/// A label named by a prefix and the position of a token counted from 1.
fn label_at(prefix: &'static str, t: &Tok) -> (r: Label)
    requires
        pos_ok(t.pos@),
    ensures
        r@ == at(prefix, t@),
{
    let p = t.pos();
    let l = Label::new_at(prefix, &p);
    assert(l@.name =~= at(prefix, t@).name);
    l
}

impl<'a> IR<'a> {
    /// What has been made so far.
    pub open spec fn gen_v(&self) -> GenV {
        GenV {
            instrs: instrs_view(self.instrs@),
            labels: self.labels@.map_values(|l: Label| l@),
            strs: self.strs@.map_values(|s: Vec<u8>| s@),
        }
    }

    /// The tree and the cursor are as in another state.
    pub open spec fn same_source(&self, other: &Self) -> bool {
        self.ast == other.ast && self.cur == other.cur
    }

    /// The tree the code is made from.
    pub open spec fn root(&self) -> NodeV {
        self.ast.root@
    }

    /// Nothing made yet from a tree.
    pub fn new(ast: &'a AST) -> (r: Self)
        ensures
            r.gen_v() == (GenV { instrs: seq![], labels: seq![], strs: seq![] }),
            r.cur == 0,
            r.ast == ast,
    {
        let r = IR { instrs: Vec::new(), labels: Vec::new(), strs: Vec::new(), cur: 0, ast };
        assert(r.gen_v().instrs =~= seq![]);
        assert(r.gen_v().labels =~= seq![]);
        assert(r.gen_v().strs =~= seq![]);
        r
    }

    /// The instruction under the cursor; moves the cursor past it.
    pub fn consume_instr(&mut self) -> (r: Instr)
        requires
            old(self).cur < old(self).instrs@.len(),
        ensures
            r@ == old(self).instrs@[old(self).cur as int]@,
            final(self).cur == old(self).cur + 1,
            final(self).instrs == old(self).instrs,
            final(self).labels == old(self).labels,
            final(self).strs == old(self).strs,
            final(self).ast == old(self).ast,
    {
        let n: usize = self.instrs.len();
        let r = self.instrs[self.cur].clone();
        self.cur = self.cur + 1;
        r
    }

    /// The instruction after the one under the cursor.
    pub fn peek_next_instr(&mut self) -> (r: Instr)
        requires
            old(self).cur + 1 < old(self).instrs@.len(),
        ensures
            r@ == old(self).instrs@[old(self).cur + 1]@,
            *final(self) == *old(self),
    {
        let n: usize = self.instrs.len();
        self.instrs[self.cur + 1].clone()
    }

    /// The instruction under the cursor.
    pub fn peek_instr(&mut self) -> (r: Instr)
        requires
            old(self).cur < old(self).instrs@.len(),
        ensures
            r@ == old(self).instrs@[old(self).cur as int]@,
            *final(self) == *old(self),
    {
        self.instrs[self.cur].clone()
    }

    /// Whether an instruction is under the cursor.
    pub fn has_instr(&self) -> (r: bool)
        ensures
            r == (self.cur < self.instrs@.len()),
    {
        self.cur < self.instrs.len()
    }

    /// Appends an instruction.
    fn emit(&mut self, i: Instr)
        ensures
            final(self).gen_v() == put(old(self).gen_v(), seq![i@]),
            final(self).same_source(old(self)),
    {
        let ghost v = i@;
        self.instrs.push(i);
        assert(self.gen_v().instrs =~= old(self).gen_v().instrs + seq![v]);
    }

    /// Numbers a label by the labels recorded before it, and records it.
    fn record_label(&mut self, label: &mut Label)
        ensures
            final(label)@ == placed(old(self).gen_v(), old(label)@),
            final(self).gen_v() == record(old(self).gen_v(), old(label)@),
            final(self).same_source(old(self)),
    {
        label.index = self.labels.len();
        let c = label.clone();
        self.labels.push(c);
        assert(self.gen_v().labels =~= old(self).gen_v().labels.push(placed(old(self).gen_v(), old(label)@)));
    }

    /// The code of a logical or, its operands already on the stack.
    fn generate_log_or(&mut self, node: &Node) -> (r: Result<(), CompileError>)
        ensures
            put_res(r, final(self).gen_v(), emit_log_or(old(self).gen_v(), node@)),
            final(self).same_source(old(self)),
    {
        let ghost g = self.gen_v();
        let sz: i64 = node.datatype.size();
        let t = &node.tok;
        if t.pos.row == u32::MAX || t.pos.col == u32::MAX {
            return Err(tok_err(ErrorKind::PositionOverflow, t));
        }
        let mut rhs_label = label_at(".rhs_", t);
        let mut end_label = label_at(".end_", t);
        self.emit(Instr::comment("BinOp Logical Or"));
        self.emit(Instr::pop(Register::RAX));
        self.emit(Instr::pop(Register::RBX));
        self.emit(Instr::jzero(Register::RAX, &rhs_label, sz));
        self.emit(Instr::jlabel(&end_label));
        let ghost g1 = self.gen_v();
        assert(g1.instrs =~= g.instrs + seq![
            comment_v("BinOp Logical Or"@),
            pop_v(Register::RAX),
            pop_v(Register::RBX),
            jzero_v(Register::RAX, at(".rhs_", t@), sz),
            jlabel_v(at(".end_", t@)),
        ]);
        self.record_label(&mut rhs_label);
        self.emit(Instr::label(&rhs_label));
        let ghost g2 = self.gen_v();
        self.emit(Instr::int_lit_a_ne_reg_b(0, Register::RBX, sz));
        self.emit(Instr::copy_reg_b_to_a(Register::RAX, Register::RBX, sz));
        let ghost g3 = self.gen_v();
        assert(g3.instrs =~= g2.instrs + seq![
            iv(InstrKind::RegBNeIntLitA, lit(0), reg(Register::RBX, sz)),
            regs_v(InstrKind::CopyToRegA, Register::RAX, Register::RBX, sz),
        ]);
        self.record_label(&mut end_label);
        self.emit(Instr::label(&end_label));
        self.emit(Instr::push_reg(Register::RAX));
        Ok(())
    }

    /// The code of a logical and, its operands already on the stack.
    fn generate_log_and(&mut self, node: &Node) -> (r: Result<(), CompileError>)
        ensures
            put_res(r, final(self).gen_v(), emit_log_and(old(self).gen_v(), node@)),
            final(self).same_source(old(self)),
    {
        let ghost g = self.gen_v();
        let sz: i64 = node.datatype.size();
        let t = &node.tok;
        if t.pos.row == u32::MAX || t.pos.col == u32::MAX {
            return Err(tok_err(ErrorKind::PositionOverflow, t));
        }
        let mut false_label = label_at(".false_", t);
        let mut end_label = label_at(".end_", t);
        self.emit(Instr::comment("BinOp Logical And"));
        self.emit(Instr::pop(Register::RAX));
        self.emit(Instr::pop(Register::RBX));
        self.emit(Instr::jzero(Register::RAX, &false_label, sz));
        self.emit(Instr::jzero(Register::RBX, &false_label, sz));
        self.emit(Instr::push_int_lit(1));
        self.emit(Instr::jlabel(&end_label));
        let ghost g1 = self.gen_v();
        assert(g1.instrs =~= g.instrs + seq![
            comment_v("BinOp Logical And"@),
            pop_v(Register::RAX),
            pop_v(Register::RBX),
            jzero_v(Register::RAX, at(".false_", t@), sz),
            jzero_v(Register::RBX, at(".false_", t@), sz),
            push_int_v(1),
            jlabel_v(at(".end_", t@)),
        ]);
        self.record_label(&mut false_label);
        self.emit(Instr::label(&false_label));
        self.emit(Instr::push_int_lit(0));
        self.record_label(&mut end_label);
        self.emit(Instr::label(&end_label));
        Ok(())
    }

    /// The code of a subscript, the array and the index already on the stack.
    fn generate_subscript(&mut self, node: &Node, ctx: &Context) -> (r: Result<(), CompileError>)
        ensures
            put_res(r, final(self).gen_v(), emit_subscript(old(self).gen_v(), ctx@, node@)),
            final(self).same_source(old(self)),
    {
        let ghost g = self.gen_v();
        let t = &node.tok;
        if node.children.len() == 0 {
            return Err(tok_err(ErrorKind::MalformedTree, t));
        }
        let lhs = &node.children[0];
        assert(node@.children[0] == lhs@);
        let size: i64 = match ctx.locals.get(lhs.tok.val.as_slice()) {
            Some(v) => match v.typ.base_type() {
                Some(b) => b.size(),
                None => {
                    return Err(tok_err(ErrorKind::CannotSubscript(v.typ), &lhs.tok));
                },
            },
            None => {
                return Err(tok_err(ErrorKind::VarNotFound, &lhs.tok));
            },
        };
        self.emit(Instr::comment("BinOp Subscript"));
        self.emit(Instr::pop(Register::RBX));
        self.emit(Instr::pop(Register::RAX));
        self.emit(Instr::copy_int_lit_b_to_a(Register::RCX, size, 8));
        self.emit(Instr::mul_regs(Register::RBX, Register::RCX, 8));
        self.emit(Instr::add_regs(Register::RAX, Register::RBX, 8));
        self.emit(Instr::deref_reg(Register::RAX, 8));
        self.emit(Instr::push_reg(Register::RAX));
        assert(self.gen_v().instrs =~= g.instrs + seq![
            comment_v("BinOp Subscript"@),
            pop_v(Register::RBX),
            pop_v(Register::RAX),
            iv(InstrKind::CopyToRegA, reg(Register::RCX, 8), lit(size)),
            regs_v(InstrKind::Mul, Register::RBX, Register::RCX, 8),
            regs_v(InstrKind::Add, Register::RAX, Register::RBX, 8),
            iv(InstrKind::DerefReg, reg(Register::RAX, 8), OperandV::Blank),
            push_reg_v(Register::RAX),
        ]);
        Ok(())
    }

    /// The code of a binary operation, its operands already on the stack.
    fn generate_binop(&mut self, node: &Node, ctx: &Context) -> (r: Result<(), CompileError>)
        ensures
            put_res(r, final(self).gen_v(), emit_binop(old(self).gen_v(), ctx@, node@)),
            final(self).same_source(old(self)),
    {
        let ghost g = self.gen_v();
        let sz: i64 = node.datatype.size();
        match arith_of(node.tok.kind) {
            Some((text, first, second, kind, result)) => {
                self.emit(Instr::comment(text));
                self.emit(Instr::pop(first));
                self.emit(Instr::pop(second));
                self.emit(Instr::regs(kind, Register::RAX, Register::RBX, sz));
                self.emit(Instr::push_reg(result));
                assert(self.gen_v().instrs =~= g.instrs + seq![
                    comment_v(text@),
                    pop_v(first),
                    pop_v(second),
                    regs_v(kind, Register::RAX, Register::RBX, sz),
                    push_reg_v(result),
                ]);
                Ok(())
            },
            None => match node.tok.kind {
                TokKind::LogOr => self.generate_log_or(node),
                TokKind::LogAnd => self.generate_log_and(node),
                TokKind::Subscript => self.generate_subscript(node, ctx),
                _ => Err(tok_err(ErrorKind::UnexpectedNode, &node.tok)),
            },
        }
    }

    /// The code of a system call, its arguments already on the stack.
    fn generate_syscall(&mut self, call: &Node) -> (r: Result<(), CompileError>)
        requires
            call.kind == NodeKind::Syscall,
        ensures
            match emit_node(old(self).root(), old(self).gen_v(), top_ctx(), call@) {
                Ok((g, _)) => r is Ok && final(self).gen_v() == g,
                Err(e) => r is Err && r->Err_0@ == e,
            },
            final(self).same_source(old(self)),
    {
        let ghost g = self.gen_v();
        let n: usize = call.children.len();
        assert(call@.children.len() == n);
        if n > 7 {
            return Err(tok_err(ErrorKind::TooManyArgs, &call.tok));
        }
        self.emit(Instr::comment("Syscall"));
        let mut i: usize = 0;
        while i < n
            invariant
                n <= 7,
                0 <= i <= n,
                self.gen_v() == put(g, seq![comment_v("Syscall"@)] + kernel_pops(i as int)),
                self.same_source(old(self)),
            decreases n - i,
        {
            self.emit(Instr::pop(kernel_reg_order(i)));
            assert(kernel_pops(i as int + 1) =~= kernel_pops(i as int).push(pop_v(kernel_reg(i as int))));
            assert(self.gen_v().instrs =~= g.instrs + (seq![comment_v("Syscall"@)] + kernel_pops(i as int + 1)));
            i = i + 1;
        }
        self.emit(Instr::syscall());
        self.emit(Instr::push_reg(Register::RAX));
        assert(self.gen_v().instrs =~= g.instrs + (seq![comment_v("Syscall"@)] + kernel_pops(n as int) + seq![
            iv(InstrKind::Syscall, OperandV::Blank, OperandV::Blank),
            push_reg_v(Register::RAX),
        ]));
        Ok(())
    }

    /// The code of a call, its arguments already on the stack.
    fn generate_func_call(&mut self, call: &Node) -> (r: Result<(), CompileError>)
        requires
            call.kind == NodeKind::FuncCall,
        ensures
            match emit_node(old(self).root(), old(self).gen_v(), top_ctx(), call@) {
                Ok((g, _)) => r is Ok && final(self).gen_v() == g,
                Err(e) => r is Err && r->Err_0@ == e,
            },
            final(self).same_source(old(self)),
    {
        let ghost g = self.gen_v();
        let n: usize = call.children.len();
        assert(call@.children.len() == n);
        if n > 6 {
            return Err(tok_err(ErrorKind::TooManyArgs, &call.tok));
        }
        self.emit(Instr::comment("Function Call"));
        let mut i: usize = 0;
        while i < n
            invariant
                n <= 6,
                0 <= i <= n,
                self.gen_v() == put(g, seq![comment_v("Function Call"@)] + user_pops(i as int)),
                self.same_source(old(self)),
            decreases n - i,
        {
            self.emit(Instr::pop(user_reg_order(i)));
            assert(user_pops(i as int + 1) =~= user_pops(i as int).push(pop_v(user_reg(i as int))));
            assert(self.gen_v().instrs =~= g.instrs + (seq![comment_v("Function Call"@)] + user_pops(i as int + 1)));
            i = i + 1;
        }
        let label = Label::new_named("func_", &call.tok.val);
        self.emit(Instr::call(&label));
        assert(self.gen_v().instrs =~= g.instrs + (seq![comment_v("Function Call"@)] + user_pops(n as int) + seq![
            iv(InstrKind::Call, name(label_v("func_".spec_bytes() + call@.tok.val)), OperandV::Blank),
        ]));
        if call.datatype != Datatype::Void {
            self.emit(Instr::push_reg(Register::RAX));
        }
        Ok(())
    }

    /// The code of a `break` or `continue`.
    fn generate_jump(&mut self, node: &Node, ctx: &Context) -> (r: Result<(), CompileError>)
        requires
            node.kind == NodeKind::Continue || node.kind == NodeKind::Break,
        ensures
            put_res(r, final(self).gen_v(), emit_jump(old(self).root(), old(self).gen_v(), ctx@, node@)),
            final(self).same_source(old(self)),
    {
        let ghost g = self.gen_v();
        let id = &ctx.ident;
        if id.kind == TokKind::Blank {
            return Err(tok_err(ErrorKind::InvalidScope, id));
        }
        let func = match self.ast.find_node(id) {
            Ok(f) => f,
            Err(e) => {
                return Err(e);
            },
        };
        let nc: usize = func.children.len();
        assert(func@.children.len() == nc);
        if nc == 0 {
            return Err(tok_err(ErrorKind::MalformedTree, &func.tok));
        }
        assert(func@.children.last() == func.children@[nc - 1]@);
        let ns = func.children[nc - 1].in_order();
        let ghost all = nodes_view(ns@);
        let mut cnt: usize = 0;
        let mut i: usize = 0;
        while i < ns.len()
            invariant
                all == nodes_view(ns@),
                all.len() == ns@.len(),
                0 <= cnt <= i <= ns@.len(),
                decls_until(all, 0, node@) == cnt + decls_until(all, i as int, node@),
            decreases ns@.len() - i,
        {
            let n = &ns[i];
            assert(all[i as int] == n@);
            if n.kind == NodeKind::VarDecl {
                cnt = cnt + 1;
            }
            if n.same(node) {
                i = ns.len();
            } else {
                i = i + 1;
            }
        }
        if cnt as u64 > 1152921504606846975u64 {
            return Err(tok_err(ErrorKind::FrameTooLarge, &node.tok));
        }
        if id.pos.row == u32::MAX || id.pos.col == u32::MAX {
            return Err(tok_err(ErrorKind::PositionOverflow, id));
        }
        if cnt > 0 {
            let c: i64 = cnt as i64;
            self.emit(Instr::dealloc_stack(c * 8));
        }
        let ghost g1 = self.gen_v();
        if node.kind == NodeKind::Continue {
            self.emit(Instr::comment("Continue"));
            let label = label_at(".continue_", id);
            self.emit(Instr::jlabel(&label));
            assert(self.gen_v().instrs =~= g1.instrs + seq![comment_v("Continue"@), jlabel_v(at(".continue_", id@))]);
        } else {
            self.emit(Instr::comment("Break"));
            let label = label_at(".break_", id);
            self.emit(Instr::jlabel(&label));
            assert(self.gen_v().instrs =~= g1.instrs + seq![comment_v("Break"@), jlabel_v(at(".break_", id@))]);
        }
        Ok(())
    }

    /// The code of one node of an expression or simple statement, its
    /// operands already on the stack.
    #[verifier::rlimit(40)]
    fn generate_from_node(&mut self, node: &Node, ctx: &mut Context) -> (r: Result<(), CompileError>)
        ensures
            gen_res(r, final(self).gen_v(), final(ctx)@, emit_node(old(self).root(), old(self).gen_v(), old(ctx)@, node@)),
            final(self).same_source(old(self)),
    {
        let ghost g = self.gen_v();
        let sz: i64 = node.datatype.size();
        let t = &node.tok;
        match node.kind {
            NodeKind::BinaryOp => self.generate_binop(node, ctx),
            NodeKind::UnaryOp => match t.kind {
                TokKind::Minus => {
                    self.emit(Instr::comment("UnOp Minus"));
                    self.emit(Instr::pop(Register::RAX));
                    self.emit(Instr::neg_reg(Register::RAX, sz));
                    self.emit(Instr::push_reg(Register::RAX));
                    assert(self.gen_v().instrs =~= g.instrs + seq![
                        comment_v("UnOp Minus"@),
                        pop_v(Register::RAX),
                        iv(InstrKind::NegReg, reg(Register::RAX, sz), OperandV::Blank),
                        push_reg_v(Register::RAX),
                    ]);
                    Ok(())
                },
                TokKind::Deref => {
                    self.emit(Instr::comment("UnOp Dereference"));
                    self.emit(Instr::pop(Register::RAX));
                    self.emit(Instr::deref_reg(Register::RAX, 8));
                    self.emit(Instr::push_reg(Register::RAX));
                    assert(self.gen_v().instrs =~= g.instrs + seq![
                        comment_v("UnOp Dereference"@),
                        pop_v(Register::RAX),
                        iv(InstrKind::DerefReg, reg(Register::RAX, 8), OperandV::Blank),
                        push_reg_v(Register::RAX),
                    ]);
                    Ok(())
                },
                _ => Err(tok_err(ErrorKind::UnexpectedNode, t)),
            },
            NodeKind::LiteralInt => {
                match Lexer::int_value(&t.val) {
                    Some(lit) => {
                        self.emit(Instr::comment("Literal Int"));
                        self.emit(Instr::push_int_lit(lit));
                        assert(self.gen_v().instrs =~= g.instrs + seq![comment_v("Literal Int"@), push_int_v(lit)]);
                        Ok(())
                    },
                    None => Err(tok_err(ErrorKind::IntLiteralRange, t)),
                }
            },
            NodeKind::LiteralString => {
                self.emit(Instr::comment("Literal String"));
                let index: i64 = self.strs.len() as i64;
                self.emit(Instr::push_str_lit(index));
                assert(self.gen_v().instrs =~= g.instrs + seq![
                    comment_v("Literal String"@),
                    iv(InstrKind::Push, OperandV::LiteralStr { value: g.strs.len() as i64 }, OperandV::Blank),
                ]);
                let ghost g1 = self.gen_v();
                let s = t.val.clone();
                self.strs.push(s);
                assert(self.gen_v().strs =~= g.strs.push(t.val@));
                assert(self.gen_v().instrs == g1.instrs);
                Ok(())
            },
            NodeKind::LiteralChar => {
                if t.val.len() == 0 {
                    return Err(tok_err(ErrorKind::MalformedTree, t));
                }
                let lit: i64 = t.val[0] as i64;
                self.emit(Instr::comment("Literal Char"));
                self.emit(Instr::push_int_lit(lit));
                assert(self.gen_v().instrs =~= g.instrs + seq![comment_v("Literal Char"@), push_int_v(t@.val[0] as i64)]);
                Ok(())
            },
            NodeKind::Var => {
                match ctx.locals.get(t.val.as_slice()) {
                    Some(v) => {
                        let var: Var = *v;
                        self.emit(Instr::comment("Var"));
                        self.emit(Instr::copy_var_to_reg(Register::RAX, var, var.typ.size()));
                        self.emit(Instr::push_reg(Register::RAX));
                        assert(self.gen_v().instrs =~= g.instrs + seq![
                            comment_v("Var"@),
                            var_to_reg_v(Register::RAX, var, size_i(var.typ)),
                            push_reg_v(Register::RAX),
                        ]);
                        Ok(())
                    },
                    None => Err(tok_err(ErrorKind::VarNotFound, t)),
                }
            },
            NodeKind::VarDecl => {
                self.emit(Instr::comment("Var Decl"));
                if ctx.locals.contains_key(t.val.as_slice()) {
                    return Err(tok_err(ErrorKind::Redeclared, t));
                }
                if ctx.stack_ix < i64::MIN + 8 {
                    return Err(tok_err(ErrorKind::FrameTooLarge, t));
                }
                let var = Var { typ: node.datatype, offset: ctx.stack_ix };
                ctx.locals.insert(t.val.clone(), var);
                ctx.stack_ix = ctx.stack_ix - 8;
                self.emit(Instr::sub_from_reg(8, Register::RSP, 8));
                assert(self.gen_v().instrs =~= g.instrs + seq![
                    comment_v("Var Decl"@),
                    iv(InstrKind::SubFromReg, lit(8), reg(Register::RSP, 8)),
                ]);
                Ok(())
            },
            NodeKind::Syscall => self.generate_syscall(node),
            NodeKind::FuncCall => self.generate_func_call(node),
            NodeKind::Continue | NodeKind::Break => self.generate_jump(node, ctx),
            NodeKind::Return => {
                self.emit(Instr::comment("Return"));
                self.emit(Instr::pop(Register::RAX));
                let label = Label::new(".epilogue");
                self.emit(Instr::jlabel(&label));
                assert(self.gen_v().instrs =~= g.instrs + seq![
                    comment_v("Return"@),
                    pop_v(Register::RAX),
                    jlabel_v(label_v(".epilogue".spec_bytes())),
                ]);
                Ok(())
            },
            _ => Err(tok_err(ErrorKind::UnexpectedNode, t)),
        }
    }

    /// The code of a tree: its nodes in post order.
    fn generate_tree(&mut self, n: &Node, ctx: &mut Context) -> (r: Result<(), CompileError>)
        ensures
            gen_res(r, final(self).gen_v(), final(ctx)@, emit_tree(old(self).root(), old(self).gen_v(), old(ctx)@, n@)),
            final(self).same_source(old(self)),
    {
        let ns = n.post_order();
        let ghost all = nodes_view(ns@);
        let ghost goal = emit_tree(self.root(), self.gen_v(), ctx@, n@);
        let mut i: usize = 0;
        while i < ns.len()
            invariant
                all == nodes_view(ns@),
                all == post_order_v(n@),
                all.len() == ns@.len(),
                0 <= i <= ns@.len(),
                goal == emit_tree(old(self).root(), old(self).gen_v(), old(ctx)@, n@),
                goal == emit_seq(self.root(), self.gen_v(), ctx@, all, i as int),
                self.same_source(old(self)),
            decreases ns@.len() - i,
        {
            assert(all[i as int] == ns@[i as int]@);
            match self.generate_from_node(&ns[i], ctx) {
                Ok(()) => {},
                Err(e) => {
                    return Err(e);
                },
            }
            i = i + 1;
        }
        Ok(())
    }

    /// The code that stores the value on the stack into the target of an
    /// assignment.
    #[verifier::rlimit(40)]
    fn generate_store(&mut self, st: &Node, ctx: &mut Context) -> (r: Result<(), CompileError>)
        requires
            st.children@.len() >= 2,
        ensures
            gen_res(r, final(self).gen_v(), final(ctx)@, emit_store(old(self).root(), old(self).gen_v(), old(ctx)@, st@)),
            final(self).same_source(old(self)),
    {
        let ghost g = self.gen_v();
        let lg = &st.children[0];
        assert(st@.children[0] == lg@);
        assert(lg@.children.len() == lg.children@.len());
        if lg.kind == NodeKind::UnaryOp && lg.tok.kind == TokKind::Deref {
            if lg.children.len() == 0 {
                return Err(tok_err(ErrorKind::MalformedTree, &lg.tok));
            }
            let lhs = &lg.children[0];
            assert(lg@.children[0] == lhs@);
            if lhs.kind == NodeKind::Var {
                match ctx.locals.get(lhs.tok.val.as_slice()) {
                    Some(v) => {
                        let var: Var = *v;
                        let size: i64 = var.typ.size();
                        self.emit(Instr::pop(Register::RAX));
                        self.emit(Instr::copy_var_to_reg(Register::RBX, var, size));
                        self.emit(Instr::copy_reg_to_adr_at_reg_b(Register::RAX, Register::RBX, size));
                        assert(self.gen_v().instrs =~= g.instrs + seq![
                            pop_v(Register::RAX),
                            var_to_reg_v(Register::RBX, var, size),
                            reg_to_adr_v(Register::RAX, Register::RBX, size),
                        ]);
                        Ok(())
                    },
                    None => Err(CompileError { kind: ErrorKind::VarNotFound, pos: st.tok.pos.clone(), text: lhs.tok.val.clone() }),
                }
            } else {
                self.generate_tree(lhs, ctx)?;
                let ghost g2 = self.gen_v();
                self.emit(Instr::pop(Register::RBX));
                self.emit(Instr::pop(Register::RAX));
                self.emit(Instr::copy_reg_to_adr_at_reg_b(Register::RAX, Register::RBX, lhs.datatype.size()));
                assert(self.gen_v().instrs =~= g2.instrs + seq![
                    pop_v(Register::RBX),
                    pop_v(Register::RAX),
                    reg_to_adr_v(Register::RAX, Register::RBX, size_i(lhs@.datatype)),
                ]);
                Ok(())
            }
        } else if lg.kind == NodeKind::Var {
            match ctx.locals.get(lg.tok.val.as_slice()) {
                Some(v) => {
                    let var: Var = *v;
                    self.emit(Instr::pop(Register::RAX));
                    self.emit(Instr::copy_reg_to_var(var, Register::RAX, var.typ.size()));
                    assert(self.gen_v().instrs =~= g.instrs + seq![
                        pop_v(Register::RAX),
                        reg_to_var_v(var, Register::RAX, size_i(var.typ)),
                    ]);
                    Ok(())
                },
                None => Err(CompileError { kind: ErrorKind::VarNotFound, pos: st.tok.pos.clone(), text: lg.tok.val.clone() }),
            }
        } else if lg.kind == NodeKind::BinaryOp && lg.tok.kind == TokKind::Subscript {
            let n: usize = lg.children.len();
            if n == 0 {
                return Err(tok_err(ErrorKind::MalformedTree, &lg.tok));
            }
            let lhs = &lg.children[0];
            let rhs = &lg.children[n - 1];
            assert(lg@.children[0] == lhs@);
            assert(lg@.children.last() == rhs@);
            self.generate_tree(rhs, ctx)?;
            let ghost g2 = self.gen_v();
            match ctx.locals.get(lhs.tok.val.as_slice()) {
                Some(v) => {
                    let var: Var = *v;
                    match var.typ.base_type() {
                        Some(b) => {
                            let size: i64 = b.size();
                            self.emit(Instr::pop(Register::RBX));
                            self.emit(Instr::pop(Register::RAX));
                            self.emit(Instr::copy_int_lit_b_to_a(Register::RCX, size, 8));
                            self.emit(Instr::mul_regs(Register::RBX, Register::RCX, 8));
                            self.emit(Instr::copy_var_to_reg(Register::RDX, var, 8));
                            self.emit(Instr::add_regs(Register::RDX, Register::RBX, 8));
                            self.emit(Instr::copy_reg_to_adr_at_reg_b(Register::RAX, Register::RDX, size));
                            assert(self.gen_v().instrs =~= g2.instrs + seq![
                                pop_v(Register::RBX),
                                pop_v(Register::RAX),
                                iv(InstrKind::CopyToRegA, reg(Register::RCX, 8), lit(size)),
                                regs_v(InstrKind::Mul, Register::RBX, Register::RCX, 8),
                                var_to_reg_v(Register::RDX, var, 8),
                                regs_v(InstrKind::Add, Register::RDX, Register::RBX, 8),
                                reg_to_adr_v(Register::RAX, Register::RDX, size),
                            ]);
                            Ok(())
                        },
                        None => Err(tok_err(ErrorKind::CannotSubscript(var.typ), &lhs.tok)),
                    }
                },
                None => Err(CompileError { kind: ErrorKind::VarNotFound, pos: st.tok.pos.clone(), text: lhs.tok.val.clone() }),
            }
        } else {
            Err(tok_err(ErrorKind::UnexpectedAssignTarget, &lg.tok))
        }
    }

    /// The code of an assignment: the value first, then the store.
    fn generate_assign(&mut self, st: &Node, ctx: &mut Context) -> (r: Result<(), CompileError>)
        ensures
            gen_res(r, final(self).gen_v(), final(ctx)@, emit_assign(old(self).root(), old(self).gen_v(), old(ctx)@, st@)),
            final(self).same_source(old(self)),
    {
        self.emit(Instr::comment("Assign"));
        assert(st@.children.len() == st.children@.len());
        assert(forall|k: int| 0 <= k < st.children@.len() ==> #[trigger] st@.children[k] == st.children@[k]@);
        if st.children.len() < 2 {
            return Err(tok_err(ErrorKind::MalformedTree, &st.tok));
        }
        assert(st@.children[1] == st.children@[1]@);
        self.generate_tree(&st.children[1], ctx)?;
        self.generate_store(st, ctx)
    }

    /// Frees the variables that a nested scope declared beyond those of the
    /// scope around it.
    fn close_scope(&mut self, inner: &Context, outer: &Context, t: &Tok) -> (r: Result<(), CompileError>)
        ensures
            put_res(r, final(self).gen_v(), close_scope(old(self).gen_v(), inner@, outer@, t@)),
            final(self).same_source(old(self)),
    {
        let a: usize = inner.locals.len();
        let b: usize = outer.locals.len();
        if a < b {
            return Err(tok_err(ErrorKind::MalformedTree, t));
        }
        let n: usize = a - b;
        if n as u64 > 1152921504606846975u64 {
            return Err(tok_err(ErrorKind::FrameTooLarge, t));
        }
        if n > 0 {
            let c: i64 = n as i64;
            self.emit(Instr::dealloc_stack(c * 8));
        }
        Ok(())
    }

    /// The code of a statement.
    fn generate_from_statement(&mut self, st: &Node, ctx: &mut Context) -> (r: Result<(), CompileError>)
        ensures
            gen_res(r, final(self).gen_v(), final(ctx)@, emit_stmt(old(self).root(), old(self).gen_v(), old(ctx)@, st@)),
            final(self).same_source(old(self)),
        decreases st@, 1int, 0int,
    {
        match st.kind {
            NodeKind::VarDecl | NodeKind::Continue | NodeKind::Break | NodeKind::Return | NodeKind::Syscall
            | NodeKind::FuncCall => self.generate_tree(st, ctx),
            NodeKind::Assign => self.generate_assign(st, ctx),
            NodeKind::WhileLoop => self.generate_while(st, ctx),
            NodeKind::ForLoop => self.generate_for(st, ctx),
            NodeKind::Conditional => self.generate_conditional(st, ctx),
            NodeKind::Null => Ok(()),
            _ => Err(tok_err(ErrorKind::ExpectedStatement, &st.tok)),
        }
    }

    /// The code of the statements of a block, in order.
    fn generate_block(&mut self, block: &Node, ctx: &mut Context) -> (r: Result<(), CompileError>)
        ensures
            gen_res(
                r,
                final(self).gen_v(),
                final(ctx)@,
                emit_stmts(old(self).root(), old(self).gen_v(), old(ctx)@, block@.children, 0),
            ),
            final(self).same_source(old(self)),
        decreases block@, 0int, 0int,
    {
        let ghost sts = block@.children;
        let ghost goal = emit_stmts(self.root(), self.gen_v(), ctx@, sts, 0);
        let mut i: usize = 0;
        while i < block.children.len()
            invariant
                sts == block@.children,
                sts.len() == block.children@.len(),
                0 <= i <= sts.len(),
                goal == emit_stmts(old(self).root(), old(self).gen_v(), old(ctx)@, sts, 0),
                goal == emit_stmts(self.root(), self.gen_v(), ctx@, sts, i as int),
                self.same_source(old(self)),
            decreases sts.len() - i,
        {
            assert(sts[i as int] == block.children@[i as int]@);
            assert(decreases_to!(block@ => sts[i as int]));
            match self.generate_from_statement(&block.children[i], ctx) {
                Ok(()) => {},
                Err(e) => {
                    return Err(e);
                },
            }
            i = i + 1;
        }
        Ok(())
    }

    /// The code of a `while`.
    /// The condition of a `while`, where it has one.
    fn generate_while_cond(&mut self, st: &Node, ctx: &mut Context) -> (r: Result<(), CompileError>)
        requires
            pos_ok(st.tok.pos@),
        ensures
            gen_res(r, final(self).gen_v(), final(ctx)@, emit_while_cond(old(self).root(), old(self).gen_v(), old(ctx)@, st@)),
            final(self).same_source(old(self)),
    {
        assert(st@.children.len() == st.children@.len());
        if st.children.len() > 0 {
            let cond = &st.children[0];
            assert(st@.children[0] == cond@);
            let end_label = label_at(".end_", &st.tok);
            self.generate_tree(cond, ctx)?;
            let ghost g2 = self.gen_v();
            self.emit(Instr::pop(Register::RAX));
            self.emit(Instr::jzero(Register::RAX, &end_label, cond.datatype.size()));
            assert(self.gen_v().instrs =~= g2.instrs + seq![
                pop_v(Register::RAX),
                jzero_v(Register::RAX, at(".end_", st@.tok), size_i(cond@.datatype)),
            ]);
        }
        Ok(())
    }

    /// The rest of a `while`: its body, the freeing of its variables, the
    /// jump back to the loop label, and the labels of `continue` and `break`.
    fn generate_while_rest(&mut self, st: &Node, ctx: &mut Context, loop_label: &Label) -> (r: Result<(), CompileError>)
        requires
            pos_ok(st.tok.pos@),
        ensures
            gen_res(
                r,
                final(self).gen_v(),
                final(ctx)@,
                emit_while_rest(old(self).root(), old(self).gen_v(), old(ctx)@, st@, loop_label@),
            ),
            final(self).same_source(old(self)),
        decreases st@, 0int, 0int,
    {
        let t = &st.tok;
        assert(st@.children.len() == st.children@.len());
        assert(forall|k: int| 0 <= k < st.children@.len() ==> #[trigger] st@.children[k] == st.children@[k]@);
        let mut continue_label = label_at(".continue_", t);
        let mut break_label = label_at(".break_", t);
        let mut end_label = label_at(".end_", t);
        let mut while_ctx = Context::under(t, ctx);
        if st.children.len() > 1 && !st.children[1].is_null() {
            assert(decreases_to!(st@ => st@.children[1]));
            self.generate_block(&st.children[1], &mut while_ctx)?;
        }
        self.close_scope(&while_ctx, ctx, t)?;
        self.record_label(&mut continue_label);
        self.emit(Instr::label(&continue_label));
        self.emit(Instr::jlabel(loop_label));
        self.record_label(&mut break_label);
        self.emit(Instr::label(&break_label));
        self.close_scope(&while_ctx, ctx, t)?;
        self.record_label(&mut end_label);
        self.emit(Instr::label(&end_label));
        Ok(())
    }

    /// The code of a `while`.
    fn generate_while(&mut self, st: &Node, ctx: &mut Context) -> (r: Result<(), CompileError>)
        ensures
            gen_res(r, final(self).gen_v(), final(ctx)@, emit_while(old(self).root(), old(self).gen_v(), old(ctx)@, st@)),
            final(self).same_source(old(self)),
        decreases st@, 0int, 1int,
    {
        let t = &st.tok;
        if t.pos.row == u32::MAX || t.pos.col == u32::MAX {
            return Err(tok_err(ErrorKind::PositionOverflow, t));
        }
        self.emit(Instr::comment("While"));
        let mut loop_label = label_at(".while_", t);
        self.record_label(&mut loop_label);
        self.emit(Instr::label(&loop_label));
        self.generate_while_cond(st, ctx)?;
        self.generate_while_rest(st, ctx, &loop_label)
    }

    /// The head of a `for`, up to its condition.
    fn generate_for_head(&mut self, st: &Node, ctx: &mut Context) -> (r: Result<(), CompileError>)
        ensures
            gen_res(r, final(self).gen_v(), final(ctx)@, emit_for_head(old(self).root(), old(self).gen_v(), old(ctx)@, st@)),
            final(self).same_source(old(self)),
        decreases st@, 0int, 0int,
    {
        assert(st@.children.len() == st.children@.len());
        assert(forall|k: int| 0 <= k < st.children@.len() ==> #[trigger] st@.children[k] == st.children@[k]@);
        if st.children.len() > 0 && !st.children[0].is_null() {
            self.emit(Instr::comment("Decl"));
            self.generate_tree(&st.children[0], ctx)?;
        }
        if st.children.len() > 1 && !st.children[1].is_null() {
            assert(decreases_to!(st@ => st@.children[1]));
            self.emit(Instr::comment("Init"));
            self.generate_from_statement(&st.children[1], ctx)?;
        }
        Ok(())
    }

    /// The condition of a `for`, where it is there.
    fn generate_for_cond(&mut self, st: &Node, ctx: &mut Context) -> (r: Result<(), CompileError>)
        requires
            pos_ok(st.tok.pos@),
        ensures
            gen_res(r, final(self).gen_v(), final(ctx)@, emit_for_cond(old(self).root(), old(self).gen_v(), old(ctx)@, st@)),
            final(self).same_source(old(self)),
    {
        assert(st@.children.len() == st.children@.len());
        assert(forall|k: int| 0 <= k < st.children@.len() ==> #[trigger] st@.children[k] == st.children@[k]@);
        if st.children.len() > 2 && !st.children[2].is_null() {
            let cond = &st.children[2];
            let end_label = label_at(".end_", &st.tok);
            self.emit(Instr::comment("Condition"));
            self.generate_tree(cond, ctx)?;
            let ghost g2 = self.gen_v();
            self.emit(Instr::pop(Register::RAX));
            self.emit(Instr::jzero(Register::RAX, &end_label, cond.datatype.size()));
            assert(self.gen_v().instrs =~= g2.instrs + seq![
                pop_v(Register::RAX),
                jzero_v(Register::RAX, at(".end_", st@.tok), size_i(cond@.datatype)),
            ]);
        }
        Ok(())
    }

    /// The body of a `for` in its own scope, and the freeing of its
    /// variables.
    fn generate_for_body(&mut self, st: &Node, ctx: &Context, for_ctx: &mut Context) -> (r: Result<(), CompileError>)
        ensures
            gen_res(
                r,
                final(self).gen_v(),
                final(for_ctx)@,
                emit_for_body(old(self).root(), old(self).gen_v(), ctx@, old(for_ctx)@, st@),
            ),
            final(self).same_source(old(self)),
        decreases st@, 0int, 0int,
    {
        assert(st@.children.len() == st.children@.len());
        assert(forall|k: int| 0 <= k < st.children@.len() ==> #[trigger] st@.children[k] == st.children@[k]@);
        if st.children.len() > 4 && !st.children[4].is_null() {
            assert(decreases_to!(st@ => st@.children[4]));
            self.emit(Instr::comment("Body"));
            self.generate_block(&st.children[4], for_ctx)?;
        }
        self.emit(Instr::comment("Post"));
        self.close_scope(for_ctx, ctx, &st.tok)
    }

    /// The end of a `for`: the step, the jump back, the labels of
    /// `continue` and `break`, and the freeing of the declaration.
    fn generate_for_tail(&mut self, st: &Node, ctx: &mut Context, for_ctx: &mut Context, loop_label: &Label) -> (r:
        Result<(), CompileError>)
        requires
            pos_ok(st.tok.pos@),
        ensures
            gen_res(
                r,
                final(self).gen_v(),
                final(ctx)@,
                emit_for_tail(old(self).root(), old(self).gen_v(), old(ctx)@, old(for_ctx)@, st@, loop_label@),
            ),
            final(self).same_source(old(self)),
        decreases st@, 0int, 0int,
    {
        let t = &st.tok;
        assert(st@.children.len() == st.children@.len());
        assert(forall|k: int| 0 <= k < st.children@.len() ==> #[trigger] st@.children[k] == st.children@[k]@);
        let mut continue_label = label_at(".continue_", t);
        let mut break_label = label_at(".break_", t);
        let mut end_label = label_at(".end_", t);
        self.record_label(&mut continue_label);
        self.emit(Instr::label(&continue_label));
        if st.children.len() > 3 && !st.children[3].is_null() {
            assert(decreases_to!(st@ => st@.children[3]));
            self.generate_from_statement(&st.children[3], for_ctx)?;
        }
        self.emit(Instr::jlabel(loop_label));
        self.record_label(&mut break_label);
        self.emit(Instr::label(&break_label));
        self.emit(Instr::comment("End"));
        self.record_label(&mut end_label);
        self.emit(Instr::label(&end_label));
        if st.children.len() > 0 && !st.children[0].is_null() {
            if ctx.stack_ix > i64::MAX - 8 {
                return Err(tok_err(ErrorKind::FrameTooLarge, t));
            }
            ctx.locals.remove(st.children[0].tok.val.as_slice());
            ctx.stack_ix = ctx.stack_ix + 8;
            self.emit(Instr::dealloc_stack(8));
        }
        Ok(())
    }

    /// The code of a `for`.
    fn generate_for(&mut self, st: &Node, ctx: &mut Context) -> (r: Result<(), CompileError>)
        ensures
            gen_res(r, final(self).gen_v(), final(ctx)@, emit_for(old(self).root(), old(self).gen_v(), old(ctx)@, st@)),
            final(self).same_source(old(self)),
        decreases st@, 0int, 1int,
    {
        let t = &st.tok;
        if t.pos.row == u32::MAX || t.pos.col == u32::MAX {
            return Err(tok_err(ErrorKind::PositionOverflow, t));
        }
        self.emit(Instr::comment("For"));
        let mut loop_label = label_at(".for_", t);
        self.generate_for_head(st, ctx)?;
        let mut for_ctx = Context::under(t, ctx);
        self.record_label(&mut loop_label);
        self.emit(Instr::label(&loop_label));
        self.generate_for_cond(st, ctx)?;
        self.generate_for_body(st, ctx, &mut for_ctx)?;
        self.generate_for_tail(st, ctx, &mut for_ctx, &loop_label)
    }

    /// An `if` without `else`, the condition popped into RAX.
    #[verifier::rlimit(80)]
    fn generate_if_only(&mut self, st: &Node, ctx: &mut Context) -> (r: Result<(), CompileError>)
        requires
            pos_ok(st.tok.pos@),
            st.children@.len() == 2,
        ensures
            gen_res(r, final(self).gen_v(), final(ctx)@, emit_if_only(old(self).root(), old(self).gen_v(), old(ctx)@, st@)),
            final(self).same_source(old(self)),
        decreases st@, 0int, 0int,
    {
        let t = &st.tok;
        assert(st@.children.len() == st.children@.len());
        assert(forall|k: int| 0 <= k < st.children@.len() ==> #[trigger] st@.children[k] == st.children@[k]@);
        let ghost g = self.gen_v();
        let mut end_label = label_at(".end_", t);
        self.emit(Instr::jzero(Register::RAX, &end_label, st.children[0].datatype.size()));
        self.emit(Instr::comment("If"));
        assert(self.gen_v().instrs =~= g.instrs + seq![
            jzero_v(Register::RAX, at(".end_", st@.tok), size_i(st@.children[0].datatype)),
            comment_v("If"@),
        ]);
        let mut if_ctx = Context::from(ctx);
        assert(decreases_to!(st@ => st@.children[1]));
        self.generate_block(&st.children[1], &mut if_ctx)?;
        self.close_scope(&if_ctx, ctx, t)?;
        self.record_label(&mut end_label);
        self.emit(Instr::label(&end_label));
        Ok(())
    }

    /// An `if` with `else`, the condition popped into RAX.
    #[verifier::rlimit(80)]
    fn generate_if_else(&mut self, st: &Node, ctx: &mut Context) -> (r: Result<(), CompileError>)
        requires
            pos_ok(st.tok.pos@),
            st.children@.len() > 0,
        ensures
            gen_res(r, final(self).gen_v(), final(ctx)@, emit_if_else(old(self).root(), old(self).gen_v(), old(ctx)@, st@)),
            final(self).same_source(old(self)),
        decreases st@, 0int, 0int,
    {
        let t = &st.tok;
        assert(st@.children.len() == st.children@.len());
        assert(forall|k: int| 0 <= k < st.children@.len() ==> #[trigger] st@.children[k] == st.children@[k]@);
        let mut end_label = label_at(".end_", t);
        let mut else_label = label_at(".else_", t);
        let ghost g = self.gen_v();
        self.emit(Instr::jzero(Register::RAX, &else_label, st.children[0].datatype.size()));
        self.emit(Instr::comment("If"));
        assert(self.gen_v().instrs =~= g.instrs + seq![
            jzero_v(Register::RAX, at(".else_", st@.tok), size_i(st@.children[0].datatype)),
            comment_v("If"@),
        ]);
        let mut if_ctx = Context::from(ctx);
        if st.children.len() > 1 {
            assert(decreases_to!(st@ => st@.children[1]));
            self.generate_block(&st.children[1], &mut if_ctx)?;
        }
        self.emit(Instr::jlabel(&end_label));
        self.record_label(&mut else_label);
        self.emit(Instr::label(&else_label));
        self.emit(Instr::comment("Else"));
        let mut else_ctx = Context::from(ctx);
        if st.children.len() > 2 {
            assert(decreases_to!(st@ => st@.children[2]));
            self.generate_block(&st.children[2], &mut else_ctx)?;
        }
        self.record_label(&mut end_label);
        self.emit(Instr::label(&end_label));
        Ok(())
    }

    /// The code of an `if`, with its `else` where it has one.
    fn generate_conditional(&mut self, st: &Node, ctx: &mut Context) -> (r: Result<(), CompileError>)
        ensures
            gen_res(r, final(self).gen_v(), final(ctx)@, emit_cond(old(self).root(), old(self).gen_v(), old(ctx)@, st@)),
            final(self).same_source(old(self)),
        decreases st@, 0int, 1int,
    {
        let t = &st.tok;
        if t.pos.row == u32::MAX || t.pos.col == u32::MAX {
            return Err(tok_err(ErrorKind::PositionOverflow, t));
        }
        assert(st@.children.len() == st.children@.len());
        if st.children.len() == 0 {
            return Err(tok_err(ErrorKind::MalformedTree, t));
        }
        self.emit(Instr::comment("Conditional"));
        assert(st@.children[0] == st.children@[0]@);
        self.generate_tree(&st.children[0], ctx)?;
        self.emit(Instr::pop(Register::RAX));
        if st.children.len() == 2 {
            self.generate_if_only(st, ctx)
        } else {
            self.generate_if_else(st, ctx)
        }
    }

    /// The parameters of a function, each pushed from the register it
    /// comes in and bound as a variable.
    fn bind_args(&mut self, args: &Node, ctx: &mut Context) -> (r: Result<(), CompileError>)
        requires
            args.children@.len() <= 6,
            old(ctx)@ == func_ctx(),
        ensures
            gen_res(r, final(self).gen_v(), final(ctx)@, bind_args(old(self).gen_v(), func_ctx(), args@.children, 0)),
            final(self).same_source(old(self)),
    {
        let ghost all = args@.children;
        let ghost goal = bind_args(self.gen_v(), func_ctx(), all, 0);
        assert(all.len() == args.children@.len());
        let mut i: usize = 0;
        while i < args.children.len()
            invariant
                all == args@.children,
                all.len() == args.children@.len(),
                all.len() <= 6,
                0 <= i <= all.len(),
                ctx.stack_ix == -8 - 8 * i,
                goal == bind_args(old(self).gen_v(), func_ctx(), all, 0),
                goal == bind_args(self.gen_v(), ctx@, all, i as int),
                self.same_source(old(self)),
            decreases all.len() - i,
        {
            let arg = &args.children[i];
            assert(all[i as int] == arg@);
            self.emit(Instr::push_reg(user_reg_order(i)));
            if arg.datatype == Datatype::NoType || arg.datatype == Datatype::Unknown {
                return Err(tok_err(ErrorKind::UnknownVarType, &arg.tok));
            }
            let var = Var { typ: arg.datatype, offset: ctx.stack_ix };
            ctx.locals.insert(arg.tok.val.clone(), var);
            ctx.stack_ix = ctx.stack_ix - 8;
            i = i + 1;
        }
        Ok(())
    }

    /// The code of a function: label, prologue, parameters, body, epilogue.
    fn generate_func(&mut self, f: &Node) -> (r: Result<(), CompileError>)
        ensures
            put_res(r, final(self).gen_v(), emit_func(old(self).root(), old(self).gen_v(), f@)),
            final(self).same_source(old(self)),
    {
        assert(f@.children.len() == f.children@.len());
        assert(forall|k: int| 0 <= k < f.children@.len() ==> #[trigger] f@.children[k] == f.children@[k]@);
        self.emit(Instr::comment("Function Declaration"));
        let mut top_label = Label::new_named("func_", &f.tok.val);
        let mut bottom_label = Label::new(".epilogue");
        self.record_label(&mut top_label);
        self.emit(Instr::label(&top_label));
        let ghost g1 = self.gen_v();
        self.emit(Instr::push_reg(Register::RBP));
        self.emit(Instr::copy_reg_b_to_a(Register::RBP, Register::RSP, 8));
        assert(self.gen_v().instrs =~= g1.instrs + seq![
            push_reg_v(Register::RBP),
            regs_v(InstrKind::CopyToRegA, Register::RBP, Register::RSP, 8),
        ]);
        let mut ctx = Context::new();
        ctx.stack_ix = -8;
        if f.children.len() > 0 {
            let args = &f.children[0];
            if args.children.len() > 6 {
                return Err(tok_err(ErrorKind::TooManyArgs, &f.tok));
            }
            self.emit(Instr::comment("Args"));
            self.bind_args(args, &mut ctx)?;
        }
        if f.children.len() > 1 {
            self.emit(Instr::comment("Body"));
            self.generate_block(&f.children[1], &mut ctx)?;
        } else {
            return Err(tok_err(ErrorKind::MissingBody, &f.tok));
        }
        self.record_label(&mut bottom_label);
        self.emit(Instr::label(&bottom_label));
        let ghost g4 = self.gen_v();
        self.emit(Instr::copy_reg_b_to_a(Register::RSP, Register::RBP, 8));
        self.emit(Instr::pop(Register::RBP));
        self.emit(Instr::returnn());
        assert(self.gen_v().instrs =~= g4.instrs + seq![
            regs_v(InstrKind::CopyToRegA, Register::RSP, Register::RBP, 8),
            pop_v(Register::RBP),
            iv(InstrKind::Return, OperandV::Blank, OperandV::Blank),
        ]);
        Ok(())
    }

    /// Makes the code of the program: each top-level function, then the
    /// data segment with the strings the code refers to.
    pub fn generate(&mut self) -> (r: Result<(), CompileError>)
        ensures
            put_res(r, final(self).gen_v(), emit_program(old(self).root(), old(self).gen_v())),
            final(self).same_source(old(self)),
    {
        let ast: &AST = self.ast;
        let ghost top = ast.root@.children;
        let ghost goal = emit_funcs(self.root(), self.gen_v(), top, 0);
        let n: usize = ast.root.children.len();
        assert(top.len() == n);
        let mut i: usize = 0;
        while i < n
            invariant
                ast == self.ast,
                top == ast.root@.children,
                n == top.len(),
                n == ast.root.children@.len(),
                0 <= i <= n,
                goal == emit_funcs(old(self).root(), old(self).gen_v(), top, 0),
                goal == emit_funcs(self.root(), self.gen_v(), top, i as int),
                self.same_source(old(self)),
            decreases n - i,
        {
            let f = &ast.root.children[i];
            assert(top[i as int] == f@);
            if f.kind != NodeKind::FuncDecl {
                return Err(tok_err(ErrorKind::UnexpectedTopLevel, &f.tok));
            }
            match self.generate_func(f) {
                Ok(()) => {},
                Err(e) => {
                    return Err(e);
                },
            }
            i = i + 1;
        }
        let ghost g2 = self.gen_v();
        self.emit(Instr::data_segment());
        let mut k: usize = 0;
        while k < self.strs.len()
            invariant
                0 <= k <= self.strs@.len(),
                self.gen_v().strs == g2.strs,
                self.gen_v().labels == g2.labels,
                self.gen_v().instrs == g2.instrs + data_segment(g2.strs).take(k + 1),
                self.same_source(old(self)),
            decreases self.strs@.len() - k,
        {
            let s = self.strs[k].clone();
            self.emit(Instr::decl_str(k as i64, s));
            assert(data_segment(g2.strs).take(k + 2) =~= data_segment(g2.strs).take(k + 1).push(
                iv(InstrKind::DeclStr, lit(k as i64), OperandV::Bytes { bytes: g2.strs[k as int] }),
            ));
            assert(self.gen_v().instrs =~= g2.instrs + data_segment(g2.strs).take(k + 2));
            k = k + 1;
        }
        assert(data_segment(g2.strs).take(self.strs@.len() as int + 1) =~= data_segment(g2.strs));
        Ok(())
    }
}


/// The words of a simple binary operation.
fn arith_of(op: TokKind) -> (r: Option<(&'static str, Register, Register, InstrKind, Register)>)
    ensures
        r == arith(op),
{
    match op {
        TokKind::Mod => Some(("BinOp Mod", Register::RBX, Register::RAX, InstrKind::DivAByBManglingD, Register::RDX)),
        TokKind::Plus => Some(("BinOp Plus", Register::RAX, Register::RBX, InstrKind::Add, Register::RAX)),
        TokKind::Minus => Some(("BinOp Minus", Register::RBX, Register::RAX, InstrKind::Sub, Register::RAX)),
        TokKind::Mul => Some(("BinOp Mul", Register::RAX, Register::RBX, InstrKind::Mul, Register::RAX)),
        TokKind::Div => Some(("BinOp Div", Register::RBX, Register::RAX, InstrKind::DivAByBManglingD, Register::RAX)),
        TokKind::Equal => Some(("BinOp Eq", Register::RBX, Register::RAX, InstrKind::RegBEqA, Register::RAX)),
        TokKind::NotEqual => Some(("BinOp NEq", Register::RBX, Register::RAX, InstrKind::RegBNeA, Register::RAX)),
        TokKind::GT => Some(("BinOp GT", Register::RBX, Register::RAX, InstrKind::RegBGtA, Register::RAX)),
        TokKind::LT => Some(("BinOp LT", Register::RBX, Register::RAX, InstrKind::RegBLtA, Register::RAX)),
        TokKind::GE => Some(("BinOp GE", Register::RBX, Register::RAX, InstrKind::RegBGeA, Register::RAX)),
        TokKind::LE => Some(("BinOp LE", Register::RBX, Register::RAX, InstrKind::RegBLeA, Register::RAX)),
        _ => None,
    }
}

} // verus!
