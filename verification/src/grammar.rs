use vstd::prelude::*;

use crate::error::{ErrV, ErrorKind};
use crate::lex::{end_error, is_type_kind, take_kind, take_type, tok_error, PosV, TokKind, TokV};
use crate::parse::{group_v, null_v, nv, zero_literal_v, NodeKind, NodeV};
use crate::types::{datatype_of, Datatype};

verus! {

/// The tokens a parser reads, and the position of the end of the source.
pub struct TokSrc {
    pub toks: Seq<TokV>,
    pub end: PosV,
}

/// A parsed node and the position after it, or an error.
pub type PNode = Result<(NodeV, int), ErrV>;

/// Parsed nodes and the position after them, or an error.
pub type PNodes = Result<(Seq<NodeV>, int), ErrV>;

/// The token at `i`.
pub open spec fn peek(s: TokSrc, i: int) -> Result<TokV, ErrV> {
    if 0 <= i < s.toks.len() {
        Ok(s.toks[i])
    } else {
        Err(end_error(s.end))
    }
}

/// The token at `i`, which must be of kind `k`.
pub open spec fn expect(s: TokSrc, i: int, k: TokKind) -> Result<TokV, ErrV> {
    take_kind(s.toks, s.end, i, k)
}

/// Whether a parse that started at `i` and ended at `j` moved on.
pub open spec fn moved(s: TokSrc, i: int, j: int) -> bool {
    i < j <= s.toks.len()
}

/// The answer where a parse did not move on; no parse gives it, as every
/// one takes at least one token.
pub open spec fn stall(s: TokSrc) -> ErrV {
    end_error(s.end)
}

/// The operators of each level of precedence, loosest first.
pub open spec fn ops_at(level: int, k: TokKind) -> bool {
    if level == 0 {
        k == TokKind::LogOr
    } else if level == 1 {
        k == TokKind::LogAnd
    } else if level == 2 {
        k == TokKind::Equal || k == TokKind::NotEqual
    } else if level == 3 {
        k == TokKind::GT || k == TokKind::GE || k == TokKind::LT || k == TokKind::LE
    } else if level == 4 {
        k == TokKind::Plus || k == TokKind::Minus || k == TokKind::Mod
    } else if level == 5 {
        k == TokKind::Mul || k == TokKind::Div
    } else {
        false
    }
}

/// The level of `||`, where every expression starts.
pub open spec fn union_level() -> int {
    0
}

/// The level of `+`, `-` and `%`.
pub open spec fn additive_level() -> int {
    4
}

/// The level of single factors.
pub open spec fn factor_level() -> int {
    6
}

pub open spec fn var_v(name: TokV) -> NodeV {
    nv(NodeKind::Var, Datatype::Unknown, name, seq![])
}

pub open spec fn un_v(op: TokV, child: NodeV) -> NodeV {
    nv(NodeKind::UnaryOp, Datatype::NoType, op, seq![child])
}

pub open spec fn bin_v(op: TokV, lhs: NodeV, rhs: NodeV) -> NodeV {
    nv(NodeKind::BinaryOp, Datatype::NoType, op, seq![lhs, rhs])
}

pub open spec fn assign_v(op: TokV, lhs: NodeV, rhs: NodeV) -> NodeV {
    nv(NodeKind::Assign, Datatype::NoType, op, seq![lhs, rhs])
}

/// The token `[_]` that a subscript is given, at the position of its `[`.
pub open spec fn subscript_tok(open: TokV) -> TokV {
    TokV { kind: TokKind::Subscript, val: seq![91u8, 95, 93], pos: open.pos }
}

/// The `=` of a declaration without a value.
pub open spec fn implicit_assign_tok() -> TokV {
    TokV {
        kind: TokKind::Assign,
        val: seq![61u8],
        pos: PosV { row: u32::MAX, col: u32::MAX, file: "Implicit"@ },
    }
}

pub open spec fn cond_v(t: TokV, c: NodeV, if_body: Seq<NodeV>, else_body: Seq<NodeV>) -> NodeV {
    nv(
        NodeKind::Conditional,
        Datatype::NoType,
        t,
        if else_body.len() == 0 {
            seq![c, group_v(if_body)]
        } else {
            seq![c, group_v(if_body), group_v(else_body)]
        },
    )
}

pub open spec fn or_null_v(n: Option<NodeV>) -> NodeV {
    match n {
        Some(x) => x,
        None => null_v(),
    }
}

pub open spec fn for_v(
    t: TokV,
    decl: Option<NodeV>,
    init: Option<NodeV>,
    cond: Option<NodeV>,
    post: Option<NodeV>,
    body: Seq<NodeV>,
) -> NodeV {
    nv(
        NodeKind::ForLoop,
        Datatype::NoType,
        t,
        seq![or_null_v(decl), or_null_v(init), or_null_v(cond), or_null_v(post), group_v(body)],
    )
}

/// An expression at a level of precedence: operands of the next level
/// joined, left to right, by the operators of this one.
pub open spec fn expr(s: TokSrc, level: int, i: int) -> PNode
    decreases s.toks.len() - i, 22 - level,
{
    if level < 0 || level > 6 {
        Err(stall(s))
    } else if level == 6 {
        factor(s, i)
    } else {
        match expr(s, level + 1, i) {
            Err(e) => Err(e),
            Ok((lhs, j)) => if i <= j <= s.toks.len() {
                tail(s, level, lhs, j)
            } else {
                Err(stall(s))
            },
        }
    }
}

/// The node of an integer literal.
pub open spec fn int_leaf(t: TokV) -> NodeV {
    NodeV { kind: NodeKind::LiteralInt, datatype: Datatype::I64, tok: t, children: seq![] }
}

/// A binary operation on two trees, as the parser builds it.
pub open spec fn op_node(op: TokV, lhs: NodeV, rhs: NodeV) -> NodeV {
    NodeV { kind: NodeKind::BinaryOp, datatype: Datatype::NoType, tok: op, children: seq![lhs, rhs] }
}

proof fn lemma_literal_operand(s: TokSrc, level: int, i: int)
    requires
        0 <= level <= 6,
        0 <= i,
        i + 1 < s.toks.len(),
        s.toks[i].kind == TokKind::Int,
        forall|l: int| level <= l < 6 ==> !#[trigger] ops_at(l, s.toks[i + 1].kind),
    ensures
        expr(s, level, i) == Ok::<(NodeV, int), ErrV>((int_leaf(s.toks[i]), i + 1)),
    decreases 6 - level,
{
    if level < 6 {
        lemma_literal_operand(s, level + 1, i);
        assert(!ops_at(level, s.toks[i + 1].kind));
        assert(tail(s, level, int_leaf(s.toks[i]), i + 1) == Ok::<(NodeV, int), ErrV>((int_leaf(s.toks[i]), i + 1)));
    } else {
        assert(factor(s, i) == Ok::<(NodeV, int), ErrV>((int_leaf(s.toks[i]), i + 1)));
    }
}

/// `&&` binds tighter than `||`: `a || b && c` is `a || (b && c)`, and
/// `a && b || c` is `(a && b) || c`, whatever the integers `a`, `b`, `c`,
/// wherever the expression stands, when a `;` or `)` ends it.
pub proof fn law_and_binds_tighter_than_or(s: TokSrc, i: int)
    requires
        0 <= i,
        i + 5 < s.toks.len(),
        s.toks[i].kind == TokKind::Int,
        s.toks[i + 2].kind == TokKind::Int,
        s.toks[i + 4].kind == TokKind::Int,
        s.toks[i + 5].kind == TokKind::End || s.toks[i + 5].kind == TokKind::CParen,
    ensures
        s.toks[i + 1].kind == TokKind::LogOr && s.toks[i + 3].kind == TokKind::LogAnd ==> expr(s, 0, i) == Ok::<
            (NodeV, int),
            ErrV,
        >(
            (
                op_node(
                    s.toks[i + 1],
                    int_leaf(s.toks[i]),
                    op_node(s.toks[i + 3], int_leaf(s.toks[i + 2]), int_leaf(s.toks[i + 4])),
                ),
                i + 5,
            ),
        ),
        s.toks[i + 1].kind == TokKind::LogAnd && s.toks[i + 3].kind == TokKind::LogOr ==> expr(s, 0, i) == Ok::<
            (NodeV, int),
            ErrV,
        >(
            (
                op_node(
                    s.toks[i + 3],
                    op_node(s.toks[i + 1], int_leaf(s.toks[i]), int_leaf(s.toks[i + 2])),
                    int_leaf(s.toks[i + 4]),
                ),
                i + 5,
            ),
        ),
{
    let a = int_leaf(s.toks[i]);
    let b = int_leaf(s.toks[i + 2]);
    let c = int_leaf(s.toks[i + 4]);
    if s.toks[i + 1].kind == TokKind::LogOr && s.toks[i + 3].kind == TokKind::LogAnd {
        lemma_literal_operand(s, 1, i);
        lemma_literal_operand(s, 2, i + 2);
        lemma_literal_operand(s, 2, i + 4);
        let bc = op_node(s.toks[i + 3], b, c);
        assert(tail(s, 1, bc, i + 5) == Ok::<(NodeV, int), ErrV>((bc, i + 5)));
        assert(tail(s, 1, b, i + 3) == Ok::<(NodeV, int), ErrV>((bc, i + 5)));
        assert(expr(s, 1, i + 2) == Ok::<(NodeV, int), ErrV>((bc, i + 5)));
        let abc = op_node(s.toks[i + 1], a, bc);
        assert(tail(s, 0, abc, i + 5) == Ok::<(NodeV, int), ErrV>((abc, i + 5)));
        assert(tail(s, 0, a, i + 1) == Ok::<(NodeV, int), ErrV>((abc, i + 5)));
    }
    if s.toks[i + 1].kind == TokKind::LogAnd && s.toks[i + 3].kind == TokKind::LogOr {
        lemma_literal_operand(s, 2, i);
        lemma_literal_operand(s, 2, i + 2);
        lemma_literal_operand(s, 1, i + 4);
        let ab = op_node(s.toks[i + 1], a, b);
        assert(tail(s, 1, ab, i + 3) == Ok::<(NodeV, int), ErrV>((ab, i + 3)));
        assert(tail(s, 1, a, i + 1) == Ok::<(NodeV, int), ErrV>((ab, i + 3)));
        assert(expr(s, 1, i) == Ok::<(NodeV, int), ErrV>((ab, i + 3)));
        let abc = op_node(s.toks[i + 3], ab, c);
        assert(tail(s, 0, abc, i + 5) == Ok::<(NodeV, int), ErrV>((abc, i + 5)));
        assert(tail(s, 0, ab, i + 3) == Ok::<(NodeV, int), ErrV>((abc, i + 5)));
    }
}

/// How loosely a binary operator binds, as the language documents it:
/// `||` loosest, then `&&`, then `==` and `!=`, then the comparisons
/// `<`, `<=`, `>`, `>=`, then `+`, `-` and `%`, and `*` and `/` tightest;
/// -1 for any other token.
pub open spec fn binding_rank(k: TokKind) -> int {
    match k {
        TokKind::LogOr => 0,
        TokKind::LogAnd => 1,
        TokKind::Equal | TokKind::NotEqual => 2,
        TokKind::LT | TokKind::LE | TokKind::GT | TokKind::GE => 3,
        TokKind::Plus | TokKind::Minus | TokKind::Mod => 4,
        TokKind::Mul | TokKind::Div => 5,
        _ => -1,
    }
}

proof fn lemma_ops_rank(l: int, k: TokKind)
    requires
        0 <= l < 6,
    ensures
        ops_at(l, k) <==> binding_rank(k) == l,
{
}

/// An expression parsed at one level stands as it is at every looser
/// level, when the token after it is no operator of those levels.
proof fn lemma_lift(s: TokSrc, lo: int, hi: int, j: int, n: NodeV, k: int)
    requires
        0 <= lo <= hi <= 6,
        0 <= j <= k < s.toks.len(),
        expr(s, hi, j) == Ok::<(NodeV, int), ErrV>((n, k)),
        binding_rank(s.toks[k].kind) < lo || binding_rank(s.toks[k].kind) >= hi,
    ensures
        expr(s, lo, j) == Ok::<(NodeV, int), ErrV>((n, k)),
    decreases hi - lo,
{
    if lo < hi {
        lemma_lift(s, lo + 1, hi, j, n, k);
        lemma_ops_rank(lo, s.toks[k].kind);
        assert(tail(s, lo, n, k) == Ok::<(NodeV, int), ErrV>((n, k)));
    }
}

/// Operators bind by their documented rank: for integers `a`, `b`, `c`
/// and binary operators `o1`, `o2`, the expression `a o1 b o2 c`, ended by
/// `;` or `)`, is `a o1 (b o2 c)` where `o2` binds tighter than `o1`, and
/// `(a o1 b) o2 c` otherwise: operators of one rank group to the left.
pub proof fn law_operators_bind_by_rank(s: TokSrc, i: int)
    requires
        0 <= i,
        i + 5 < s.toks.len(),
        s.toks[i].kind == TokKind::Int,
        s.toks[i + 2].kind == TokKind::Int,
        s.toks[i + 4].kind == TokKind::Int,
        binding_rank(s.toks[i + 1].kind) >= 0,
        binding_rank(s.toks[i + 3].kind) >= 0,
        s.toks[i + 5].kind == TokKind::End || s.toks[i + 5].kind == TokKind::CParen,
    ensures
        ({
            let o1 = s.toks[i + 1];
            let o2 = s.toks[i + 3];
            let a = int_leaf(s.toks[i]);
            let b = int_leaf(s.toks[i + 2]);
            let c = int_leaf(s.toks[i + 4]);
            expr(s, 0, i) == Ok::<(NodeV, int), ErrV>(
                (
                    if binding_rank(o1.kind) < binding_rank(o2.kind) {
                        op_node(o1, a, op_node(o2, b, c))
                    } else {
                        op_node(o2, op_node(o1, a, b), c)
                    },
                    i + 5,
                ),
            )
        }),
{
    let o1 = s.toks[i + 1];
    let o2 = s.toks[i + 3];
    let r1 = binding_rank(o1.kind);
    let r2 = binding_rank(o2.kind);
    let a = int_leaf(s.toks[i]);
    let b = int_leaf(s.toks[i + 2]);
    let c = int_leaf(s.toks[i + 4]);
    assert(binding_rank(s.toks[i + 5].kind) == -1);
    assert forall|l: int| r1 + 1 <= l < 6 implies !#[trigger] ops_at(l, s.toks[i + 1].kind) by {
        lemma_ops_rank(l, s.toks[i + 1].kind);
    }
    lemma_literal_operand(s, r1 + 1, i);
    assert forall|l: int| r2 + 1 <= l < 6 implies !#[trigger] ops_at(l, s.toks[i + 3].kind) by {
        lemma_ops_rank(l, s.toks[i + 3].kind);
    }
    lemma_literal_operand(s, r2 + 1, i + 2);
    assert forall|l: int| 0 <= l < 6 implies !#[trigger] ops_at(l, s.toks[i + 5].kind) by {
        lemma_ops_rank(l, s.toks[i + 5].kind);
    }
    lemma_literal_operand(s, 0, i + 4);
    lemma_literal_operand(s, r1 + 1, i + 4);
    lemma_literal_operand(s, r2 + 1, i + 4);
    lemma_ops_rank(r1, o1.kind);
    lemma_ops_rank(r2, o2.kind);
    lemma_ops_rank(r1, o2.kind);
    lemma_ops_rank(r2, o1.kind);
    if r1 < r2 {
        let bc = op_node(o2, b, c);
        assert(tail(s, r2, bc, i + 5) == Ok::<(NodeV, int), ErrV>((bc, i + 5)));
        assert(tail(s, r2, b, i + 3) == Ok::<(NodeV, int), ErrV>((bc, i + 5)));
        assert(expr(s, r2, i + 2) == Ok::<(NodeV, int), ErrV>((bc, i + 5)));
        lemma_lift(s, r1 + 1, r2, i + 2, bc, i + 5);
        let abc = op_node(o1, a, bc);
        assert(tail(s, r1, abc, i + 5) == Ok::<(NodeV, int), ErrV>((abc, i + 5)));
        assert(tail(s, r1, a, i + 1) == Ok::<(NodeV, int), ErrV>((abc, i + 5)));
        assert(expr(s, r1, i) == Ok::<(NodeV, int), ErrV>((abc, i + 5)));
        lemma_lift(s, 0, r1, i, abc, i + 5);
    } else {
        let ab = op_node(o1, a, b);
        let abc = op_node(o2, ab, c);
        lemma_literal_operand(s, r1 + 1, i + 2);
        assert(tail(s, r1, a, i + 1) == tail(s, r1, ab, i + 3));
        if r1 > r2 {
            assert(tail(s, r1, ab, i + 3) == Ok::<(NodeV, int), ErrV>((ab, i + 3)));
            assert(expr(s, r1, i) == Ok::<(NodeV, int), ErrV>((ab, i + 3)));
            lemma_lift(s, r2 + 1, r1, i, ab, i + 3);
            assert(tail(s, r2, abc, i + 5) == Ok::<(NodeV, int), ErrV>((abc, i + 5)));
            assert(tail(s, r2, ab, i + 3) == Ok::<(NodeV, int), ErrV>((abc, i + 5)));
            assert(expr(s, r2, i) == Ok::<(NodeV, int), ErrV>((abc, i + 5)));
        } else {
            assert(tail(s, r1, abc, i + 5) == Ok::<(NodeV, int), ErrV>((abc, i + 5)));
            assert(tail(s, r1, ab, i + 3) == Ok::<(NodeV, int), ErrV>((abc, i + 5)));
            assert(expr(s, r1, i) == Ok::<(NodeV, int), ErrV>((abc, i + 5)));
        }
        lemma_lift(s, 0, r2, i, abc, i + 5);
    }
}

/// The rest of an expression after its left operand `lhs`.
pub open spec fn tail(s: TokSrc, level: int, lhs: NodeV, i: int) -> PNode
    decreases s.toks.len() - i, 10int,
{
    match peek(s, i) {
        Err(e) => Err(e),
        Ok(t) => if 0 <= level < 6 && ops_at(level, t.kind) {
            match expr(s, level + 1, i + 1) {
                Err(e) => Err(e),
                Ok((rhs, j)) => if moved(s, i, j) {
                    tail(s, level, bin_v(t, lhs, rhs), j)
                } else {
                    Err(stall(s))
                },
            }
        } else {
            Ok((lhs, i))
        },
    }
}

/// A literal, a call, a variable, an expression in brackets, or a factor
/// after `-` or `@`.
pub open spec fn factor(s: TokSrc, i: int) -> PNode
    decreases s.toks.len() - i, 15int,
{
    match peek(s, i) {
        Err(e) => Err(e),
        Ok(t) => if t.kind == TokKind::Int {
            Ok((nv(NodeKind::LiteralInt, Datatype::I64, t, seq![]), i + 1))
        } else if t.kind == TokKind::String {
            Ok((nv(NodeKind::LiteralString, Datatype::ChrPtr, t, seq![]), i + 1))
        } else if t.kind == TokKind::Char {
            Ok((nv(NodeKind::LiteralChar, Datatype::Chr, t, seq![]), i + 1))
        } else if t.kind == TokKind::Syscall {
            syscall(s, i)
        } else if t.kind == TokKind::Ident {
            match peek(s, i + 1) {
                Err(e) => Err(e),
                Ok(t2) => if t2.kind == TokKind::OParen {
                    func_call(s, i)
                } else {
                    ident(s, i)
                },
            }
        } else if t.kind == TokKind::OParen {
            match expr(s, 0, i + 1) {
                Err(e) => Err(e),
                Ok((e, j)) => match expect(s, j, TokKind::CParen) {
                    Err(x) => Err(x),
                    Ok(_) => Ok((e, j + 1)),
                },
            }
        } else if t.kind == TokKind::Minus || t.kind == TokKind::Deref {
            match factor(s, i + 1) {
                Err(e) => Err(e),
                Ok((f, j)) => Ok((un_v(t, f), j)),
            }
        } else {
            Err(tok_error(ErrorKind::ExpectedFactor, t))
        },
    }
}

/// A variable, maybe behind `@`, maybe with a subscript.
pub open spec fn ident(s: TokSrc, i: int) -> PNode
    decreases s.toks.len() - i, 12int,
{
    match peek(s, i) {
        Err(e) => Err(e),
        Ok(t) => {
            let base: PNode = if t.kind == TokKind::Deref {
                match expect(s, i + 1, TokKind::Ident) {
                    Err(e) => Err(e),
                    Ok(name) => Ok((un_v(t, var_v(name)), i + 2)),
                }
            } else {
                match expect(s, i, TokKind::Ident) {
                    Err(e) => Err(e),
                    Ok(name) => Ok((var_v(name), i + 1)),
                }
            };
            match base {
                Err(e) => Err(e),
                Ok((node, j)) => match peek(s, j) {
                    Err(e) => Err(e),
                    Ok(t2) => if t2.kind == TokKind::OSquare && i < j {
                        match expr(s, 4, j + 1) {
                            Err(e) => Err(e),
                            Ok((e, k)) => match expect(s, k, TokKind::CSquare) {
                                Err(x) => Err(x),
                                Ok(_) => Ok((bin_v(subscript_tok(t2), node, e), k + 1)),
                            },
                        }
                    } else {
                        Ok((node, j))
                    },
                },
            }
        },
    }
}

/// An assignment: to a variable, to what a variable points at, or to the
/// address that an expression in brackets gives.
pub open spec fn assign(s: TokSrc, i: int) -> PNode
    decreases s.toks.len() - i, 25int,
{
    match peek(s, i) {
        Err(e) => Err(e),
        Ok(t) => if t.kind == TokKind::Deref {
            match peek(s, i + 1) {
                Err(e) => Err(e),
                Ok(t2) => if t2.kind == TokKind::OParen {
                    match expr(s, 4, i + 2) {
                        Err(e) => Err(e),
                        Ok((lhs, j)) => if !moved(s, i, j) {
                            Err(stall(s))
                        } else {
                            match expect(s, j, TokKind::CParen) {
                                Err(x) => Err(x),
                                Ok(_) => match peek(s, j + 1) {
                                    Err(x) => Err(x),
                                    Ok(atok) => match expr(s, 0, j + 2) {
                                        Err(x) => Err(x),
                                        Ok((rhs, k)) => Ok((assign_v(atok, un_v(t, lhs), rhs), k)),
                                    },
                                },
                            }
                        },
                    }
                } else {
                    match ident(s, i + 1) {
                        Err(e) => Err(e),
                        Ok((lhs, j)) => if !moved(s, i, j) {
                            Err(stall(s))
                        } else {
                            match expect(s, j, TokKind::Assign) {
                                Err(x) => Err(x),
                                Ok(atok) => match expr(s, 0, j + 1) {
                                    Err(x) => Err(x),
                                    Ok((rhs, k)) => Ok((assign_v(atok, un_v(t, lhs), rhs), k)),
                                },
                            }
                        },
                    }
                },
            }
        } else {
            match ident(s, i) {
                Err(e) => Err(e),
                Ok((lhs, j)) => if !moved(s, i, j) {
                    Err(stall(s))
                } else {
                    match expect(s, j, TokKind::Assign) {
                        Err(x) => Err(x),
                        Ok(atok) => match expr(s, 0, j + 1) {
                            Err(x) => Err(x),
                            Ok((rhs, k)) => Ok((assign_v(atok, lhs, rhs), k)),
                        },
                    }
                },
            }
        },
    }
}

/// The arguments of a call up to its `)`, gathered after `args`.
pub open spec fn call_args(s: TokSrc, i: int, args: Seq<NodeV>) -> PNodes
    decreases s.toks.len() - i, 23int,
{
    match peek(s, i) {
        Err(e) => Err(e),
        Ok(t) => if t.kind == TokKind::CParen {
            Ok((args, i))
        } else {
            let p: Result<int, ErrV> = if args.len() > 0 {
                match expect(s, i, TokKind::Separator) {
                    Err(e) => Err(e),
                    Ok(_) => Ok(i + 1),
                }
            } else {
                Ok(i)
            };
            match p {
                Err(e) => Err(e),
                Ok(p) => if i <= p <= i + 1 && p <= s.toks.len() {
                    match expr(s, 0, p) {
                        Err(e) => Err(e),
                        Ok((e, j)) => if moved(s, i, j) {
                            call_args(s, j, args.push(e))
                        } else {
                            Err(stall(s))
                        },
                    }
                } else {
                    Err(stall(s))
                },
            }
        },
    }
}

/// A call of a function by name; its arguments are kept last first.
pub open spec fn func_call(s: TokSrc, i: int) -> PNode
    decreases s.toks.len() - i, 14int,
{
    match expect(s, i, TokKind::Ident) {
        Err(e) => Err(e),
        Ok(name) => match expect(s, i + 1, TokKind::OParen) {
            Err(e) => Err(e),
            Ok(_) => match call_args(s, i + 2, seq![]) {
                Err(e) => Err(e),
                Ok((args, j)) => match expect(s, j, TokKind::CParen) {
                    Err(e) => Err(e),
                    Ok(_) => Ok((nv(NodeKind::FuncCall, Datatype::Unknown, name, args.reverse()), j + 1)),
                },
            },
        },
    }
}

/// A system call; its arguments are kept last first.
pub open spec fn syscall(s: TokSrc, i: int) -> PNode
    decreases s.toks.len() - i, 14int,
{
    match expect(s, i, TokKind::Syscall) {
        Err(e) => Err(e),
        Ok(name) => match expect(s, i + 1, TokKind::OParen) {
            Err(e) => Err(e),
            Ok(_) => match call_args(s, i + 2, seq![]) {
                Err(e) => Err(e),
                Ok((args, j)) => match expect(s, j, TokKind::CParen) {
                    Err(e) => Err(e),
                    Ok(_) => Ok((nv(NodeKind::Syscall, Datatype::I64, name, args.reverse()), j + 1)),
                },
            },
        },
    }
}

/// A declaration: the declared variable and its assignment, which is to
/// `0` where no value is given.
pub open spec fn var_decl(s: TokSrc, i: int) -> Result<((NodeV, NodeV), int), ErrV>
    decreases s.toks.len() - i, 26int,
{
    match take_type(s.toks, s.end, i) {
        Err(e) => Err(e),
        Ok(tt) => match peek(s, i + 1) {
            Err(e) => Err(e),
            Ok(id) => {
                let lhs = nv(NodeKind::VarDecl, datatype_of(tt.kind), id, seq![]);
                if id.kind != TokKind::Ident {
                    Err(tok_error(ErrorKind::ExpectedToken(TokKind::Ident), id))
                } else {
                    match peek(s, i + 2) {
                        Err(e) => Err(e),
                        Ok(nx) => if nx.kind == TokKind::Assign {
                            match assign(s, i + 1) {
                                Err(e) => Err(e),
                                Ok((a, j)) => Ok(((lhs, a), j)),
                            }
                        } else {
                            Ok(((lhs, assign_v(implicit_assign_tok(), var_v(id), zero_literal_v())), i + 2))
                        },
                    }
                }
            },
        },
    }
}

/// A node followed by `;`.
pub open spec fn then_end(s: TokSrc, r: PNode) -> PNodes {
    match r {
        Err(e) => Err(e),
        Ok((n, j)) => match expect(s, j, TokKind::End) {
            Err(e) => Err(e),
            Ok(_) => Ok((seq![n], j + 1)),
        },
    }
}

/// Statements in braces.
pub open spec fn scoped(s: TokSrc, i: int) -> PNodes
    decreases s.toks.len() - i, 31int,
{
    match expect(s, i, TokKind::OScope) {
        Err(e) => Err(e),
        Ok(_) => match block(s, i + 1, seq![]) {
            Err(e) => Err(e),
            Ok((b, j)) => match expect(s, j, TokKind::CScope) {
                Err(e) => Err(e),
                Ok(_) => Ok((b, j + 1)),
            },
        },
    }
}

/// Statements up to a `}`, gathered after `acc`.
pub open spec fn block(s: TokSrc, i: int, acc: Seq<NodeV>) -> PNodes
    decreases s.toks.len() - i, 30int,
{
    match peek(s, i) {
        Err(e) => Err(e),
        Ok(t) => if t.kind == TokKind::CScope {
            Ok((acc, i))
        } else {
            match statement(s, i) {
                Err(e) => Err(e),
                Ok((ns, j)) => if moved(s, i, j) {
                    block(s, j, acc + ns)
                } else {
                    Err(stall(s))
                },
            }
        },
    }
}

/// The head of a `for`: a declaration, an assignment or nothing.
pub open spec fn for_init(s: TokSrc, i: int) -> Result<(Option<NodeV>, Option<NodeV>, int), ErrV>
    decreases s.toks.len() - i, 28int,
{
    match peek(s, i) {
        Err(e) => Err(e),
        Ok(t1) => if is_type_kind(t1.kind) {
            match var_decl(s, i) {
                Err(e) => Err(e),
                Ok(((d, a), j)) => Ok((Some(d), Some(a), j)),
            }
        } else if t1.kind != TokKind::End {
            match assign(s, i) {
                Err(e) => Err(e),
                Ok((a, j)) => Ok((None, Some(a), j)),
            }
        } else {
            Ok((None, None, i))
        },
    }
}

/// The condition of a `for`, or nothing.
pub open spec fn for_cond(s: TokSrc, i: int) -> Result<(Option<NodeV>, int), ErrV>
    decreases s.toks.len() - i, 28int,
{
    match peek(s, i) {
        Err(e) => Err(e),
        Ok(t) => if t.kind != TokKind::End {
            match expr(s, 0, i) {
                Err(e) => Err(e),
                Ok((c, k)) => Ok((Some(c), k)),
            }
        } else {
            Ok((None, i))
        },
    }
}

/// The step of a `for`: a call, an assignment, or nothing before the body.
pub open spec fn for_post(s: TokSrc, i: int) -> Result<(Option<NodeV>, int), ErrV>
    decreases s.toks.len() - i, 28int,
{
    match peek(s, i) {
        Err(e) => Err(e),
        Ok(t) => if t.kind != TokKind::OScope {
            match peek(s, i + 1) {
                Err(e) => Err(e),
                Ok(t2) => if t2.kind == TokKind::OParen {
                    match func_call(s, i) {
                        Err(e) => Err(e),
                        Ok((p, m)) => Ok((Some(p), m)),
                    }
                } else {
                    match assign(s, i) {
                        Err(e) => Err(e),
                        Ok((p, m)) => Ok((Some(p), m)),
                    }
                },
            }
        } else {
            Ok((None, i))
        },
    }
}

/// A `for` loop, after its keyword `t` at `i`.
pub open spec fn for_stmt(s: TokSrc, t: TokV, i: int) -> PNodes
    decreases s.toks.len() - i, 28int,
{
    match for_init(s, i + 1) {
        Err(e) => Err(e),
        Ok((decl, init, j)) => if !moved(s, i, j) {
            Err(stall(s))
        } else {
            match expect(s, j, TokKind::End) {
                Err(e) => Err(e),
                Ok(_) => match for_cond(s, j + 1) {
                    Err(e) => Err(e),
                    Ok((cond, k)) => if !moved(s, i, k) {
                        Err(stall(s))
                    } else {
                        match expect(s, k, TokKind::End) {
                            Err(e) => Err(e),
                            Ok(_) => match for_post(s, k + 1) {
                                Err(e) => Err(e),
                                Ok((post, m)) => if !moved(s, i, m) {
                                    Err(stall(s))
                                } else {
                                    match scoped(s, m) {
                                        Err(e) => Err(e),
                                        Ok((body, q)) => Ok((seq![for_v(t, decl, init, cond, post, body)], q)),
                                    }
                                },
                            },
                        }
                    },
                },
            }
        },
    }
}

/// An `if`, after its keyword `t` at `i`.
pub open spec fn if_stmt(s: TokSrc, t: TokV, i: int) -> PNodes
    decreases s.toks.len() - i, 28int,
{
    match expr(s, 0, i + 1) {
        Err(e) => Err(e),
        Ok((c, j)) => if !moved(s, i, j) {
            Err(stall(s))
        } else {
            match scoped(s, j) {
                Err(e) => Err(e),
                Ok((ib, k)) => if !moved(s, i, k) {
                    Err(stall(s))
                } else {
                    match peek(s, k) {
                        Err(e) => Err(e),
                        Ok(t2) => if t2.kind == TokKind::Else {
                            match scoped(s, k + 1) {
                                Err(e) => Err(e),
                                Ok((eb, m)) => Ok((seq![cond_v(t, c, ib, eb)], m)),
                            }
                        } else {
                            Ok((seq![cond_v(t, c, ib, seq![])], k))
                        },
                    }
                },
            }
        },
    }
}

/// A `while` loop, after its keyword `t` at `i`.
pub open spec fn while_stmt(s: TokSrc, t: TokV, i: int) -> PNodes
    decreases s.toks.len() - i, 28int,
{
    match expr(s, 0, i + 1) {
        Err(e) => Err(e),
        Ok((c, j)) => if !moved(s, i, j) {
            Err(stall(s))
        } else {
            match scoped(s, j) {
                Err(e) => Err(e),
                Ok((b, k)) => Ok((seq![nv(NodeKind::WhileLoop, Datatype::NoType, t, seq![c, group_v(b)])], k)),
            }
        },
    }
}

/// A `return` and its value, after its keyword `t` at `i`.
pub open spec fn return_stmt(s: TokSrc, t: TokV, i: int) -> PNodes
    decreases s.toks.len() - i, 28int,
{
    match expr(s, 0, i + 1) {
        Err(e) => Err(e),
        Ok((e, j)) => then_end(s, Ok((nv(NodeKind::Return, Datatype::Unknown, t, seq![e]), j))),
    }
}

/// A statement that starts with a name: a call or an assignment.
pub open spec fn name_stmt(s: TokSrc, t: TokV, i: int) -> PNodes
    decreases s.toks.len() - i, 28int,
{
    match peek(s, i + 1) {
        Err(e) => Err(e),
        Ok(t2) => if t2.kind == TokKind::OParen {
            then_end(s, func_call(s, i))
        } else if t2.kind == TokKind::Assign || t2.kind == TokKind::OSquare {
            then_end(s, assign(s, i))
        } else {
            Err(tok_error(ErrorKind::ExpectedAssignOrCall, t))
        },
    }
}

/// A declaration followed by `;`.
pub open spec fn decl_stmt(s: TokSrc, i: int) -> PNodes
    decreases s.toks.len() - i, 28int,
{
    match var_decl(s, i) {
        Err(e) => Err(e),
        Ok(((d, a), j)) => match expect(s, j, TokKind::End) {
            Err(e) => Err(e),
            Ok(_) => Ok((seq![d, a], j + 1)),
        },
    }
}

/// A statement; a declaration gives two nodes, every other statement one.
pub open spec fn statement(s: TokSrc, i: int) -> PNodes
    decreases s.toks.len() - i, 29int,
{
    match peek(s, i) {
        Err(e) => Err(e),
        Ok(t) => if t.kind == TokKind::Return {
            return_stmt(s, t, i)
        } else if t.kind == TokKind::Break {
            then_end(s, Ok((nv(NodeKind::Break, Datatype::NoType, t, seq![]), i + 1)))
        } else if t.kind == TokKind::Continue {
            then_end(s, Ok((nv(NodeKind::Continue, Datatype::NoType, t, seq![]), i + 1)))
        } else if t.kind == TokKind::For {
            for_stmt(s, t, i)
        } else if t.kind == TokKind::While {
            while_stmt(s, t, i)
        } else if t.kind == TokKind::If {
            if_stmt(s, t, i)
        } else if t.kind == TokKind::Syscall {
            then_end(s, syscall(s, i))
        } else if t.kind == TokKind::Ident {
            name_stmt(s, t, i)
        } else if is_type_kind(t.kind) {
            decl_stmt(s, i)
        } else if t.kind == TokKind::Deref {
            then_end(s, assign(s, i))
        } else {
            Err(tok_error(ErrorKind::ExpectedStatement, t))
        },
    }
}

/// The parameters of a function up to its `)`, gathered after `args`.
pub open spec fn decl_args(s: TokSrc, i: int, args: Seq<NodeV>) -> PNodes
    decreases s.toks.len() - i,
{
    match peek(s, i) {
        Err(e) => Err(e),
        Ok(t) => if t.kind == TokKind::CParen {
            Ok((args, i))
        } else {
            let p: Result<int, ErrV> = if args.len() > 0 {
                match expect(s, i, TokKind::Separator) {
                    Err(e) => Err(e),
                    Ok(_) => Ok(i + 1),
                }
            } else {
                Ok(i)
            };
            match p {
                Err(e) => Err(e),
                Ok(p) => if i <= p {
                    match take_type(s.toks, s.end, p) {
                        Err(e) => Err(e),
                        Ok(tt) => match expect(s, p + 1, TokKind::Ident) {
                            Err(e) => Err(e),
                            Ok(id) => decl_args(
                                s,
                                p + 2,
                                args.push(nv(NodeKind::VarDecl, datatype_of(tt.kind), id, seq![])),
                            ),
                        },
                    }
                } else {
                    Err(stall(s))
                },
            }
        },
    }
}

/// A function: its type, name, parameters and body.
pub open spec fn func_decl(s: TokSrc, i: int) -> PNode {
    match take_type(s.toks, s.end, i) {
        Err(e) => Err(e),
        Ok(tt) => match expect(s, i + 1, TokKind::Ident) {
            Err(e) => Err(e),
            Ok(id) => match expect(s, i + 2, TokKind::OParen) {
                Err(e) => Err(e),
                Ok(_) => match decl_args(s, i + 3, seq![]) {
                    Err(e) => Err(e),
                    Ok((args, j)) => match expect(s, j, TokKind::CParen) {
                        Err(e) => Err(e),
                        Ok(_) => match scoped(s, j + 1) {
                            Err(e) => Err(e),
                            Ok((body, k)) => Ok(
                                (
                                    nv(
                                        NodeKind::FuncDecl,
                                        datatype_of(tt.kind),
                                        id,
                                        seq![group_v(args), group_v(body)],
                                    ),
                                    k,
                                ),
                            ),
                        },
                    },
                },
            },
        },
    }
}

/// Functions and includes while more than one token is left, gathered after `acc`.
pub open spec fn program(s: TokSrc, i: int, acc: Seq<NodeV>) -> PNodes
    decreases s.toks.len() - i,
{
    if !(0 <= i < s.toks.len() - 1) {
        Ok((acc, i))
    } else {
        let t = s.toks[i];
        if is_type_kind(t.kind) {
            match func_decl(s, i) {
                Err(e) => Err(e),
                Ok((n, j)) => if moved(s, i, j) {
                    program(s, j, acc.push(n))
                } else {
                    Err(stall(s))
                },
            }
        } else if t.kind == TokKind::Include {
            match expect(s, i + 1, TokKind::String) {
                Err(e) => Err(e),
                Ok(f) => program(
                    s,
                    i + 2,
                    acc.push(
                        nv(NodeKind::Include, Datatype::NoType, t, seq![nv(NodeKind::LiteralString, Datatype::ChrPtr, f, seq![])]),
                    ),
                ),
            }
        } else {
            Err(tok_error(ErrorKind::UnexpectedTopLevel, t))
        }
    }
}

} // verus!
