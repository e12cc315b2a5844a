use vstd::prelude::*;

use crate::error::{CompileError, ErrV, ErrorKind};
use crate::lex::{is_type_kind, tok_error, Tok, TokKind, TokV};
use crate::names::{insert_entry, lookup, NameMap};
use crate::parse::{lemma_nodes_view_update, node_view, nodes_view, Node, NodeKind, NodeV, AST};

verus! {

/// The types of values in the language.
#[derive(Debug, PartialEq, Eq, Structural, Hash, Clone, Copy)]
pub enum Datatype {
    NoType,
    Unknown,
    Void,
    I64,
    I64Ptr,
    Chr,
    ChrPtr,
    AnyPtr,
}

/// The type that a type keyword names.
pub open spec fn datatype_of(k: TokKind) -> Datatype {
    match k {
        TokKind::TypeVoid => Datatype::Void,
        TokKind::TypeInt64 => Datatype::I64,
        TokKind::TypeInt64Ptr => Datatype::I64Ptr,
        TokKind::TypeChr => Datatype::Chr,
        TokKind::TypeChrPtr => Datatype::ChrPtr,
        _ => Datatype::AnyPtr,
    }
}

impl Datatype {
    /// The type that a type token names.
    pub fn from_token(tok: &Tok) -> (r: Datatype)
        requires
            is_type_kind(tok.kind),
        ensures
            r == datatype_of(tok.kind),
    {
        match tok.kind {
            TokKind::TypeVoid => Datatype::Void,
            TokKind::TypeInt64 => Datatype::I64,
            TokKind::TypeInt64Ptr => Datatype::I64Ptr,
            TokKind::TypeChr => Datatype::Chr,
            TokKind::TypeChrPtr => Datatype::ChrPtr,
            _ => Datatype::AnyPtr,
        }
    }

    /// The size of a value in bytes, or -1 for types without values.
    pub open spec fn size_of(self) -> int {
        match self {
            Datatype::I64 => 8,
            Datatype::I64Ptr => 8,
            Datatype::Chr => 1,
            Datatype::ChrPtr => 8,
            Datatype::AnyPtr => 8,
            _ => -1,
        }
    }

    pub fn size(&self) -> (r: i64)
        ensures
            r == self.size_of(),
    {
        match self {
            Datatype::I64 => 8,
            Datatype::I64Ptr => 8,
            Datatype::Chr => 1,
            Datatype::ChrPtr => 8,
            Datatype::AnyPtr => 8,
            _ => -1,
        }
    }

    pub open spec fn is_pointer(self) -> bool {
        self == Datatype::I64Ptr || self == Datatype::ChrPtr || self == Datatype::AnyPtr
    }

    pub fn is_ptr(&self) -> (r: bool)
        ensures
            r == self.is_pointer(),
    {
        matches!(self, Datatype::I64Ptr | Datatype::ChrPtr | Datatype::AnyPtr)
    }

    pub open spec fn is_number(self) -> bool {
        self == Datatype::I64 || self == Datatype::Chr
    }

    pub fn is_numeric(&self) -> (r: bool)
        ensures
            r == self.is_number(),
    {
        matches!(self, Datatype::I64 | Datatype::Chr)
    }

    /// Whether a value of type `other` may stand where one of `self` is expected.
    pub open spec fn compatible(self, other: Datatype) -> bool {
        match self {
            Datatype::I64 => other == Datatype::AnyPtr || other == Datatype::I64 || other == Datatype::Chr,
            Datatype::I64Ptr => other == Datatype::AnyPtr || other == Datatype::I64Ptr || other == Datatype::I64,
            Datatype::Chr => other == Datatype::Chr || other == Datatype::I64,
            Datatype::ChrPtr => other == Datatype::AnyPtr || other == Datatype::ChrPtr || other == Datatype::I64,
            Datatype::AnyPtr => other == Datatype::AnyPtr || other == Datatype::ChrPtr || other == Datatype::I64Ptr
                || other == Datatype::I64,
            Datatype::Void => other == Datatype::Void,
            _ => false,
        }
    }

    pub fn is_compatible(&self, other: &Datatype) -> (r: bool)
        ensures
            r == self.compatible(*other),
    {
        match self {
            Datatype::I64 => matches!(other, Datatype::AnyPtr | Datatype::I64 | Datatype::Chr),
            Datatype::I64Ptr => matches!(other, Datatype::AnyPtr | Datatype::I64Ptr | Datatype::I64),
            Datatype::Chr => matches!(other, Datatype::Chr | Datatype::I64),
            Datatype::ChrPtr => matches!(other, Datatype::AnyPtr | Datatype::ChrPtr | Datatype::I64),
            Datatype::AnyPtr => matches!(other, Datatype::AnyPtr | Datatype::ChrPtr | Datatype::I64Ptr | Datatype::I64),
            Datatype::Void => matches!(other, Datatype::Void),
            _ => false,
        }
    }

    /// The type that a pointer points at, for the pointers that say it.
    pub open spec fn base(self) -> Option<Datatype> {
        match self {
            Datatype::I64Ptr => Some(Datatype::I64),
            Datatype::ChrPtr => Some(Datatype::Chr),
            _ => None,
        }
    }

    pub fn base_type(&self) -> (r: Option<Datatype>)
        ensures
            r == self.base(),
    {
        match self {
            Datatype::I64Ptr => Some(Datatype::I64),
            Datatype::ChrPtr => Some(Datatype::Chr),
            _ => None,
        }
    }
}


/// Every type that values have takes values of its own type; the types
/// of no value and of a value not yet known take nothing.
pub proof fn law_compatible_reflexive(t: Datatype)
    ensures
        t.compatible(t) <==> (t != Datatype::NoType && t != Datatype::Unknown),
        t == Datatype::NoType || t == Datatype::Unknown ==> forall|o: Datatype| !#[trigger] t.compatible(o),
{
}

/// What a pointer points at is a number, and a pointer is as wide as an
/// integer.
pub proof fn law_base_of_pointer(t: Datatype)
    ensures
        t.base() matches Some(b) ==> t.is_pointer() && b.is_number() && t.size_of() == 8,
        t.is_pointer() ==> t.size_of() == Datatype::I64.size_of(),
{
}

impl View for Datatype {
    type V = Datatype;

    open spec fn view(&self) -> Datatype {
        *self
    }
}

/// The types of a function's parameters and its result.
pub struct SigV {
    pub ret: Datatype,
    pub args: Seq<Datatype>,
}

/// The types of the variables in scope, by name.
pub type Locals = Seq<(Seq<u8>, Datatype)>;

/// The signatures of the functions, by name.
pub type Sigs = Seq<(Seq<u8>, SigV)>;

/// A node with its type set.
pub open spec fn with_type(n: NodeV, t: Datatype) -> NodeV {
    NodeV { datatype: t, ..n }
}

/// A node with one child replaced.
pub open spec fn set_child(n: NodeV, i: int, c: NodeV) -> NodeV {
    NodeV { children: n.children.update(i, c), ..n }
}

/// A node with its children replaced.
pub open spec fn with_children(n: NodeV, cs: Seq<NodeV>) -> NodeV {
    NodeV { children: cs, ..n }
}

/// The error for a node whose children are not those its kind has.
pub open spec fn malformed(n: NodeV) -> ErrV {
    tok_error(ErrorKind::MalformedTree, n.tok)
}

/// The type of a variable, by the name its token carries.
pub open spec fn var_type(locals: Locals, n: NodeV) -> Result<Datatype, ErrV> {
    match lookup(locals, n.tok.val) {
        Some(t) => if t == Datatype::Unknown {
            Err(tok_error(ErrorKind::UnknownVarType, n.tok))
        } else {
            Ok(t)
        },
        None => Err(tok_error(ErrorKind::VarNotFound, n.tok)),
    }
}

/// The signature of the function that a token names.
pub open spec fn func_sig(sigs: Sigs, t: TokV) -> Result<SigV, ErrV> {
    match lookup(sigs, t.val) {
        Some(s) => Ok(s),
        None => Err(tok_error(ErrorKind::FuncNotFound, t)),
    }
}

/// Kinds that the type of a factor is worked out for, child by child.
pub open spec fn is_factor_kind(k: NodeKind) -> bool {
    k == NodeKind::UnaryOp || k == NodeKind::BinaryOp || k == NodeKind::FuncCall || k == NodeKind::Syscall
}

pub open spec fn factor_rank(n: NodeV) -> int {
    if is_factor_kind(n.kind) {
        1
    } else {
        5
    }
}

/// The type of a factor, and the factor with the types of it and its
/// operands filled in.
pub open spec fn tc_factor(sigs: Sigs, locals: Locals, n: NodeV) -> Result<(Datatype, NodeV), ErrV>
    decreases n, factor_rank(n), 0int,
{
    if n.kind == NodeKind::FuncCall {
        match tc_func_call(sigs, locals, n) {
            Err(e) => Err(e),
            Ok((t, n2)) => Ok((t, with_type(n2, t))),
        }
    } else if n.kind == NodeKind::Syscall {
        match tc_syscall_args(sigs, locals, n.tok, n.children, 0, n.children) {
            Err(e) => Err(e),
            Ok(cs) => Ok((Datatype::I64, with_type(with_children(n, cs), Datatype::I64))),
        }
    } else if n.kind == NodeKind::BinaryOp {
        if n.children.len() != 2 {
            Err(malformed(n))
        } else if n.tok.kind == TokKind::Subscript {
            match tc_factor(sigs, locals, n.children[1]) {
                Err(e) => Err(e),
                Ok((rt, rc)) => if !rt.is_number() {
                    Err(ErrV { kind: ErrorKind::SubscriptNotInt(rt), pos: rc.tok.pos, text: rc.tok.val })
                } else {
                    match var_type(locals, n.children[0]) {
                        Err(e) => Err(e),
                        Ok(lt) => match lt.base() {
                            Some(b) => Ok(
                                (b, with_type(with_children(n, seq![with_type(n.children[0], lt), rc]), b)),
                            ),
                            None => Err(
                                ErrV {
                                    kind: ErrorKind::CannotSubscript(lt),
                                    pos: n.children[0].tok.pos,
                                    text: n.children[0].tok.val,
                                },
                            ),
                        },
                    }
                },
            }
        } else {
            match tc_factor(sigs, locals, n.children[0]) {
                Err(e) => Err(e),
                Ok((lt, lc)) => match tc_factor(sigs, locals, n.children[1]) {
                    Err(e) => Err(e),
                    Ok((rt, rc)) => if !lt.compatible(rt) {
                        Err(ErrV { kind: ErrorKind::MixedTypes(lt, rt), pos: n.tok.pos, text: n.tok.val })
                    } else {
                        Ok((lt, with_type(with_children(n, seq![lc, rc]), lt)))
                    },
                },
            }
        }
    } else if n.kind == NodeKind::UnaryOp {
        if n.children.len() == 0 {
            Err(malformed(n))
        } else if n.tok.kind == TokKind::Minus {
            match tc_factor(sigs, locals, n.children[0]) {
                Err(e) => Err(e),
                Ok((t, c)) => Ok((t, with_type(set_child(n, 0, c), t))),
            }
        } else if n.tok.kind == TokKind::Deref {
            match tc_factor(sigs, locals, n.children[0]) {
                Err(e) => Err(e),
                Ok((t, c)) => match t.base() {
                    Some(b) => Ok((b, with_type(set_child(n, 0, c), b))),
                    None => Err(ErrV { kind: ErrorKind::CannotDeref(t), pos: c.tok.pos, text: c.tok.val }),
                },
            }
        } else {
            Err(malformed(n))
        }
    } else {
        match tc_expr(sigs, locals, n) {
            Err(e) => Err(e),
            Ok(t) => Ok((t, with_type(n, t))),
        }
    }
}

/// A call: its arguments checked against the signature, last child first,
/// and the type of its result.
pub open spec fn tc_func_call(sigs: Sigs, locals: Locals, n: NodeV) -> Result<(Datatype, NodeV), ErrV>
    decreases n, 0int, 0int,
{
    match func_sig(sigs, n.tok) {
        Err(e) => Err(e),
        Ok(sig) => if sig.args.len() != n.children.len() {
            Err(tok_error(ErrorKind::ArgCount, n.tok))
        } else {
            match tc_call_args(sigs, locals, n.tok, sig.args, n.children, 0, n.children) {
                Err(e) => Err(e),
                Ok(cs) => Ok((sig.ret, with_type(with_children(n, cs), sig.ret))),
            }
        },
    }
}

/// The arguments of a call from the `i`-th on, counted from the last child;
/// `cur` holds those checked so far.
pub open spec fn tc_call_args(
    sigs: Sigs,
    locals: Locals,
    call: TokV,
    expected: Seq<Datatype>,
    orig: Seq<NodeV>,
    i: int,
    cur: Seq<NodeV>,
) -> Result<Seq<NodeV>, ErrV>
    decreases orig, 0int, orig.len() - i,
{
    if i < 0 || i >= orig.len() {
        Ok(cur)
    } else {
        let idx = orig.len() - 1 - i;
        match tc_factor(sigs, locals, orig[idx]) {
            Err(e) => Err(e),
            Ok((t, c)) => if !t.compatible(expected[i]) {
                Err(ErrV { kind: ErrorKind::ArgType(expected[i], t), pos: call.pos, text: call.val })
            } else {
                tc_call_args(sigs, locals, call, expected, orig, i + 1, cur.update(idx, c))
            },
        }
    }
}

/// The arguments of a system call from the `i`-th on, which must be
/// numbers or pointers; `cur` holds those checked so far.
pub open spec fn tc_syscall_args(
    sigs: Sigs,
    locals: Locals,
    call: TokV,
    orig: Seq<NodeV>,
    i: int,
    cur: Seq<NodeV>,
) -> Result<Seq<NodeV>, ErrV>
    decreases orig, 0int, orig.len() - i,
{
    if i < 0 || i >= orig.len() {
        Ok(cur)
    } else {
        match tc_factor(sigs, locals, orig[i]) {
            Err(e) => Err(e),
            Ok((t, c)) => if !t.is_number() && !t.is_pointer() {
                Err(tok_error(ErrorKind::SyscallArg, call))
            } else {
                tc_syscall_args(sigs, locals, call, orig, i + 1, cur.update(i, c))
            },
        }
    }
}

/// The type of an expression: that of its first node in post order, with
/// which every node of it must be compatible.
pub open spec fn tc_expr(sigs: Sigs, locals: Locals, e: NodeV) -> Result<Datatype, ErrV>
    decreases e, 4int, 0int,
{
    match expr_walk(sigs, locals, e, Datatype::Unknown) {
        Err(err) => Err(err),
        Ok(t) => if t == Datatype::Unknown {
            Err(tok_error(ErrorKind::NoExprType, e.tok))
        } else {
            Ok(t)
        },
    }
}

/// The nodes of a tree in post order, each checked against the type so far.
pub open spec fn expr_walk(sigs: Sigs, locals: Locals, e: NodeV, acc: Datatype) -> Result<Datatype, ErrV>
    decreases e, 3int, 0int,
{
    match walk_children(sigs, locals, e.children, 0, acc) {
        Err(err) => Err(err),
        Ok(a) => visit(sigs, locals, e, a),
    }
}

/// The trees from the `i`-th on, in post order.
pub open spec fn walk_children(sigs: Sigs, locals: Locals, cs: Seq<NodeV>, i: int, acc: Datatype) -> Result<
    Datatype,
    ErrV,
>
    decreases cs, 3int, cs.len() - i,
{
    if i < 0 || i >= cs.len() {
        Ok(acc)
    } else {
        match expr_walk(sigs, locals, cs[i], acc) {
            Err(err) => Err(err),
            Ok(a) => walk_children(sigs, locals, cs, i + 1, a),
        }
    }
}

/// The type of one node of an expression, checked against the type so far.
pub open spec fn visit(sigs: Sigs, locals: Locals, e: NodeV, acc: Datatype) -> Result<Datatype, ErrV>
    decreases e, 2int, 0int,
{
    let nt: Result<Datatype, ErrV> = if e.kind == NodeKind::LiteralInt {
        Ok(Datatype::I64)
    } else if e.kind == NodeKind::LiteralChar {
        Ok(Datatype::Chr)
    } else if e.kind == NodeKind::LiteralString {
        Ok(Datatype::ChrPtr)
    } else if e.kind == NodeKind::Var {
        var_type(locals, e)
    } else if is_factor_kind(e.kind) {
        match tc_factor(sigs, locals, e) {
            Err(err) => Err(err),
            Ok((t, _)) => Ok(t),
        }
    } else {
        Err(tok_error(ErrorKind::UnexpectedExprNode, e.tok))
    };
    match nt {
        Err(err) => Err(err),
        Ok(t) => {
            let a = if acc == Datatype::Unknown {
                t
            } else {
                acc
            };
            if !a.compatible(t) {
                Err(ErrV { kind: ErrorKind::MixedTypes(a, t), pos: e.tok.pos, text: e.tok.val })
            } else {
                Ok(a)
            }
        },
    }
}


/// The target of an assignment: its type, and the target with types filled in.
pub open spec fn tc_target(sigs: Sigs, locals: Locals, lhs: NodeV) -> Result<(Datatype, NodeV), ErrV> {
    if lhs.kind == NodeKind::UnaryOp {
        if lhs.children.len() == 0 {
            Err(malformed(lhs))
        } else if lhs.tok.kind == TokKind::Minus {
            match tc_expr(sigs, locals, lhs.children[0]) {
                Err(e) => Err(e),
                Ok(t) => Ok((t, lhs)),
            }
        } else if lhs.tok.kind == TokKind::Deref {
            let child = lhs.children[0];
            match tc_expr(sigs, locals, child) {
                Err(e) => Err(e),
                Ok(ct) => match ct.base() {
                    Some(b) => Ok((b, set_child(lhs, 0, with_type(child, ct)))),
                    None => Err(ErrV { kind: ErrorKind::CannotDeref(ct), pos: child.tok.pos, text: child.tok.val }),
                },
            }
        } else {
            Err(malformed(lhs))
        }
    } else if lhs.kind == NodeKind::BinaryOp {
        if lhs.tok.kind != TokKind::Subscript || lhs.children.len() != 2 {
            Err(malformed(lhs))
        } else {
            match tc_factor(sigs, locals, lhs.children[1]) {
                Err(e) => Err(e),
                Ok((_, rc)) => match tc_factor(sigs, locals, lhs.children[0]) {
                    Err(e) => Err(e),
                    Ok((lt, lc)) => match lt.base() {
                        Some(b) => Ok((b, with_children(lhs, seq![lc, rc]))),
                        None => Err(ErrV { kind: ErrorKind::CannotSubscript(lt), pos: lc.tok.pos, text: lc.tok.val }),
                    },
                },
            }
        }
    } else {
        match tc_expr(sigs, locals, lhs) {
            Err(e) => Err(e),
            Ok(t) => Ok((t, lhs)),
        }
    }
}

/// An assignment: the target's type must take the value's.
pub open spec fn tc_assign(sigs: Sigs, locals: Locals, a: NodeV) -> Result<NodeV, ErrV> {
    if a.children.len() != 2 {
        Err(malformed(a))
    } else {
        match tc_target(sigs, locals, a.children[0]) {
            Err(e) => Err(e),
            Ok((lt, lhs)) => match tc_factor(sigs, locals, a.children[1]) {
                Err(e) => Err(e),
                Ok((rt, rc)) => if !lt.compatible(rt) {
                    Err(ErrV { kind: ErrorKind::CannotAssign(rt, lt), pos: a.tok.pos, text: a.tok.val })
                } else {
                    Ok(with_type(with_children(a, seq![with_type(lhs, lt), rc]), lt))
                },
            },
        }
    }
}

/// A `return`: its value must suit the result type of the function `outer`.
pub open spec fn tc_return(sigs: Sigs, locals: Locals, outer: TokV, r: NodeV) -> Result<NodeV, ErrV> {
    if r.children.len() == 0 {
        Err(malformed(r))
    } else {
        match tc_factor(sigs, locals, r.children[0]) {
            Err(e) => Err(e),
            Ok((rt, rc)) => match func_sig(sigs, outer) {
                Err(e) => Err(e),
                Ok(sig) => if !rt.compatible(sig.ret) {
                    Err(ErrV { kind: ErrorKind::InvalidReturnType(sig.ret, rt), pos: r.tok.pos, text: r.tok.val })
                } else {
                    Ok(set_child(r, 0, rc))
                },
            },
        }
    }
}

/// A condition, which must be a number.
pub open spec fn tc_cond(sigs: Sigs, locals: Locals, c: NodeV) -> Result<NodeV, ErrV> {
    match tc_factor(sigs, locals, c) {
        Err(e) => Err(e),
        Ok((t, c2)) => if !t.is_number() {
            Err(ErrV { kind: ErrorKind::CondType(t), pos: c.tok.pos, text: c.tok.val })
        } else {
            Ok(c2)
        },
    }
}

/// The step of a `for`: an assignment or a call.
pub open spec fn tc_post(sigs: Sigs, locals: Locals, p: NodeV) -> Result<NodeV, ErrV> {
    if p.kind == NodeKind::Assign {
        tc_assign(sigs, locals, p)
    } else if p.kind == NodeKind::FuncCall {
        match tc_func_call(sigs, locals, p) {
            Err(e) => Err(e),
            Ok((_, p2)) => Ok(p2),
        }
    } else if p.kind == NodeKind::Syscall {
        match tc_syscall_args(sigs, locals, p.tok, p.children, 0, p.children) {
            Err(e) => Err(e),
            Ok(cs) => Ok(with_children(p, cs)),
        }
    } else {
        Err(malformed(p))
    }
}

/// The statements of a block, in order, the variables they declare
/// staying in scope for the rest of the function.
pub open spec fn tc_block(sigs: Sigs, locals: Locals, outer: TokV, b: NodeV) -> Result<(NodeV, Locals), ErrV>
    decreases b, 3int, 0int,
{
    match tc_stmts(sigs, locals, outer, b.children, 0, b.children) {
        Err(e) => Err(e),
        Ok((cs, l)) => Ok((with_children(b, cs), l)),
    }
}

/// The statements from the `i`-th on; `cur` holds those checked so far.
pub open spec fn tc_stmts(
    sigs: Sigs,
    locals: Locals,
    outer: TokV,
    orig: Seq<NodeV>,
    i: int,
    cur: Seq<NodeV>,
) -> Result<(Seq<NodeV>, Locals), ErrV>
    decreases orig, 2int, orig.len() - i,
{
    if i < 0 || i >= orig.len() {
        Ok((cur, locals))
    } else {
        match tc_stmt(sigs, locals, outer, orig[i]) {
            Err(e) => Err(e),
            Ok((n, l)) => tc_stmts(sigs, l, outer, orig, i + 1, cur.update(i, n)),
        }
    }
}

/// One statement.
pub open spec fn tc_stmt(sigs: Sigs, locals: Locals, outer: TokV, st: NodeV) -> Result<(NodeV, Locals), ErrV>
    decreases st, 1int, 0int,
{
    if st.kind == NodeKind::VarDecl {
        Ok((st, insert_entry(locals, st.tok.val, st.datatype)))
    } else if st.kind == NodeKind::Assign {
        match tc_assign(sigs, locals, st) {
            Err(e) => Err(e),
            Ok(n) => Ok((n, locals)),
        }
    } else if st.kind == NodeKind::FuncCall {
        match tc_func_call(sigs, locals, st) {
            Err(e) => Err(e),
            Ok((_, n)) => Ok((n, locals)),
        }
    } else if st.kind == NodeKind::Syscall {
        match tc_syscall_args(sigs, locals, st.tok, st.children, 0, st.children) {
            Err(e) => Err(e),
            Ok(cs) => Ok((with_children(st, cs), locals)),
        }
    } else if st.kind == NodeKind::Conditional {
        tc_conditional(sigs, locals, outer, st)
    } else if st.kind == NodeKind::ForLoop {
        tc_for(sigs, locals, outer, st)
    } else if st.kind == NodeKind::WhileLoop {
        tc_while(sigs, locals, outer, st)
    } else if st.kind == NodeKind::Return {
        match tc_return(sigs, locals, outer, st) {
            Err(e) => Err(e),
            Ok(n) => Ok((n, locals)),
        }
    } else {
        Ok((st, locals))
    }
}

/// An `if`: its condition, its body, and its `else` body if it has one.
pub open spec fn tc_conditional(sigs: Sigs, locals: Locals, outer: TokV, st: NodeV) -> Result<(NodeV, Locals), ErrV>
    decreases st, 0int, 0int,
{
    if st.children.len() < 2 {
        Err(malformed(st))
    } else {
        match tc_cond(sigs, locals, st.children[0]) {
            Err(e) => Err(e),
            Ok(c) => match tc_block(sigs, locals, outer, st.children[1]) {
                Err(e) => Err(e),
                Ok((ib, l1)) => {
                    let n1 = set_child(set_child(st, 0, c), 1, ib);
                    if st.children.len() > 2 {
                        match tc_block(sigs, l1, outer, st.children[2]) {
                            Err(e) => Err(e),
                            Ok((eb, l2)) => Ok((set_child(n1, 2, eb), l2)),
                        }
                    } else {
                        Ok((n1, l1))
                    }
                },
            },
        }
    }
}

/// The head of a `for`: its declaration, assignment, condition and step,
/// each where it is there; gives the loop with them checked, and the
/// variables in scope for its body.
pub open spec fn tc_for_head(sigs: Sigs, locals: Locals, st: NodeV) -> Result<(NodeV, Locals), ErrV> {
    let decl = st.children[0];
    let l1 = if decl.kind != NodeKind::Null {
        insert_entry(locals, decl.tok.val, decl.datatype)
    } else {
        locals
    };
    let init = st.children[1];
    let ir = if init.kind != NodeKind::Null {
        tc_assign(sigs, l1, init)
    } else {
        Ok(init)
    };
    match ir {
        Err(e) => Err(e),
        Ok(i2) => {
            let cond = st.children[2];
            let cr = if cond.kind != NodeKind::Null {
                tc_cond(sigs, l1, cond)
            } else {
                Ok(cond)
            };
            match cr {
                Err(e) => Err(e),
                Ok(c2) => {
                    let post = st.children[3];
                    let pr = if post.kind != NodeKind::Null {
                        tc_post(sigs, l1, post)
                    } else {
                        Ok(post)
                    };
                    match pr {
                        Err(e) => Err(e),
                        Ok(p2) => Ok((set_child(set_child(set_child(st, 1, i2), 2, c2), 3, p2), l1)),
                    }
                },
            }
        },
    }
}

/// A `for`: its head, then its body.
pub open spec fn tc_for(sigs: Sigs, locals: Locals, outer: TokV, st: NodeV) -> Result<(NodeV, Locals), ErrV>
    decreases st, 0int, 0int,
{
    if st.children.len() < 5 {
        Err(malformed(st))
    } else {
        match tc_for_head(sigs, locals, st) {
            Err(e) => Err(e),
            Ok((h, l1)) => match tc_block(sigs, l1, outer, st.children[4]) {
                Err(e) => Err(e),
                Ok((b, l2)) => Ok((set_child(h, 4, b), l2)),
            },
        }
    }
}

/// A `while`: its condition, unless it is null, then its body.
pub open spec fn tc_while(sigs: Sigs, locals: Locals, outer: TokV, st: NodeV) -> Result<(NodeV, Locals), ErrV>
    decreases st, 0int, 0int,
{
    if st.children.len() != 2 {
        Err(malformed(st))
    } else {
        let cond = st.children[0];
        let cr = if cond.kind != NodeKind::Null {
            tc_cond(sigs, locals, cond)
        } else {
            Ok(cond)
        };
        match cr {
            Err(e) => Err(e),
            Ok(c2) => match tc_block(sigs, locals, outer, st.children[1]) {
                Err(e) => Err(e),
                Ok((b, l)) => Ok((set_child(set_child(st, 0, c2), 1, b), l)),
            },
        }
    }
}

/// The parameters of a function as variables in scope, from the `i`-th on.
pub open spec fn params_scope(args: Seq<NodeV>, i: int, locals: Locals) -> Locals
    decreases args.len() - i,
{
    if i < 0 || i >= args.len() {
        locals
    } else {
        params_scope(args, i + 1, insert_entry(locals, args[i].tok.val, args[i].datatype))
    }
}

/// A function: its body checked with its parameters in scope.
pub open spec fn tc_func_decl(sigs: Sigs, f: NodeV) -> Result<NodeV, ErrV> {
    if f.children.len() == 0 {
        Err(tok_error(ErrorKind::MissingSignature, f.tok))
    } else if f.children.len() == 1 {
        Ok(f)
    } else {
        let locals = params_scope(f.children[0].children, 0, seq![]);
        match tc_block(sigs, locals, f.tok, f.children[1]) {
            Err(e) => Err(e),
            Ok((b, _)) => Ok(set_child(f, 1, b)),
        }
    }
}

/// The signature of a function declaration.
pub open spec fn sig_of(f: NodeV) -> SigV {
    SigV { ret: f.datatype, args: f.children[0].children.map_values(|a: NodeV| a.datatype) }
}

/// The signatures of the top-level functions from the `i`-th on, each
/// added to the table.
pub open spec fn collect_sigs(top: Seq<NodeV>, i: int, sigs: Sigs) -> Sigs
    decreases top.len() - i,
{
    if i < 0 || i >= top.len() {
        sigs
    } else {
        let f = top[i];
        let s2 = if f.kind == NodeKind::FuncDecl && f.children.len() > 0 {
            insert_entry(sigs, f.tok.val, sig_of(f))
        } else {
            sigs
        };
        collect_sigs(top, i + 1, s2)
    }
}

/// The top-level functions from the `i`-th on, each checked; `cur` holds
/// those checked so far.
pub open spec fn tc_top(sigs: Sigs, top: Seq<NodeV>, i: int, cur: Seq<NodeV>) -> Result<Seq<NodeV>, ErrV>
    decreases top.len() - i,
{
    if i < 0 || i >= top.len() {
        Ok(cur)
    } else if top[i].kind == NodeKind::FuncDecl {
        match tc_func_decl(sigs, top[i]) {
            Err(e) => Err(e),
            Ok(f) => tc_top(sigs, top, i + 1, cur.update(i, f)),
        }
    } else {
        tc_top(sigs, top, i + 1, cur)
    }
}

/// A tree with the type of every node cleared: what is left is its shape,
/// the kinds and tokens of its nodes.
pub open spec fn erased(n: NodeV) -> NodeV
    decreases n,
{
    NodeV {
        datatype: Datatype::NoType,
        children: Seq::new(
            n.children.len(),
            |i: int|
                if 0 <= i < n.children.len() {
                    erased(n.children[i])
                } else {
                    n
                },
        ),
        ..n
    }
}

/// Whether two trees differ at most in the types of their nodes: the same
/// kinds and tokens, node for node.
pub open spec fn retyped(a: NodeV, b: NodeV) -> bool {
    erased(a) == erased(b)
}

/// Whether two sequences of trees differ at most in the types of their
/// nodes.
pub open spec fn all_retyped(a: Seq<NodeV>, b: Seq<NodeV>) -> bool {
    a.len() == b.len() && forall|i: int| 0 <= i < a.len() ==> #[trigger] retyped(a[i], b[i])
}

proof fn lemma_same_node(a: NodeV, b: NodeV)
    requires
        a.kind == b.kind,
        a.tok == b.tok,
        all_retyped(a.children, b.children),
    ensures
        retyped(a, b),
{
    assert forall|i: int| 0 <= i < a.children.len() implies erased(a).children[i] == erased(b).children[i] by {
        assert(retyped(a.children[i], b.children[i]));
    }
    assert(erased(a).children =~= erased(b).children);
}

proof fn lemma_with_children(n: NodeV, cs: Seq<NodeV>, t: Datatype)
    requires
        all_retyped(n.children, cs),
    ensures
        retyped(n, with_children(n, cs)),
        retyped(n, with_type(with_children(n, cs), t)),
        retyped(n, with_type(n, t)),
{
    lemma_same_node(n, with_children(n, cs));
    lemma_same_node(n, with_type(with_children(n, cs), t));
    lemma_same_node(n, with_type(n, t));
}

proof fn lemma_set_child(n: NodeV, i: int, c: NodeV, t: Datatype)
    requires
        0 <= i < n.children.len(),
        retyped(n.children[i], c),
    ensures
        retyped(n, set_child(n, i, c)),
        retyped(n, with_type(set_child(n, i, c), t)),
{
    assert(all_retyped(n.children, n.children.update(i, c)));
    lemma_with_children(n, n.children.update(i, c), t);
}

proof fn lemma_factor_shape(sigs: Sigs, locals: Locals, n: NodeV)
    ensures
        tc_factor(sigs, locals, n) matches Ok((_, m)) ==> retyped(n, m),
    decreases n, factor_rank(n), 0int,
{
    if n.kind == NodeKind::FuncCall {
        lemma_func_call_shape(sigs, locals, n);
        if let Ok((t, n2)) = tc_func_call(sigs, locals, n) {
            lemma_with_children(n2, n2.children, t);
        }
    } else if n.kind == NodeKind::Syscall {
        lemma_syscall_shape(sigs, locals, n.tok, n.children, 0, n.children);
        if let Ok(cs) = tc_syscall_args(sigs, locals, n.tok, n.children, 0, n.children) {
            lemma_with_children(n, cs, Datatype::I64);
        }
    } else if n.kind == NodeKind::BinaryOp {
        if n.children.len() == 2 {
            lemma_factor_shape(sigs, locals, n.children[1]);
            if n.tok.kind == TokKind::Subscript {
                if let Ok((rt, rc)) = tc_factor(sigs, locals, n.children[1]) {
                    if let Ok(lt) = var_type(locals, n.children[0]) {
                        if let Some(b) = lt.base() {
                            let cs = seq![with_type(n.children[0], lt), rc];
                            lemma_with_children(n.children[0], n.children[0].children, lt);
                            assert(all_retyped(n.children, cs));
                            lemma_with_children(n, cs, b);
                        }
                    }
                }
            } else {
                lemma_factor_shape(sigs, locals, n.children[0]);
                if let Ok((lt, lc)) = tc_factor(sigs, locals, n.children[0]) {
                    if let Ok((rt, rc)) = tc_factor(sigs, locals, n.children[1]) {
                        let cs = seq![lc, rc];
                        assert(all_retyped(n.children, cs));
                        lemma_with_children(n, cs, lt);
                    }
                }
            }
        }
    } else if n.kind == NodeKind::UnaryOp {
        if n.children.len() > 0 {
            lemma_factor_shape(sigs, locals, n.children[0]);
            if let Ok((t, c)) = tc_factor(sigs, locals, n.children[0]) {
                lemma_set_child(n, 0, c, t);
                if let Some(b) = t.base() {
                    lemma_set_child(n, 0, c, b);
                }
            }
        }
    } else {
        if let Ok(t) = tc_expr(sigs, locals, n) {
            lemma_with_children(n, n.children, t);
        }
    }
}

proof fn lemma_func_call_shape(sigs: Sigs, locals: Locals, n: NodeV)
    ensures
        tc_func_call(sigs, locals, n) matches Ok((_, m)) ==> retyped(n, m),
    decreases n, 0int, 0int,
{
    if let Ok(sig) = func_sig(sigs, n.tok) {
        if sig.args.len() == n.children.len() {
            lemma_call_args_shape(sigs, locals, n.tok, sig.args, n.children, 0, n.children);
            if let Ok(cs) = tc_call_args(sigs, locals, n.tok, sig.args, n.children, 0, n.children) {
                lemma_with_children(n, cs, sig.ret);
            }
        }
    }
}

proof fn lemma_call_args_shape(
    sigs: Sigs,
    locals: Locals,
    call: TokV,
    expected: Seq<Datatype>,
    orig: Seq<NodeV>,
    i: int,
    cur: Seq<NodeV>,
)
    requires
        all_retyped(orig, cur),
    ensures
        tc_call_args(sigs, locals, call, expected, orig, i, cur) matches Ok(cs) ==> all_retyped(orig, cs),
    decreases orig, 0int, orig.len() - i,
{
    if 0 <= i < orig.len() {
        let idx = orig.len() - 1 - i;
        lemma_factor_shape(sigs, locals, orig[idx]);
        if let Ok((t, c)) = tc_factor(sigs, locals, orig[idx]) {
            assert(all_retyped(orig, cur.update(idx, c)));
            lemma_call_args_shape(sigs, locals, call, expected, orig, i + 1, cur.update(idx, c));
        }
    }
}

proof fn lemma_syscall_shape(sigs: Sigs, locals: Locals, call: TokV, orig: Seq<NodeV>, i: int, cur: Seq<NodeV>)
    requires
        all_retyped(orig, cur),
    ensures
        tc_syscall_args(sigs, locals, call, orig, i, cur) matches Ok(cs) ==> all_retyped(orig, cs),
    decreases orig, 0int, orig.len() - i,
{
    if 0 <= i < orig.len() {
        lemma_factor_shape(sigs, locals, orig[i]);
        if let Ok((t, c)) = tc_factor(sigs, locals, orig[i]) {
            assert(all_retyped(orig, cur.update(i, c)));
            lemma_syscall_shape(sigs, locals, call, orig, i + 1, cur.update(i, c));
        }
    }
}

proof fn lemma_target_shape(sigs: Sigs, locals: Locals, lhs: NodeV)
    ensures
        tc_target(sigs, locals, lhs) matches Ok((_, m)) ==> retyped(lhs, m),
{
    if lhs.kind == NodeKind::UnaryOp && lhs.children.len() > 0 && lhs.tok.kind == TokKind::Deref {
        let child = lhs.children[0];
        if let Ok(ct) = tc_expr(sigs, locals, child) {
            lemma_with_children(child, child.children, ct);
            lemma_set_child(lhs, 0, with_type(child, ct), ct);
        }
    } else if lhs.kind == NodeKind::BinaryOp && lhs.tok.kind == TokKind::Subscript && lhs.children.len() == 2 {
        lemma_factor_shape(sigs, locals, lhs.children[1]);
        lemma_factor_shape(sigs, locals, lhs.children[0]);
        if let Ok((_, rc)) = tc_factor(sigs, locals, lhs.children[1]) {
            if let Ok((lt, lc)) = tc_factor(sigs, locals, lhs.children[0]) {
                let cs = seq![lc, rc];
                assert(all_retyped(lhs.children, cs));
                lemma_with_children(lhs, cs, lt);
            }
        }
    }
}

proof fn lemma_assign_shape(sigs: Sigs, locals: Locals, a: NodeV)
    ensures
        tc_assign(sigs, locals, a) matches Ok(m) ==> retyped(a, m),
{
    if a.children.len() == 2 {
        lemma_target_shape(sigs, locals, a.children[0]);
        lemma_factor_shape(sigs, locals, a.children[1]);
        if let Ok((lt, lhs)) = tc_target(sigs, locals, a.children[0]) {
            if let Ok((rt, rc)) = tc_factor(sigs, locals, a.children[1]) {
                lemma_with_children(lhs, lhs.children, lt);
                let cs = seq![with_type(lhs, lt), rc];
                assert(all_retyped(a.children, cs));
                lemma_with_children(a, cs, lt);
            }
        }
    }
}

proof fn lemma_simple_shape(sigs: Sigs, locals: Locals, outer: TokV, st: NodeV)
    ensures
        tc_return(sigs, locals, outer, st) matches Ok(m) ==> retyped(st, m),
        tc_cond(sigs, locals, st) matches Ok(m) ==> retyped(st, m),
        tc_post(sigs, locals, st) matches Ok(m) ==> retyped(st, m),
{
    lemma_factor_shape(sigs, locals, st);
    lemma_assign_shape(sigs, locals, st);
    lemma_func_call_shape(sigs, locals, st);
    lemma_syscall_shape(sigs, locals, st.tok, st.children, 0, st.children);
    if let Ok(cs) = tc_syscall_args(sigs, locals, st.tok, st.children, 0, st.children) {
        lemma_with_children(st, cs, st.datatype);
    }
    if st.children.len() > 0 {
        lemma_factor_shape(sigs, locals, st.children[0]);
        if let Ok((rt, rc)) = tc_factor(sigs, locals, st.children[0]) {
            lemma_set_child(st, 0, rc, rt);
        }
    }
}

proof fn lemma_block_shape(sigs: Sigs, locals: Locals, outer: TokV, b: NodeV)
    ensures
        tc_block(sigs, locals, outer, b) matches Ok((m, _)) ==> retyped(b, m),
    decreases b, 3int, 0int,
{
    lemma_stmts_shape(sigs, locals, outer, b.children, 0, b.children);
    if let Ok((cs, _)) = tc_stmts(sigs, locals, outer, b.children, 0, b.children) {
        lemma_with_children(b, cs, b.datatype);
    }
}

proof fn lemma_stmts_shape(sigs: Sigs, locals: Locals, outer: TokV, orig: Seq<NodeV>, i: int, cur: Seq<NodeV>)
    requires
        all_retyped(orig, cur),
    ensures
        tc_stmts(sigs, locals, outer, orig, i, cur) matches Ok((cs, _)) ==> all_retyped(orig, cs),
    decreases orig, 2int, orig.len() - i,
{
    if 0 <= i < orig.len() {
        lemma_stmt_shape(sigs, locals, outer, orig[i]);
        if let Ok((n, l)) = tc_stmt(sigs, locals, outer, orig[i]) {
            assert(all_retyped(orig, cur.update(i, n)));
            lemma_stmts_shape(sigs, l, outer, orig, i + 1, cur.update(i, n));
        }
    }
}

proof fn lemma_stmt_shape(sigs: Sigs, locals: Locals, outer: TokV, st: NodeV)
    ensures
        tc_stmt(sigs, locals, outer, st) matches Ok((m, _)) ==> retyped(st, m),
    decreases st, 1int, 0int,
{
    lemma_simple_shape(sigs, locals, outer, st);
    lemma_assign_shape(sigs, locals, st);
    if st.kind == NodeKind::Conditional {
        lemma_conditional_shape(sigs, locals, outer, st);
    } else if st.kind == NodeKind::ForLoop {
        lemma_for_shape(sigs, locals, outer, st);
    } else if st.kind == NodeKind::WhileLoop {
        lemma_while_shape(sigs, locals, outer, st);
    }
}

proof fn lemma_conditional_shape(sigs: Sigs, locals: Locals, outer: TokV, st: NodeV)
    ensures
        tc_conditional(sigs, locals, outer, st) matches Ok((m, _)) ==> retyped(st, m),
    decreases st, 0int, 0int,
{
    if st.children.len() >= 2 {
        lemma_simple_shape(sigs, locals, outer, st.children[0]);
        lemma_block_shape(sigs, locals, outer, st.children[1]);
        if let Ok(c) = tc_cond(sigs, locals, st.children[0]) {
            if let Ok((ib, l1)) = tc_block(sigs, locals, outer, st.children[1]) {
                let n0 = set_child(st, 0, c);
                lemma_set_child(st, 0, c, st.datatype);
                lemma_set_child(n0, 1, ib, st.datatype);
                let n1 = set_child(n0, 1, ib);
                if st.children.len() > 2 {
                    lemma_block_shape(sigs, l1, outer, st.children[2]);
                    if let Ok((eb, _)) = tc_block(sigs, l1, outer, st.children[2]) {
                        lemma_set_child(n1, 2, eb, st.datatype);
                    }
                }
            }
        }
    }
}

proof fn lemma_for_head_shape(sigs: Sigs, locals: Locals, st: NodeV)
    requires
        st.children.len() >= 5,
    ensures
        tc_for_head(sigs, locals, st) matches Ok((m, _)) ==> retyped(st, m),
{
    let decl = st.children[0];
    let l1 = if decl.kind != NodeKind::Null {
        insert_entry(locals, decl.tok.val, decl.datatype)
    } else {
        locals
    };
    lemma_assign_shape(sigs, l1, st.children[1]);
    lemma_simple_shape(sigs, l1, st.tok, st.children[2]);
    lemma_simple_shape(sigs, l1, st.tok, st.children[3]);
    if let Ok((h, _)) = tc_for_head(sigs, locals, st) {
        let i2 = h.children[1];
        let c2 = h.children[2];
        let p2 = h.children[3];
        let n1 = set_child(st, 1, i2);
        let n2 = set_child(n1, 2, c2);
        let n3 = set_child(n2, 3, p2);
        lemma_set_child(st, 1, i2, st.datatype);
        lemma_set_child(n1, 2, c2, st.datatype);
        lemma_set_child(n2, 3, p2, st.datatype);
        assert(h == n3);
    }
}

proof fn lemma_for_shape(sigs: Sigs, locals: Locals, outer: TokV, st: NodeV)
    ensures
        tc_for(sigs, locals, outer, st) matches Ok((m, _)) ==> retyped(st, m),
    decreases st, 0int, 0int,
{
    if st.children.len() >= 5 {
        lemma_for_head_shape(sigs, locals, st);
        if let Ok((h, l1)) = tc_for_head(sigs, locals, st) {
            lemma_block_shape(sigs, l1, outer, st.children[4]);
            if let Ok((b, _)) = tc_block(sigs, l1, outer, st.children[4]) {
                assert(h.children[4] == st.children[4]);
                lemma_set_child(h, 4, b, st.datatype);
            }
        }
    }
}

proof fn lemma_while_shape(sigs: Sigs, locals: Locals, outer: TokV, st: NodeV)
    ensures
        tc_while(sigs, locals, outer, st) matches Ok((m, _)) ==> retyped(st, m),
    decreases st, 0int, 0int,
{
    if st.children.len() == 2 {
        let cond = st.children[0];
        lemma_simple_shape(sigs, locals, outer, cond);
        lemma_block_shape(sigs, locals, outer, st.children[1]);
        let cr = if cond.kind != NodeKind::Null {
            tc_cond(sigs, locals, cond)
        } else {
            Ok(cond)
        };
        if let Ok(c2) = cr {
            if let Ok((b, _)) = tc_block(sigs, locals, outer, st.children[1]) {
                let n0 = set_child(st, 0, c2);
                lemma_set_child(st, 0, c2, st.datatype);
                lemma_set_child(n0, 1, b, st.datatype);
            }
        }
    }
}

proof fn lemma_top_shape(sigs: Sigs, top: Seq<NodeV>, i: int, cur: Seq<NodeV>)
    requires
        all_retyped(top, cur),
    ensures
        tc_top(sigs, top, i, cur) matches Ok(cs) ==> all_retyped(top, cs),
    decreases top.len() - i,
{
    if 0 <= i < top.len() {
        if top[i].kind == NodeKind::FuncDecl {
            let f = top[i];
            if f.children.len() > 1 {
                let locals = params_scope(f.children[0].children, 0, seq![]);
                lemma_block_shape(sigs, locals, f.tok, f.children[1]);
                if let Ok((b, _)) = tc_block(sigs, locals, f.tok, f.children[1]) {
                    lemma_set_child(f, 1, b, f.datatype);
                }
            } else {
            }
            if let Ok(g) = tc_func_decl(sigs, f) {
                assert(all_retyped(top, cur.update(i, g)));
                lemma_top_shape(sigs, top, i + 1, cur.update(i, g));
            }
        } else {
            lemma_top_shape(sigs, top, i + 1, cur);
        }
    }
}

/// Type checking only fills in types: the checked program has the same
/// nodes, with the same kinds and tokens, as the program checked.
pub proof fn law_typecheck_keeps_shape(sigs: Sigs, root: NodeV)
    ensures
        tc_top(sigs, root.children, 0, root.children) matches Ok(cs) ==> retyped(root, with_children(root, cs)),
{
    lemma_top_shape(sigs, root.children, 0, root.children);
    if let Ok(cs) = tc_top(sigs, root.children, 0, root.children) {
        lemma_with_children(root, cs, root.datatype);
    }
}


/// The target `@e` of an assignment has the type of what `e` points at:
/// `chr` where `e` is a `chr^`, `i64` where it is an `i64^`; through any
/// other type nothing can be stored.
pub proof fn law_deref_target_is_pointee(sigs: Sigs, locals: Locals, lhs: NodeV)
    requires
        lhs.kind == NodeKind::UnaryOp,
        lhs.tok.kind == TokKind::Deref,
        lhs.children.len() > 0,
    ensures
        tc_expr(sigs, locals, lhs.children[0]) == Ok::<Datatype, ErrV>(Datatype::ChrPtr) ==> (tc_target(sigs, locals, lhs)
            matches Ok((t, _)) && t == Datatype::Chr),
        tc_expr(sigs, locals, lhs.children[0]) == Ok::<Datatype, ErrV>(Datatype::I64Ptr) ==> (tc_target(sigs, locals, lhs)
            matches Ok((t, _)) && t == Datatype::I64),
        tc_target(sigs, locals, lhs) is Ok ==> tc_expr(sigs, locals, lhs.children[0]) == Ok::<Datatype, ErrV>(
            Datatype::ChrPtr,
        ) || tc_expr(sigs, locals, lhs.children[0]) == Ok::<Datatype, ErrV>(Datatype::I64Ptr),
{
}

/// Storing a character through a `chr^`, or a number through an `i64^`,
/// type-checks: `@p = x` is accepted where `x` has the type `p` points at,
/// and the assignment then has that type.
pub proof fn law_store_through_pointer(sigs: Sigs, locals: Locals, a: NodeV, pointer: Datatype)
    requires
        a.children.len() == 2,
        a.children[0].kind == NodeKind::UnaryOp,
        a.children[0].tok.kind == TokKind::Deref,
        a.children[0].children.len() > 0,
        pointer == Datatype::ChrPtr || pointer == Datatype::I64Ptr,
        tc_expr(sigs, locals, a.children[0].children[0]) == Ok::<Datatype, ErrV>(pointer),
        tc_factor(sigs, locals, a.children[1]) matches Ok((t, _)) && t == (if pointer == Datatype::ChrPtr {
            Datatype::Chr
        } else {
            Datatype::I64
        }),
    ensures
        tc_assign(sigs, locals, a) matches Ok(m) && m.datatype == (if pointer == Datatype::ChrPtr {
            Datatype::Chr
        } else {
            Datatype::I64
        }),
{
    law_deref_target_is_pointee(sigs, locals, a.children[0]);
}

/// Whether the arguments of a call from the `i`-th on, counted from the
/// last child, each check and have a type its parameter takes.
pub open spec fn args_fit(sigs: Sigs, locals: Locals, expected: Seq<Datatype>, orig: Seq<NodeV>, i: int) -> bool {
    forall|k: int|
        i <= k < orig.len() ==> fits(#[trigger] tc_factor(sigs, locals, orig[orig.len() - 1 - k]), expected[k])
}

/// Whether an argument checked and has a type that its parameter takes.
pub open spec fn fits(checked: Result<(Datatype, NodeV), ErrV>, param: Datatype) -> bool {
    match checked {
        Ok((t, _)) => t.compatible(param),
        Err(_) => false,
    }
}

proof fn lemma_call_args_fit(
    sigs: Sigs,
    locals: Locals,
    call: TokV,
    expected: Seq<Datatype>,
    orig: Seq<NodeV>,
    i: int,
    cur: Seq<NodeV>,
)
    requires
        0 <= i,
    ensures
        tc_call_args(sigs, locals, call, expected, orig, i, cur) is Ok ==> args_fit(sigs, locals, expected, orig, i),
    decreases orig.len() - i,
{
    if i < orig.len() {
        let idx = orig.len() - 1 - i;
        if let Ok((t, c)) = tc_factor(sigs, locals, orig[idx]) {
            if t.compatible(expected[i]) {
                lemma_call_args_fit(sigs, locals, call, expected, orig, i + 1, cur.update(idx, c));
                if tc_call_args(sigs, locals, call, expected, orig, i, cur) is Ok {
                    assert forall|k: int| i <= k < orig.len() implies fits(#[trigger] tc_factor(sigs, locals, orig[orig.len() - 1 - k]), expected[k]) by {
                        if k > i {
                            assert(args_fit(sigs, locals, expected, orig, i + 1));
                        }
                    }
                }
            }
        }
    }
}

/// A call checks only with as many arguments as its function has
/// parameters, each of a type that its parameter takes (the arguments
/// stand in the tree last first), and then has the function's result
/// type; with another number of arguments it is an error.
pub proof fn law_call_matches_signature(sigs: Sigs, locals: Locals, n: NodeV)
    ensures
        tc_func_call(sigs, locals, n) matches Ok((t, _)) ==> func_sig(sigs, n.tok) matches Ok(sig) && {
            &&& sig.args.len() == n.children.len()
            &&& t == sig.ret
            &&& args_fit(sigs, locals, sig.args, n.children, 0)
        },
        func_sig(sigs, n.tok) matches Ok(sig) && sig.args.len() != n.children.len() ==> tc_func_call(sigs, locals, n)
            == Err::<(Datatype, NodeV), ErrV>(tok_error(ErrorKind::ArgCount, n.tok)),
{
    if let Ok(sig) = func_sig(sigs, n.tok) {
        lemma_call_args_fit(sigs, locals, n.tok, sig.args, n.children, 0, n.children);
    }
}

/// The types of a function's parameters and its result.
#[derive(Debug)]
pub struct FunctionSignature {
    pub ret_type: Datatype,
    pub arg_types: Vec<Datatype>,
}

impl View for FunctionSignature {
    type V = SigV;

    open spec fn view(&self) -> SigV {
        SigV { ret: self.ret_type, args: self.arg_types@ }
    }
}

/// The scope of a function being checked: its variables, and the function.
pub struct Context {
    pub locals: NameMap<Datatype>,
    pub outer_func: Node,
}

impl Context {
    pub open spec fn locals_v(&self) -> Locals {
        self.locals.view_entries()
    }

    /// The type of a variable, by the name its token carries.
    pub fn get_var_type(&self, node: &Node) -> (r: Result<Datatype, CompileError>)
        ensures
            match var_type(self.locals_v(), node@) {
                Ok(t) => r == Ok::<Datatype, CompileError>(t),
                Err(e) => r is Err && r->Err_0@ == e,
            },
    {
        match self.locals.get(node.tok.val.as_slice()) {
            Some(t) => {
                if *t == Datatype::Unknown {
                    Err(tok_err(ErrorKind::UnknownVarType, &node.tok))
                } else {
                    Ok(*t)
                }
            },
            None => Err(tok_err(ErrorKind::VarNotFound, &node.tok)),
        }
    }
}

/// The error of a kind at a token.
pub fn tok_err(kind: ErrorKind, t: &Tok) -> (r: CompileError)
    ensures
        r@ == tok_error(kind, t@),
{
    CompileError { kind, pos: t.pos.clone(), text: t.val.clone() }
}

/// The result of checking a node agrees with the spec: the type, and the node after.
pub open spec fn typed_res(r: Result<Datatype, CompileError>, n: NodeV, p: Result<(Datatype, NodeV), ErrV>) -> bool {
    match p {
        Ok((t, m)) => r == Ok::<Datatype, CompileError>(t) && n == m,
        Err(e) => r is Err && r->Err_0@ == e,
    }
}

/// The result of checking a node agrees with the spec: the node after.
pub open spec fn checked_res(r: Result<(), CompileError>, n: NodeV, p: Result<NodeV, ErrV>) -> bool {
    match p {
        Ok(m) => r is Ok && n == m,
        Err(e) => r is Err && r->Err_0@ == e,
    }
}

/// The checker: the signatures of the functions.
pub struct Analyser {
    pub funcs: NameMap<FunctionSignature>,
}

impl Analyser {
    pub open spec fn sigs(&self) -> Sigs {
        self.funcs.view_entries()
    }

    pub fn new() -> (r: Self)
        ensures
            r.sigs() == Seq::<(Seq<u8>, SigV)>::empty(),
    {
        Analyser { funcs: NameMap::new() }
    }
}

impl Default for Analyser {
    fn default() -> (r: Self)
        ensures
            r.sigs() == Seq::<(Seq<u8>, SigV)>::empty(),
    {
        Self::new()
    }
}

impl Analyser {

    /// The signature of the function that a node's token names.
    fn get_func_sig(&self, node: &Node) -> (r: Result<&FunctionSignature, CompileError>)
        ensures
            match func_sig(self.sigs(), node@.tok) {
                Ok(s) => r is Ok && r.unwrap()@ == s,
                Err(e) => r is Err && r->Err_0@ == e,
            },
    {
        match self.funcs.get(node.tok.val.as_slice()) {
            Some(s) => Ok(s),
            None => Err(tok_err(ErrorKind::FuncNotFound, &node.tok)),
        }
    }

    /// Replaces a child with a checked one.
    fn put_child(node: &mut Node, i: usize, c: Node)
        requires
            i < old(node).children@.len(),
        ensures
            final(node)@ == set_child(old(node)@, i as int, c@),
            final(node).children@.len() == old(node).children@.len(),
    {
        proof {
            lemma_nodes_view_update(node.children@, i as int, c);
        }
        node.children.set(i, c);
    }

    /// The type of a factor; fills in the types of it and its operands.
    fn typecheck_factor(&self, node: &mut Node, ctx: &Context) -> (r: Result<Datatype, CompileError>)
        ensures
            typed_res(r, final(node)@, tc_factor(self.sigs(), ctx.locals_v(), old(node)@)),
        decreases old(node)@, factor_rank(old(node)@), 0int,
    {
        let ghost n0 = node@;
        match node.kind {
            NodeKind::FuncCall => {
                let t = self.typecheck_func_call(node, ctx)?;
                node.datatype = t;
                Ok(t)
            },
            NodeKind::Syscall => {
                self.typecheck_syscall(node, ctx)?;
                node.datatype = Datatype::I64;
                Ok(Datatype::I64)
            },
            NodeKind::BinaryOp => {
                if node.children.len() != 2 {
                    return Err(tok_err(ErrorKind::MalformedTree, &node.tok));
                }
                assert(node.children@[1]@ == n0.children[1]);
                assert(node.children@[0]@ == n0.children[0]);
                if node.tok.kind == TokKind::Subscript {
                    let mut rhs = node.children[1].clone();
                    let rt = self.typecheck_factor(&mut rhs, ctx)?;
                    if !rt.is_numeric() {
                        return Err(tok_err(ErrorKind::SubscriptNotInt(rt), &rhs.tok));
                    }
                    let lt = ctx.get_var_type(&node.children[0])?;
                    let mut lhs = node.children[0].clone();
                    lhs.datatype = lt;
                    match lt.base_type() {
                        Some(b) => {
                            Self::put_child(node, 0, lhs);
                            Self::put_child(node, 1, rhs);
                            node.datatype = b;
                            assert(node@.children =~= seq![with_type(n0.children[0], lt), rhs@]);
                            Ok(b)
                        },
                        None => Err(tok_err(ErrorKind::CannotSubscript(lt), &lhs.tok)),
                    }
                } else {
                    let mut lhs = node.children[0].clone();
                    let lt = self.typecheck_factor(&mut lhs, ctx)?;
                    let mut rhs = node.children[1].clone();
                    let rt = self.typecheck_factor(&mut rhs, ctx)?;
                    if !lt.is_compatible(&rt) {
                        return Err(tok_err(ErrorKind::MixedTypes(lt, rt), &node.tok));
                    }
                    Self::put_child(node, 0, lhs);
                    Self::put_child(node, 1, rhs);
                    node.datatype = lt;
                    assert(node@.children =~= seq![lhs@, rhs@]);
                    Ok(lt)
                }
            },
            NodeKind::UnaryOp => {
                if node.children.len() == 0 {
                    return Err(tok_err(ErrorKind::MalformedTree, &node.tok));
                }
                assert(node.children@[0]@ == n0.children[0]);
                match node.tok.kind {
                    TokKind::Minus => {
                        let mut child = node.children[0].clone();
                        let t = self.typecheck_factor(&mut child, ctx)?;
                        Self::put_child(node, 0, child);
                        node.datatype = t;
                        Ok(t)
                    },
                    TokKind::Deref => {
                        let mut child = node.children[0].clone();
                        let t = self.typecheck_factor(&mut child, ctx)?;
                        match t.base_type() {
                            Some(b) => {
                                Self::put_child(node, 0, child);
                                node.datatype = b;
                                Ok(b)
                            },
                            None => Err(tok_err(ErrorKind::CannotDeref(t), &child.tok)),
                        }
                    },
                    _ => Err(tok_err(ErrorKind::MalformedTree, &node.tok)),
                }
            },
            _ => {
                let t = self.typecheck_expr(node, ctx)?;
                node.datatype = t;
                Ok(t)
            },
        }
    }

    /// A call: its arguments against the signature, last child first.
    fn typecheck_func_call(&self, node: &mut Node, ctx: &Context) -> (r: Result<Datatype, CompileError>)
        ensures
            typed_res(r, final(node)@, tc_func_call(self.sigs(), ctx.locals_v(), old(node)@)),
        decreases old(node)@, 0int, 1int,
    {
        let ghost n0 = node@;
        let sig = self.get_func_sig(node)?;
        let n: usize = node.children.len();
        if sig.arg_types.len() != n {
            return Err(tok_err(ErrorKind::ArgCount, &node.tok));
        }
        let ghost goal = tc_call_args(self.sigs(), ctx.locals_v(), n0.tok, sig@.args, n0.children, 0, n0.children);
        let ghost whole = tc_func_call(self.sigs(), ctx.locals_v(), n0);
        assert(whole == match goal {
            Err(e) => Err(e),
            Ok(cs) => Ok((sig@.ret, with_type(with_children(n0, cs), sig@.ret))),
        });
        let mut i: usize = 0;
        while i < n
            invariant
                whole == tc_func_call(self.sigs(), ctx.locals_v(), old(node)@),
                whole == match goal {
                    Err(e) => Err(e),
                    Ok(cs) => Ok((sig@.ret, with_type(with_children(n0, cs), sig@.ret))),
                },
                n == n0.children.len(),
                n == node.children@.len(),
                sig@.args.len() == n,
                0 <= i <= n,
                node@ == with_children(n0, node@.children),
                goal == tc_call_args(self.sigs(), ctx.locals_v(), n0.tok, sig@.args, n0.children, i as int, node@.children),
                n0 == old(node)@,
                forall|k: int| 0 <= k < n - i ==> node@.children[k] == n0.children[k],
            decreases n - i,
        {
            let idx: usize = n - 1 - i;
            assert(node@.children[idx as int] == node.children@[idx as int]@);
            assert(decreases_to!(n0 => n0.children[idx as int]));
            let mut arg = node.children[idx].clone();
            assert(arg@ == n0.children[idx as int]);
            let t = match self.typecheck_factor(&mut arg, ctx) {
                Ok(t) => t,
                Err(e) => {
                    assert(goal == Err::<Seq<NodeV>, ErrV>(e@));
                    return Err(e);
                },
            };
            let expected: Datatype = sig.arg_types[i];
            if !t.is_compatible(&expected) {
                let e = tok_err(ErrorKind::ArgType(expected, t), &node.tok);
                assert(goal == Err::<Seq<NodeV>, ErrV>(e@));
                return Err(e);
            }
            Self::put_child(node, idx, arg);
            i = i + 1;
        }
        node.datatype = sig.ret_type;
        Ok(sig.ret_type)
    }

    /// A system call: its arguments must be numbers or pointers.
    fn typecheck_syscall(&self, node: &mut Node, ctx: &Context) -> (r: Result<Datatype, CompileError>)
        ensures
            match tc_syscall_args(self.sigs(), ctx.locals_v(), old(node)@.tok, old(node)@.children, 0, old(node)@.children) {
                Ok(cs) => r == Ok::<Datatype, CompileError>(Datatype::I64) && final(node)@ == with_children(old(node)@, cs),
                Err(e) => r is Err && r->Err_0@ == e,
            },
        decreases old(node)@, 0int, 1int,
    {
        let ghost n0 = node@;
        let n: usize = node.children.len();
        let ghost goal = tc_syscall_args(self.sigs(), ctx.locals_v(), n0.tok, n0.children, 0, n0.children);
        let mut i: usize = 0;
        while i < n
            invariant
                goal == tc_syscall_args(self.sigs(), ctx.locals_v(), old(node)@.tok, old(node)@.children, 0, old(node)@.children),
                n == n0.children.len(),
                n == node.children@.len(),
                0 <= i <= n,
                node@ == with_children(n0, node@.children),
                goal == tc_syscall_args(self.sigs(), ctx.locals_v(), n0.tok, n0.children, i as int, node@.children),
                n0 == old(node)@,
                forall|k: int| i <= k < n ==> node@.children[k] == n0.children[k],
            decreases n - i,
        {
            assert(node@.children[i as int] == node.children@[i as int]@);
            assert(decreases_to!(n0 => n0.children[i as int]));
            let mut arg = node.children[i].clone();
            let t = match self.typecheck_factor(&mut arg, ctx) {
                Ok(t) => t,
                Err(e) => {
                    assert(goal == Err::<Seq<NodeV>, ErrV>(e@));
                    return Err(e);
                },
            };
            if !t.is_numeric() && !t.is_ptr() {
                let e = tok_err(ErrorKind::SyscallArg, &node.tok);
                assert(goal == Err::<Seq<NodeV>, ErrV>(e@));
                return Err(e);
            }
            Self::put_child(node, i, arg);
            i = i + 1;
        }
        Ok(Datatype::I64)
    }

    /// The type of an expression: that of its first node in post order,
    /// with which every node of it must be compatible.
    fn typecheck_expr(&self, expr: &Node, ctx: &Context) -> (r: Result<Datatype, CompileError>)
        ensures
            match tc_expr(self.sigs(), ctx.locals_v(), expr@) {
                Ok(t) => r == Ok::<Datatype, CompileError>(t),
                Err(e) => r is Err && r->Err_0@ == e,
            },
        decreases expr@, 4int, 0int,
    {
        let t = self.expr_walk(expr, ctx, Datatype::Unknown)?;
        if t == Datatype::Unknown {
            return Err(tok_err(ErrorKind::NoExprType, &expr.tok));
        }
        Ok(t)
    }

    /// The nodes of a tree in post order, each checked against the type so far.
    fn expr_walk(&self, e: &Node, ctx: &Context, acc: Datatype) -> (r: Result<Datatype, CompileError>)
        ensures
            match expr_walk(self.sigs(), ctx.locals_v(), e@, acc) {
                Ok(t) => r == Ok::<Datatype, CompileError>(t),
                Err(err) => r is Err && r->Err_0@ == err,
            },
        decreases e@, 3int, 0int,
    {
        let ghost cs = e@.children;
        let mut a = acc;
        let mut i: usize = 0;
        while i < e.children.len()
            invariant
                cs == e@.children,
                cs.len() == e.children@.len(),
                0 <= i <= cs.len(),
                walk_children(self.sigs(), ctx.locals_v(), cs, 0, acc) == walk_children(
                    self.sigs(),
                    ctx.locals_v(),
                    cs,
                    i as int,
                    a,
                ),
            decreases cs.len() - i,
        {
            assert(cs[i as int] == e.children@[i as int]@);
            assert(decreases_to!(e@ => cs[i as int]));
            a = self.expr_walk(&e.children[i], ctx, a)?;
            i = i + 1;
        }
        self.visit(e, ctx, a)
    }

    /// The type of one node of an expression, checked against the type so far.
    fn visit(&self, e: &Node, ctx: &Context, acc: Datatype) -> (r: Result<Datatype, CompileError>)
        ensures
            match visit(self.sigs(), ctx.locals_v(), e@, acc) {
                Ok(t) => r == Ok::<Datatype, CompileError>(t),
                Err(err) => r is Err && r->Err_0@ == err,
            },
        decreases e@, 2int, 0int,
    {
        let t: Datatype = match e.kind {
            NodeKind::LiteralInt => Datatype::I64,
            NodeKind::LiteralChar => Datatype::Chr,
            NodeKind::LiteralString => Datatype::ChrPtr,
            NodeKind::Var => ctx.get_var_type(e)?,
            NodeKind::UnaryOp | NodeKind::BinaryOp | NodeKind::FuncCall | NodeKind::Syscall => {
                let mut c = e.clone();
                self.typecheck_factor(&mut c, ctx)?
            },
            _ => {
                return Err(tok_err(ErrorKind::UnexpectedExprNode, &e.tok));
            },
        };
        let a = if acc == Datatype::Unknown {
            t
        } else {
            acc
        };
        if !a.is_compatible(&t) {
            return Err(tok_err(ErrorKind::MixedTypes(a, t), &e.tok));
        }
        Ok(a)
    }

    /// The target of an assignment: its type; fills in the types inside it.
    fn typecheck_target(&self, lhs: &mut Node, ctx: &Context) -> (r: Result<Datatype, CompileError>)
        ensures
            typed_res(r, final(lhs)@, tc_target(self.sigs(), ctx.locals_v(), old(lhs)@)),
    {
        let ghost n0 = lhs@;
        match lhs.kind {
            NodeKind::UnaryOp => {
                if lhs.children.len() == 0 {
                    return Err(tok_err(ErrorKind::MalformedTree, &lhs.tok));
                }
                assert(lhs.children@[0]@ == n0.children[0]);
                match lhs.tok.kind {
                    TokKind::Minus => {
                        let t = self.typecheck_expr(&lhs.children[0], ctx)?;
                        Ok(t)
                    },
                    TokKind::Deref => {
                        let mut child = lhs.children[0].clone();
                        let ct = self.typecheck_expr(&child, ctx)?;
                        match ct.base_type() {
                            Some(b) => {
                                child.datatype = ct;
                                Self::put_child(lhs, 0, child);
                                Ok(b)
                            },
                            None => Err(tok_err(ErrorKind::CannotDeref(ct), &child.tok)),
                        }
                    },
                    _ => Err(tok_err(ErrorKind::MalformedTree, &lhs.tok)),
                }
            },
            NodeKind::BinaryOp => {
                if lhs.tok.kind != TokKind::Subscript || lhs.children.len() != 2 {
                    return Err(tok_err(ErrorKind::MalformedTree, &lhs.tok));
                }
                assert(lhs.children@[0]@ == n0.children[0]);
                assert(lhs.children@[1]@ == n0.children[1]);
                let mut rc = lhs.children[1].clone();
                self.typecheck_factor(&mut rc, ctx)?;
                let mut lc = lhs.children[0].clone();
                let lt = self.typecheck_factor(&mut lc, ctx)?;
                match lt.base_type() {
                    Some(b) => {
                        Self::put_child(lhs, 0, lc);
                        Self::put_child(lhs, 1, rc);
                        assert(lhs@.children =~= seq![lc@, rc@]);
                        Ok(b)
                    },
                    None => Err(tok_err(ErrorKind::CannotSubscript(lt), &lc.tok)),
                }
            },
            _ => {
                let t = self.typecheck_expr(lhs, ctx)?;
                Ok(t)
            },
        }
    }

    /// An assignment: the target's type must take the value's.
    fn typecheck_assign(&self, assign: &mut Node, ctx: &Context) -> (r: Result<(), CompileError>)
        ensures
            checked_res(r, final(assign)@, tc_assign(self.sigs(), ctx.locals_v(), old(assign)@)),
    {
        let ghost n0 = assign@;
        if assign.children.len() != 2 {
            return Err(tok_err(ErrorKind::MalformedTree, &assign.tok));
        }
        assert(assign.children@[0]@ == n0.children[0]);
        assert(assign.children@[1]@ == n0.children[1]);
        let mut lhs = assign.children[0].clone();
        let lt = self.typecheck_target(&mut lhs, ctx)?;
        let mut rhs = assign.children[1].clone();
        let rt = self.typecheck_factor(&mut rhs, ctx)?;
        if !lt.is_compatible(&rt) {
            return Err(tok_err(ErrorKind::CannotAssign(rt, lt), &assign.tok));
        }
        lhs.datatype = lt;
        Self::put_child(assign, 0, lhs);
        Self::put_child(assign, 1, rhs);
        assign.datatype = lt;
        assert(assign@.children =~= seq![lhs@, rhs@]);
        Ok(())
    }

    /// A `return`: its value must suit the result type of the function
    /// being checked.
    fn typecheck_return(&self, ret: &mut Node, ctx: &Context) -> (r: Result<(), CompileError>)
        ensures
            checked_res(r, final(ret)@, tc_return(self.sigs(), ctx.locals_v(), ctx.outer_func@.tok, old(ret)@)),
    {
        let ghost n0 = ret@;
        if ret.children.len() == 0 {
            return Err(tok_err(ErrorKind::MalformedTree, &ret.tok));
        }
        assert(ret.children@[0]@ == n0.children[0]);
        let mut rhs = ret.children[0].clone();
        let rt = self.typecheck_factor(&mut rhs, ctx)?;
        let sig = self.get_func_sig(&ctx.outer_func)?;
        if !rt.is_compatible(&sig.ret_type) {
            return Err(tok_err(ErrorKind::InvalidReturnType(sig.ret_type, rt), &ret.tok));
        }
        Self::put_child(ret, 0, rhs);
        Ok(())
    }

    /// A condition, which must be a number.
    fn typecheck_cond(&self, cond: &mut Node, ctx: &Context) -> (r: Result<(), CompileError>)
        ensures
            checked_res(r, final(cond)@, tc_cond(self.sigs(), ctx.locals_v(), old(cond)@)),
    {
        let mut c = cond.clone();
        let t = self.typecheck_factor(&mut c, ctx)?;
        if !t.is_numeric() {
            return Err(tok_err(ErrorKind::CondType(t), &cond.tok));
        }
        *cond = c;
        Ok(())
    }

    /// The step of a `for`: an assignment or a call.
    fn typecheck_post(&self, post: &mut Node, ctx: &Context) -> (r: Result<(), CompileError>)
        ensures
            checked_res(r, final(post)@, tc_post(self.sigs(), ctx.locals_v(), old(post)@)),
    {
        match post.kind {
            NodeKind::Assign => self.typecheck_assign(post, ctx),
            NodeKind::FuncCall => {
                self.typecheck_func_call(post, ctx)?;
                Ok(())
            },
            NodeKind::Syscall => {
                self.typecheck_syscall(post, ctx)?;
                Ok(())
            },
            _ => Err(tok_err(ErrorKind::MalformedTree, &post.tok)),
        }
    }

    /// A declaration: its variable comes into scope with its type.
    fn typecheck_var_decl(&self, decl: &Node, ctx: &mut Context)
        ensures
            final(ctx).locals_v() == insert_entry(old(ctx).locals_v(), decl@.tok.val, decl@.datatype),
            final(ctx).outer_func@ == old(ctx).outer_func@,
    {
        ctx.locals.insert(decl.tok.val.clone(), decl.datatype);
    }

    /// The statements of a block, in order; the variables they declare
    /// stay in scope.
    fn typecheck_block(&self, block: &mut Node, ctx: &mut Context) -> (r: Result<(), CompileError>)
        ensures
            final(ctx).outer_func@ == old(ctx).outer_func@,
            match tc_block(self.sigs(), old(ctx).locals_v(), old(ctx).outer_func@.tok, old(block)@) {
                Ok((b, l)) => r is Ok && final(block)@ == b && final(ctx).locals_v() == l,
                Err(e) => r is Err && r->Err_0@ == e,
            },
        decreases old(block)@, 3int, 0int,
    {
        let ghost b0 = block@;
        let ghost outer = ctx.outer_func@;
        let ghost goal = tc_stmts(self.sigs(), ctx.locals_v(), outer.tok, b0.children, 0, b0.children);
        let ghost whole = tc_block(self.sigs(), ctx.locals_v(), outer.tok, b0);
        let n: usize = block.children.len();
        let mut i: usize = 0;
        while i < n
            invariant
                whole == tc_block(self.sigs(), old(ctx).locals_v(), old(ctx).outer_func@.tok, old(block)@),
                whole == match goal {
                    Err(e) => Err(e),
                    Ok((cs, l)) => Ok((with_children(b0, cs), l)),
                },
                outer == old(ctx).outer_func@,
                outer == ctx.outer_func@,
                b0 == old(block)@,
                n == b0.children.len(),
                n == block.children@.len(),
                0 <= i <= n,
                block@ == with_children(b0, block@.children),
                goal == tc_stmts(self.sigs(), ctx.locals_v(), outer.tok, b0.children, i as int, block@.children),
                forall|k: int| i <= k < n ==> block@.children[k] == b0.children[k],
            decreases n - i,
        {
            assert(block@.children[i as int] == block.children@[i as int]@);
            assert(decreases_to!(b0 => b0.children[i as int]));
            let mut st = block.children[i].clone();
            match self.typecheck_stmt(&mut st, ctx) {
                Ok(()) => {},
                Err(e) => {
                    assert(goal == Err::<(Seq<NodeV>, Locals), ErrV>(e@));
                    return Err(e);
                },
            }
            Self::put_child(block, i, st);
            i = i + 1;
        }
        Ok(())
    }

    /// One statement of a block.
    #[verifier::rlimit(30)]
    fn typecheck_stmt(&self, stmt: &mut Node, ctx: &mut Context) -> (r: Result<(), CompileError>)
        ensures
            final(ctx).outer_func@ == old(ctx).outer_func@,
            match tc_stmt(self.sigs(), old(ctx).locals_v(), old(ctx).outer_func@.tok, old(stmt)@) {
                Ok((n, l)) => r is Ok && final(stmt)@ == n && final(ctx).locals_v() == l,
                Err(e) => r is Err && r->Err_0@ == e,
            },
        decreases old(stmt)@, 1int, 0int,
    {
        match stmt.kind {
            NodeKind::VarDecl => {
                self.typecheck_var_decl(stmt, ctx);
                Ok(())
            },
            NodeKind::Assign => self.typecheck_assign(stmt, ctx),
            NodeKind::FuncCall => {
                self.typecheck_func_call(stmt, ctx)?;
                Ok(())
            },
            NodeKind::Syscall => {
                self.typecheck_syscall(stmt, ctx)?;
                Ok(())
            },
            NodeKind::Conditional => self.typecheck_conditional(stmt, ctx),
            NodeKind::ForLoop => self.typecheck_for_loop(stmt, ctx),
            NodeKind::WhileLoop => self.typecheck_while_loop(stmt, ctx),
            NodeKind::Return => self.typecheck_return(stmt, ctx),
            _ => Ok(()),
        }
    }

    /// An `if`: its condition, its body, and its `else` body if it has one.
    fn typecheck_conditional(&self, cond: &mut Node, ctx: &mut Context) -> (r: Result<(), CompileError>)
        ensures
            final(ctx).outer_func@ == old(ctx).outer_func@,
            match tc_conditional(self.sigs(), old(ctx).locals_v(), old(ctx).outer_func@.tok, old(cond)@) {
                Ok((n, l)) => r is Ok && final(cond)@ == n && final(ctx).locals_v() == l,
                Err(e) => r is Err && r->Err_0@ == e,
            },
        decreases old(cond)@, 0int, 0int,
    {
        let ghost n0 = cond@;
        let len: usize = cond.children.len();
        if len < 2 {
            return Err(tok_err(ErrorKind::MalformedTree, &cond.tok));
        }
        assert(cond.children@[0]@ == n0.children[0]);
        assert(cond.children@[1]@ == n0.children[1]);
        let mut c = cond.children[0].clone();
        self.typecheck_cond(&mut c, ctx)?;
        Self::put_child(cond, 0, c);
        assert(cond@.children[1] == cond.children@[1]@);
        assert(decreases_to!(n0 => n0.children[1]));
        let mut if_body = cond.children[1].clone();
        self.typecheck_block(&mut if_body, ctx)?;
        Self::put_child(cond, 1, if_body);
        if len > 2 {
            assert(cond@.children[2] == cond.children@[2]@);
            assert(decreases_to!(n0 => n0.children[2]));
            let mut else_body = cond.children[2].clone();
            self.typecheck_block(&mut else_body, ctx)?;
            Self::put_child(cond, 2, else_body);
        }
        Ok(())
    }

    /// A `for`: its declaration, assignment, condition and step where they
    /// are there, then its body.
    /// The head of a `for`: its declaration, assignment, condition and
    /// step, each where it is there.
    fn typecheck_for_head(&self, for_loop: &mut Node, ctx: &mut Context) -> (r: Result<(), CompileError>)
        requires
            old(for_loop).children@.len() >= 5,
        ensures
            final(ctx).outer_func@ == old(ctx).outer_func@,
            final(for_loop).children@.len() == old(for_loop).children@.len(),
            match tc_for_head(self.sigs(), old(ctx).locals_v(), old(for_loop)@) {
                Ok((n, l)) => r is Ok && final(for_loop)@ == n && final(ctx).locals_v() == l,
                Err(e) => r is Err && r->Err_0@ == e,
            },
    {
        let ghost n0 = for_loop@;
        assert(for_loop.children@[0]@ == n0.children[0]);
        assert(for_loop.children@[1]@ == n0.children[1]);
        assert(for_loop.children@[2]@ == n0.children[2]);
        assert(for_loop.children@[3]@ == n0.children[3]);
        if !for_loop.children[0].is_null() {
            self.typecheck_var_decl(&for_loop.children[0], ctx);
        }
        let mut init = for_loop.children[1].clone();
        if !init.is_null() {
            self.typecheck_assign(&mut init, ctx)?;
        }
        Self::put_child(for_loop, 1, init);
        assert(for_loop@.children[2] == for_loop.children@[2]@);
        let mut cond = for_loop.children[2].clone();
        if !cond.is_null() {
            self.typecheck_cond(&mut cond, ctx)?;
        }
        Self::put_child(for_loop, 2, cond);
        assert(for_loop@.children[3] == for_loop.children@[3]@);
        let mut post = for_loop.children[3].clone();
        if !post.is_null() {
            self.typecheck_post(&mut post, ctx)?;
        }
        Self::put_child(for_loop, 3, post);
        Ok(())
    }

    /// A `for`: its head, then its body.
    fn typecheck_for_loop(&self, for_loop: &mut Node, ctx: &mut Context) -> (r: Result<(), CompileError>)
        ensures
            final(ctx).outer_func@ == old(ctx).outer_func@,
            match tc_for(self.sigs(), old(ctx).locals_v(), old(ctx).outer_func@.tok, old(for_loop)@) {
                Ok((n, l)) => r is Ok && final(for_loop)@ == n && final(ctx).locals_v() == l,
                Err(e) => r is Err && r->Err_0@ == e,
            },
        decreases old(for_loop)@, 0int, 0int,
    {
        let ghost n0 = for_loop@;
        if for_loop.children.len() < 5 {
            return Err(tok_err(ErrorKind::MalformedTree, &for_loop.tok));
        }
        self.typecheck_for_head(for_loop, ctx)?;
        assert(for_loop@.children[4] == for_loop.children@[4]@);
        assert(decreases_to!(n0 => n0.children[4]));
        let mut body = for_loop.children[4].clone();
        self.typecheck_block(&mut body, ctx)?;
        Self::put_child(for_loop, 4, body);
        Ok(())
    }

    /// A `while`: its condition, unless it is null, then its body.
    fn typecheck_while_loop(&self, while_loop: &mut Node, ctx: &mut Context) -> (r: Result<(), CompileError>)
        ensures
            final(ctx).outer_func@ == old(ctx).outer_func@,
            match tc_while(self.sigs(), old(ctx).locals_v(), old(ctx).outer_func@.tok, old(while_loop)@) {
                Ok((n, l)) => r is Ok && final(while_loop)@ == n && final(ctx).locals_v() == l,
                Err(e) => r is Err && r->Err_0@ == e,
            },
        decreases old(while_loop)@, 0int, 0int,
    {
        let ghost n0 = while_loop@;
        if while_loop.children.len() != 2 {
            return Err(tok_err(ErrorKind::MalformedTree, &while_loop.tok));
        }
        assert(while_loop.children@[0]@ == n0.children[0]);
        assert(while_loop.children@[1]@ == n0.children[1]);
        let mut cond = while_loop.children[0].clone();
        if !cond.is_null() {
            self.typecheck_cond(&mut cond, ctx)?;
        }
        Self::put_child(while_loop, 0, cond);
        assert(while_loop@.children[1] == while_loop.children@[1]@);
        assert(decreases_to!(n0 => n0.children[1]));
        let mut body = while_loop.children[1].clone();
        self.typecheck_block(&mut body, ctx)?;
        Self::put_child(while_loop, 1, body);
        Ok(())
    }

    /// A function: its body checked with its parameters in scope.
    fn typecheck_func_decl(&self, func_decl: &mut Node) -> (r: Result<(), CompileError>)
        ensures
            checked_res(r, final(func_decl)@, tc_func_decl(self.sigs(), old(func_decl)@)),
    {
        let ghost n0 = func_decl@;
        if func_decl.children.len() == 0 {
            return Err(tok_err(ErrorKind::MissingSignature, &func_decl.tok));
        }
        let mut ctx = Context { locals: NameMap::new(), outer_func: func_decl.clone() };
        let args = &func_decl.children[0];
        let ghost params = n0.children[0].children;
        assert(args@ == n0.children[0]);
        let mut i: usize = 0;
        while i < args.children.len()
            invariant
                params == args@.children,
                params.len() == args.children@.len(),
                0 <= i <= params.len(),
                params_scope(params, 0, seq![]) == params_scope(params, i as int, ctx.locals_v()),
                ctx.outer_func@ == n0,
            decreases params.len() - i,
        {
            assert(params[i as int] == args.children@[i as int]@);
            ctx.locals.insert(args.children[i].tok.val.clone(), args.children[i].datatype);
            i = i + 1;
        }
        if func_decl.children.len() == 1 {
            return Ok(());
        }
        assert(func_decl.children@[1]@ == n0.children[1]);
        let mut body = func_decl.children[1].clone();
        self.typecheck_block(&mut body, &mut ctx)?;
        Self::put_child(func_decl, 1, body);
        Ok(())
    }

    /// The signature that a function declaration gives.
    fn signature_of(func_decl: &Node) -> (r: FunctionSignature)
        requires
            func_decl.children@.len() > 0,
        ensures
            r@ == sig_of(func_decl@),
    {
        let args = &func_decl.children[0];
        let mut arg_types: Vec<Datatype> = Vec::new();
        let mut i: usize = 0;
        while i < args.children.len()
            invariant
                0 <= i <= args.children@.len(),
                arg_types@.len() == i,
                forall|k: int| 0 <= k < i ==> arg_types@[k] == args.children@[k].datatype,
            decreases args.children@.len() - i,
        {
            arg_types.push(args.children[i].datatype);
            i = i + 1;
        }
        let r = FunctionSignature { ret_type: func_decl.datatype, arg_types };
        assert(func_decl@.children[0] == args@);
        assert(forall|k: int| 0 <= k < i ==> args@.children[k] == args.children@[k]@);
        assert(r@.args =~= sig_of(func_decl@).args);
        r
    }

    /// Checks a program: records the signatures of all its functions, then
    /// checks the body of each, filling in the types of its nodes.
    #[verifier::rlimit(40)]
    pub fn typecheck_ast(&mut self, ast: &mut AST) -> (r: Result<(), CompileError>)
        ensures
            final(self).sigs() == collect_sigs(old(ast).root@.children, 0, old(self).sigs()),
            match tc_top(final(self).sigs(), old(ast).root@.children, 0, old(ast).root@.children) {
                Ok(cs) => r is Ok && final(ast).root@ == with_children(old(ast).root@, cs),
                Err(e) => r is Err && r->Err_0@ == e,
            },
    {
        let ghost top = ast.root@.children;
        let n: usize = ast.root.children.len();
        let mut i: usize = 0;
        while i < n
            invariant
                top == ast.root@.children,
                n == top.len(),
                n == ast.root.children@.len(),
                0 <= i <= n,
                collect_sigs(top, 0, old(self).sigs()) == collect_sigs(top, i as int, self.sigs()),
            decreases n - i,
        {
            let f = &ast.root.children[i];
            assert(top[i as int] == f@);
            if f.kind == NodeKind::FuncDecl && f.children.len() > 0 {
                let sig = Self::signature_of(f);
                self.funcs.insert(f.tok.val.clone(), sig);
            }
            i = i + 1;
        }
        let ghost root0 = ast.root@;
        let ghost goal = tc_top(self.sigs(), top, 0, top);
        let mut i: usize = 0;
        while i < n
            invariant
                goal == tc_top(self.sigs(), old(ast).root@.children, 0, old(ast).root@.children),
                self.sigs() == collect_sigs(old(ast).root@.children, 0, old(self).sigs()),
                root0 == old(ast).root@,
                top == root0.children,
                n == top.len(),
                n == ast.root.children@.len(),
                0 <= i <= n,
                ast.root@ == with_children(root0, ast.root@.children),
                goal == tc_top(self.sigs(), top, i as int, ast.root@.children),
                forall|k: int| i <= k < n ==> ast.root@.children[k] == top[k],
            decreases n - i,
        {
            assert(ast.root@.children[i as int] == ast.root.children@[i as int]@);
            if ast.root.children[i].kind == NodeKind::FuncDecl {
                let mut f = ast.root.children[i].clone();
                match self.typecheck_func_decl(&mut f) {
                    Ok(()) => {},
                    Err(e) => {
                        assert(goal == Err::<Seq<NodeV>, ErrV>(e@));
                        return Err(e);
                    },
                }
                Self::put_child(&mut ast.root, i, f);
            }
            i = i + 1;
        }
        Ok(())
    }
}

} // verus!
