use vstd::prelude::*;

use crate::error::{res_view, CompileError, ErrV, ErrorKind};
use crate::grammar::{
    assign, bin_v, block, call_args, decl_args, expect, expr, factor, for_cond, for_init, for_post, for_stmt,
    func_call, func_decl, ident, if_stmt, moved, ops_at, peek, program, scoped, statement, stall, subscript_tok,
    syscall, tail, then_end, var_decl, var_v, while_stmt, return_stmt, name_stmt, decl_stmt, PNode, PNodes, TokSrc,
};
use crate::lex::{end_error, is_type_kind, take_kind, take_type, tok_error, toks_view, Lexer, Pos, PosV, Tok, TokKind, TokV};
use crate::types::{datatype_of, Datatype};

verus! {

broadcast use vstd::std_specs::vec::group_vec_axioms;

/// The kinds of node of a parse tree.
#[derive(Debug, PartialEq, Eq, Structural, Clone, Copy)]
pub enum NodeKind {
    Null,
    Group,
    Include,
    Var,
    LiteralInt,
    LiteralString,
    LiteralChar,
    FuncCall,
    Syscall,
    FuncDecl,
    VarDecl,
    Assign,
    Conditional,
    ForLoop,
    WhileLoop,
    Return,
    Continue,
    Break,
    BinaryOp,
    UnaryOp,
}

/// A node of a parse tree.
#[derive(Debug)]
pub struct Node {
    pub kind: NodeKind,
    pub datatype: Datatype,
    pub tok: Tok,
    pub children: Vec<Node>,
}

/// The mathematical value of a `Node`.
pub struct NodeV {
    pub kind: NodeKind,
    pub datatype: Datatype,
    pub tok: TokV,
    pub children: Seq<NodeV>,
}

/// The value of a node.
pub open spec fn node_view(n: Node) -> NodeV
    decreases n,
{
    NodeV { kind: n.kind, datatype: n.datatype, tok: n.tok@, children: nodes_view(n.children@) }
}

/// The values of a sequence of nodes.
pub open spec fn nodes_view(s: Seq<Node>) -> Seq<NodeV>
    decreases s,
{
    Seq::new(
        s.len(),
        |i: int|
            if 0 <= i < s.len() {
                node_view(s[i])
            } else {
                NodeV { kind: NodeKind::Null, datatype: Datatype::NoType, tok: s[0].tok@, children: seq![] }
            },
    )
}

impl View for Node {
    type V = NodeV;

    open spec fn view(&self) -> NodeV {
        node_view(*self)
    }
}

/// The nodes of a tree, children before parents, left to right.
pub open spec fn post_order_v(n: NodeV) -> Seq<NodeV>
    decreases n,
{
    post_order_all(n.children) + seq![n]
}

/// The nodes of a sequence of trees, children before parents, left to right.
pub open spec fn post_order_all(cs: Seq<NodeV>) -> Seq<NodeV>
    decreases cs,
{
    if cs.len() == 0 {
        Seq::<NodeV>::empty()
    } else {
        post_order_all(cs.drop_last()) + post_order_v(cs.last())
    }
}

/// The nodes of a tree, parents before children, left to right.
pub open spec fn in_order_v(n: NodeV) -> Seq<NodeV>
    decreases n,
{
    seq![n] + in_order_all(n.children)
}

/// The nodes of a sequence of trees, parents before children, left to right.
pub open spec fn in_order_all(cs: Seq<NodeV>) -> Seq<NodeV>
    decreases cs,
{
    if cs.len() == 0 {
        Seq::<NodeV>::empty()
    } else {
        in_order_all(cs.drop_last()) + in_order_v(cs.last())
    }
}

/// The two walks of a tree visit the same number of nodes; the walk
/// that puts parents first starts at the root, and the walk that puts
/// children first ends at it.
pub proof fn law_walks_agree(n: NodeV)
    ensures
        in_order_v(n).len() == post_order_v(n).len(),
        in_order_v(n)[0] == n,
        post_order_v(n).last() == n,
    decreases n,
{
    lemma_walks_all(n.children);
}

/// The two walks of a sequence of trees visit the same number of nodes.
proof fn lemma_walks_all(cs: Seq<NodeV>)
    ensures
        in_order_all(cs).len() == post_order_all(cs).len(),
    decreases cs,
{
    if cs.len() > 0 {
        lemma_walks_all(cs.drop_last());
        law_walks_agree(cs.last());
    }
}

/// Whether each node of a walk comes right after the walk of its own
/// subtree, children before parents: its descendants all come before it.
pub open spec fn follows_descendants(p: Seq<NodeV>) -> bool {
    forall|i: int|
        0 <= i < p.len() ==> {
            let d = #[trigger] post_order_v(p[i]);
            &&& d.len() <= i + 1
            &&& p.subrange(i + 1 - d.len(), i + 1) == d
        }
}

proof fn lemma_follows_concat(a: Seq<NodeV>, b: Seq<NodeV>)
    requires
        follows_descendants(a),
        follows_descendants(b),
    ensures
        follows_descendants(a + b),
{
    let p = a + b;
    assert forall|i: int| 0 <= i < p.len() implies {
        let d = #[trigger] post_order_v(p[i]);
        &&& d.len() <= i + 1
        &&& p.subrange(i + 1 - d.len(), i + 1) == d
    } by {
        if i < a.len() {
            assert(p[i] == a[i]);
            let d = post_order_v(a[i]);
            assert(p.subrange(i + 1 - d.len(), i + 1) =~= a.subrange(i + 1 - d.len(), i + 1));
        } else {
            let j = i - a.len();
            assert(p[i] == b[j]);
            let d = post_order_v(b[j]);
            assert(post_order_v(b[j]).len() <= j + 1);
            assert(p.subrange(i + 1 - d.len(), i + 1) =~= b.subrange(j + 1 - d.len(), j + 1));
        }
    }
}

/// The walk that puts children first puts every node after all its
/// descendants: each node comes right after the walk of its subtree.
pub proof fn law_post_order_descendants_first(n: NodeV)
    ensures
        follows_descendants(post_order_v(n)),
    decreases n,
{
    lemma_post_all_follows(n.children);
    let a = post_order_all(n.children);
    let p = post_order_v(n);
    assert forall|i: int| 0 <= i < p.len() implies {
        let d = #[trigger] post_order_v(p[i]);
        &&& d.len() <= i + 1
        &&& p.subrange(i + 1 - d.len(), i + 1) == d
    } by {
        if i < a.len() {
            assert(p[i] == a[i]);
            let d = post_order_v(a[i]);
            assert(p.subrange(i + 1 - d.len(), i + 1) =~= a.subrange(i + 1 - d.len(), i + 1));
        } else {
            assert(p[i] == n);
            assert(p.subrange(0, p.len() as int) =~= p);
        }
    }
}

proof fn lemma_post_all_follows(cs: Seq<NodeV>)
    ensures
        follows_descendants(post_order_all(cs)),
    decreases cs,
{
    if cs.len() > 0 {
        lemma_post_all_follows(cs.drop_last());
        law_post_order_descendants_first(cs.last());
        lemma_follows_concat(post_order_all(cs.drop_last()), post_order_v(cs.last()));
    }
}

/// The two walks of a tree visit the same nodes, each as often: one is a
/// reordering of the other.
pub proof fn law_walks_same_nodes(n: NodeV)
    ensures
        in_order_v(n).to_multiset() == post_order_v(n).to_multiset(),
    decreases n,
{
    broadcast use vstd::seq_lib::lemma_multiset_commutative;

    lemma_walks_all_same_nodes(n.children);
    assert(in_order_v(n).to_multiset() =~= seq![n].to_multiset().add(in_order_all(n.children).to_multiset()));
    assert(post_order_v(n).to_multiset() =~= post_order_all(n.children).to_multiset().add(seq![n].to_multiset()));
}

proof fn lemma_walks_all_same_nodes(cs: Seq<NodeV>)
    ensures
        in_order_all(cs).to_multiset() == post_order_all(cs).to_multiset(),
    decreases cs,
{
    broadcast use vstd::seq_lib::lemma_multiset_commutative;

    if cs.len() > 0 {
        lemma_walks_all_same_nodes(cs.drop_last());
        law_walks_same_nodes(cs.last());
        assert(in_order_all(cs).to_multiset() =~= in_order_all(cs.drop_last()).to_multiset().add(
            in_order_v(cs.last()).to_multiset(),
        ));
        assert(post_order_all(cs).to_multiset() =~= post_order_all(cs.drop_last()).to_multiset().add(
            post_order_v(cs.last()).to_multiset(),
        ));
    }
}

/// Taking values commutes with appending a node.
pub proof fn lemma_nodes_view_push(s: Seq<Node>, x: Node)
    ensures
        nodes_view(s.push(x)) == nodes_view(s).push(node_view(x)),
{
    assert(nodes_view(s.push(x)) =~= nodes_view(s).push(node_view(x)));
}

/// Taking values commutes with replacing a node.
pub proof fn lemma_nodes_view_update(s: Seq<Node>, i: int, x: Node)
    requires
        0 <= i < s.len(),
    ensures
        nodes_view(s.update(i, x)) == nodes_view(s).update(i, node_view(x)),
{
    assert(nodes_view(s.update(i, x)) =~= nodes_view(s).update(i, node_view(x)));
}

/// Taking values commutes with concatenation.
pub proof fn lemma_nodes_view_add(s: Seq<Node>, t: Seq<Node>)
    ensures
        nodes_view(s + t) == nodes_view(s) + nodes_view(t),
{
    assert(nodes_view(s + t) =~= nodes_view(s) + nodes_view(t));
}

fn clone_nodes(cs: &Vec<Node>) -> (r: Vec<Node>)
    ensures
        nodes_view(r@) == nodes_view(cs@),
    decreases cs@, 0nat,
{
    let mut res: Vec<Node> = Vec::new();
    let mut i: usize = 0;
    while i < cs.len()
        invariant
            0 <= i <= cs@.len(),
            nodes_view(res@) == nodes_view(cs@).take(i as int),
        decreases cs@.len() - i,
    {
        let c = clone_node(&cs[i]);
        proof {
            lemma_nodes_view_push(res@, c);
        }
        res.push(c);
        i = i + 1;
        assert(nodes_view(res@) =~= nodes_view(cs@).take(i as int));
    }
    assert(nodes_view(cs@).take(i as int) =~= nodes_view(cs@));
    res
}

fn clone_node(n: &Node) -> (r: Node)
    ensures
        r@ == n@,
    decreases n, 0nat,
{
    Node { kind: n.kind, datatype: n.datatype, tok: n.tok.clone(), children: clone_nodes(&n.children) }
}

impl Clone for Node {
    fn clone(&self) -> (r: Self)
        ensures
            r@ == self@,
    {
        clone_node(self)
    }
}


/// A node with the given parts.
pub open spec fn nv(kind: NodeKind, datatype: Datatype, tok: TokV, children: Seq<NodeV>) -> NodeV {
    NodeV { kind, datatype, tok, children }
}

/// The token that stands for nothing at no position.
pub open spec fn null_tok_v() -> TokV {
    TokV { kind: TokKind::Blank, val: Seq::<u8>::empty(), pos: PosV { row: u32::MAX, col: u32::MAX, file: "NULL"@ } }
}

/// A group of nodes, at the position of its first node.
pub open spec fn group_v(nodes: Seq<NodeV>) -> NodeV {
    let tok = if nodes.len() > 0 {
        TokV { kind: TokKind::Blank, val: Seq::<u8>::empty(), pos: nodes[0].tok.pos }
    } else {
        null_tok_v()
    };
    nv(NodeKind::Group, Datatype::NoType, tok, nodes)
}

/// The node that stands for nothing.
pub open spec fn null_v() -> NodeV {
    nv(NodeKind::Null, Datatype::NoType, null_tok_v(), seq![])
}

/// The literal `0`, which a declaration without a value is given.
pub open spec fn zero_literal_v() -> NodeV {
    nv(NodeKind::LiteralInt, Datatype::I64, TokV { val: seq![48u8], ..null_tok_v() }, seq![])
}

impl Node {
    /// Whether two trees are the same, node for node.
    pub fn same(&self, other: &Node) -> (r: bool)
        ensures
            r == (self@ == other@),
        decreases self@,
    {
        let ghost a = self@;
        let ghost b = other@;
        assert(a.children.len() == self.children@.len());
        assert(b.children.len() == other.children@.len());
        if self.kind != other.kind || self.datatype != other.datatype || !self.tok.same(&other.tok)
            || self.children.len() != other.children.len() {
            return false;
        }
        let mut i: usize = 0;
        while i < self.children.len()
            invariant
                a == self@,
                b == other@,
                a.children.len() == self.children@.len(),
                b.children.len() == other.children@.len(),
                self.children@.len() == other.children@.len(),
                0 <= i <= self.children@.len(),
                forall|k: int| 0 <= k < i ==> a.children[k] == b.children[k],
            decreases self.children@.len() - i,
        {
            assert(a.children[i as int] == self.children@[i as int]@);
            assert(b.children[i as int] == other.children@[i as int]@);
            assert(decreases_to!(a => a.children[i as int]));
            if !self.children[i].same(&other.children[i]) {
                assert(a.children[i as int] != b.children[i as int]);
                return false;
            }
            i = i + 1;
        }
        assert(a.children =~= b.children);
        true
    }

    pub fn is_null(&self) -> (r: bool)
        ensures
            r == (self.kind == NodeKind::Null),
    {
        self.kind == NodeKind::Null
    }

    /// The nodes of the tree, parents before children, left to right.
    pub fn in_order(&self) -> (r: Vec<Node>)
        ensures
            nodes_view(r@) == in_order_v(self@),
        decreases self,
    {
        let mut res: Vec<Node> = Vec::new();
        let me = self.clone();
        proof {
            lemma_nodes_view_push(res@, me);
        }
        res.push(me);
        assert(nodes_view(res@) =~= seq![self@]);
        let mut i: usize = 0;
        while i < self.children.len()
            invariant
                0 <= i <= self.children@.len(),
                nodes_view(res@) == seq![self@] + in_order_all(self@.children.take(i as int)),
            decreases self.children@.len() - i,
        {
            let mut sub = self.children[i].in_order();
            proof {
                lemma_nodes_view_add(res@, sub@);
                assert(self@.children.take(i as int + 1).drop_last() =~= self@.children.take(i as int));
                assert(self@.children[i as int] == self.children@[i as int]@);
            }
            res.append(&mut sub);
            i = i + 1;
        }
        assert(self@.children.take(i as int) =~= self@.children);
        res
    }

    /// The nodes of the tree, children before parents, left to right.
    pub fn post_order(&self) -> (r: Vec<Node>)
        ensures
            nodes_view(r@) == post_order_v(self@),
        decreases self,
    {
        let mut res: Vec<Node> = Vec::new();
        assert(nodes_view(res@) =~= Seq::<NodeV>::empty());
        let mut i: usize = 0;
        while i < self.children.len()
            invariant
                0 <= i <= self.children@.len(),
                nodes_view(res@) == post_order_all(self@.children.take(i as int)),
            decreases self.children@.len() - i,
        {
            let mut sub = self.children[i].post_order();
            proof {
                lemma_nodes_view_add(res@, sub@);
                assert(self@.children.take(i as int + 1).drop_last() =~= self@.children.take(i as int));
                assert(self@.children[i as int] == self.children@[i as int]@);
            }
            res.append(&mut sub);
            i = i + 1;
        }
        assert(self@.children.take(i as int) =~= self@.children);
        let me = self.clone();
        proof {
            lemma_nodes_view_push(res@, me);
        }
        res.push(me);
        res
    }

    /// The nodes below this one, children before parents, left to right.
    pub fn exclusive_post_order(&self) -> (r: Vec<Node>)
        ensures
            nodes_view(r@) == post_order_v(self@).drop_last(),
    {
        let mut res = self.post_order();
        let ghost all = res@;
        assert(nodes_view(res@).len() == res@.len());
        assert(post_order_v(self@).len() > 0);
        let _ = res.pop();
        assert(res@ =~= all.drop_last());
        assert(nodes_view(res@) =~= nodes_view(all).drop_last());
        res
    }

    fn zero_literal() -> (r: Self)
        ensures
            r@ == zero_literal_v(),
    {
        let mut tok: Tok = Tok::null();
        tok.val = vec![48u8];
        let children: Vec<Node> = Vec::new();
        let r = Node { kind: NodeKind::LiteralInt, datatype: Datatype::I64, tok, children };
        assert(r@.tok.val =~= seq![48u8]);
        assert(r@.children =~= Seq::<NodeV>::empty());
        r
    }

    fn leaf(kind: NodeKind, datatype: Datatype, tok: Tok) -> (r: Self)
        ensures
            r@ == nv(kind, datatype, tok@, seq![]),
    {
        let children: Vec<Node> = Vec::new();
        let r = Node { kind, datatype, tok, children };
        assert(r@.children =~= Seq::<NodeV>::empty());
        r
    }

    fn with_children(kind: NodeKind, datatype: Datatype, tok: Tok, children: Vec<Node>) -> (r: Self)
        ensures
            r@ == nv(kind, datatype, tok@, nodes_view(children@)),
    {
        Node { kind, datatype, tok, children }
    }

    fn null() -> (r: Self)
        ensures
            r@ == null_v(),
    {
        Self::leaf(NodeKind::Null, Datatype::NoType, Tok::null())
    }

    fn group(nodes: Vec<Node>) -> (r: Self)
        ensures
            r@ == group_v(nodes_view(nodes@)),
    {
        let tok: Tok = if nodes.len() > 0 {
            Tok::null_at(nodes[0].tok.pos.clone())
        } else {
            Tok::null()
        };
        Self::with_children(NodeKind::Group, Datatype::NoType, tok, nodes)
    }

    fn literal_int(tok: Tok) -> (r: Self)
        ensures
            r@ == nv(NodeKind::LiteralInt, Datatype::I64, tok@, seq![]),
    {
        Self::leaf(NodeKind::LiteralInt, Datatype::I64, tok)
    }

    fn literal_string(tok: Tok) -> (r: Self)
        ensures
            r@ == nv(NodeKind::LiteralString, Datatype::ChrPtr, tok@, seq![]),
    {
        Self::leaf(NodeKind::LiteralString, Datatype::ChrPtr, tok)
    }

    fn literal_char(tok: Tok) -> (r: Self)
        ensures
            r@ == nv(NodeKind::LiteralChar, Datatype::Chr, tok@, seq![]),
    {
        Self::leaf(NodeKind::LiteralChar, Datatype::Chr, tok)
    }

    fn include_of(tok: Tok, rhs: Node) -> (r: Self)
        ensures
            r@ == nv(NodeKind::Include, Datatype::NoType, tok@, seq![rhs@]),
    {
        let r = Self::with_children(NodeKind::Include, Datatype::NoType, tok, vec![rhs]);
        assert(r@.children =~= seq![rhs@]);
        r
    }

    fn continuee(tok: Tok) -> (r: Self)
        ensures
            r@ == nv(NodeKind::Continue, Datatype::NoType, tok@, seq![]),
    {
        Self::leaf(NodeKind::Continue, Datatype::NoType, tok)
    }

    fn breakk(tok: Tok) -> (r: Self)
        ensures
            r@ == nv(NodeKind::Break, Datatype::NoType, tok@, seq![]),
    {
        Self::leaf(NodeKind::Break, Datatype::NoType, tok)
    }

    fn returnn(tok: Tok, rhs: Node) -> (r: Self)
        ensures
            r@ == nv(NodeKind::Return, Datatype::Unknown, tok@, seq![rhs@]),
    {
        let r = Self::with_children(NodeKind::Return, Datatype::Unknown, tok, vec![rhs]);
        assert(r@.children =~= seq![rhs@]);
        r
    }

    fn var_decl(datatype: Datatype, ident: Tok) -> (r: Self)
        ensures
            r@ == nv(NodeKind::VarDecl, datatype, ident@, seq![]),
    {
        Self::leaf(NodeKind::VarDecl, datatype, ident)
    }

    fn var(ident: Tok) -> (r: Self)
        ensures
            r@ == nv(NodeKind::Var, Datatype::Unknown, ident@, seq![]),
    {
        Self::leaf(NodeKind::Var, Datatype::Unknown, ident)
    }

    fn func_decl(datatype: Datatype, ident: Tok, args: Vec<Node>, body: Vec<Node>) -> (r: Self)
        ensures
            r@ == nv(
                NodeKind::FuncDecl,
                datatype,
                ident@,
                seq![group_v(nodes_view(args@)), group_v(nodes_view(body@))],
            ),
    {
        let a = Self::group(args);
        let b = Self::group(body);
        let r = Self::with_children(NodeKind::FuncDecl, datatype, ident, vec![a, b]);
        assert(r@.children =~= seq![a@, b@]);
        r
    }

    fn syscall(ident: Tok, args: Vec<Node>) -> (r: Self)
        ensures
            r@ == nv(NodeKind::Syscall, Datatype::I64, ident@, nodes_view(args@)),
    {
        Self::with_children(NodeKind::Syscall, Datatype::I64, ident, args)
    }

    fn func_call(ident: Tok, args: Vec<Node>) -> (r: Self)
        ensures
            r@ == nv(NodeKind::FuncCall, Datatype::Unknown, ident@, nodes_view(args@)),
    {
        Self::with_children(NodeKind::FuncCall, Datatype::Unknown, ident, args)
    }

    fn bin_op(operator: Tok, lhs: Node, rhs: Node) -> (r: Self)
        ensures
            r@ == nv(NodeKind::BinaryOp, Datatype::NoType, operator@, seq![lhs@, rhs@]),
    {
        let r = Self::with_children(NodeKind::BinaryOp, Datatype::NoType, operator, vec![lhs, rhs]);
        assert(r@.children =~= seq![lhs@, rhs@]);
        r
    }

    fn un_op(operator: Tok, rhs: Node) -> (r: Self)
        ensures
            r@ == nv(NodeKind::UnaryOp, Datatype::NoType, operator@, seq![rhs@]),
    {
        let r = Self::with_children(NodeKind::UnaryOp, Datatype::NoType, operator, vec![rhs]);
        assert(r@.children =~= seq![rhs@]);
        r
    }

    fn assign(operator: Tok, lhs: Node, rhs: Node) -> (r: Self)
        ensures
            r@ == nv(NodeKind::Assign, Datatype::NoType, operator@, seq![lhs@, rhs@]),
    {
        let r = Self::with_children(NodeKind::Assign, Datatype::NoType, operator, vec![lhs, rhs]);
        assert(r@.children =~= seq![lhs@, rhs@]);
        r
    }

    fn conditional(ident: Tok, cond: Node, if_body: Vec<Node>, else_body: Vec<Node>) -> (r: Self)
        ensures
            r@ == nv(
                NodeKind::Conditional,
                Datatype::NoType,
                ident@,
                if else_body@.len() == 0 {
                    seq![cond@, group_v(nodes_view(if_body@))]
                } else {
                    seq![cond@, group_v(nodes_view(if_body@)), group_v(nodes_view(else_body@))]
                },
            ),
    {
        let ib = Self::group(if_body);
        let mut children: Vec<Node> = vec![cond, ib];
        assert(nodes_view(children@) =~= seq![cond@, ib@]);
        if else_body.len() > 0 {
            let eb = Self::group(else_body);
            proof {
                lemma_nodes_view_push(children@, eb);
            }
            children.push(eb);
            assert(nodes_view(children@) =~= seq![cond@, ib@, eb@]);
        }
        Self::with_children(NodeKind::Conditional, Datatype::NoType, ident, children)
    }

    fn forr(
        ident: Tok,
        decl: Option<Node>,
        init: Option<Node>,
        cond: Option<Node>,
        post: Option<Node>,
        body: Vec<Node>,
    ) -> (r: Self)
        ensures
            r@ == nv(
                NodeKind::ForLoop,
                Datatype::NoType,
                ident@,
                seq![
                    or_null(opt_view(decl)),
                    or_null(opt_view(init)),
                    or_null(opt_view(cond)),
                    or_null(opt_view(post)),
                    group_v(nodes_view(body@)),
                ],
            ),
    {
        let d = match decl {
            Some(n) => n,
            None => Self::null(),
        };
        let i = match init {
            Some(n) => n,
            None => Self::null(),
        };
        let c = match cond {
            Some(n) => n,
            None => Self::null(),
        };
        let p = match post {
            Some(n) => n,
            None => Self::null(),
        };
        let b = Self::group(body);
        let r = Self::with_children(NodeKind::ForLoop, Datatype::NoType, ident, vec![d, i, c, p, b]);
        assert(r@.children =~= seq![d@, i@, c@, p@, b@]);
        r
    }

    fn whilee(ident: Tok, cond: Node, body: Vec<Node>) -> (r: Self)
        ensures
            r@ == nv(NodeKind::WhileLoop, Datatype::NoType, ident@, seq![cond@, group_v(nodes_view(body@))]),
    {
        let b = Self::group(body);
        let r = Self::with_children(NodeKind::WhileLoop, Datatype::NoType, ident, vec![cond, b]);
        assert(r@.children =~= seq![cond@, b@]);
        r
    }
}

/// The value of an optional node.
pub open spec fn opt_view(n: Option<Node>) -> Option<NodeV> {
    match n {
        Some(x) => Some(x@),
        None => None,
    }
}

/// A node, or the null node in its place.
pub open spec fn or_null(n: Option<NodeV>) -> NodeV {
    match n {
        Some(x) => x,
        None => null_v(),
    }
}

/// The first node of a sequence that carries the given token.
pub open spec fn first_with_tok(nodes: Seq<NodeV>, t: TokV) -> Option<NodeV>
    decreases nodes.len(),
{
    if nodes.len() == 0 {
        None
    } else if nodes[0].tok == t {
        Some(nodes[0])
    } else {
        first_with_tok(nodes.drop_first(), t)
    }
}

/// The levels of binary operators, loosest first; a factor binds
/// tightest of all.
#[derive(Debug, PartialEq, Eq, Structural, Clone, Copy)]
pub enum Precedence {
    Union,
    Intersection,
    Equality,
    Relational,
    Additive,
    Term,
    Factor,
}

impl Precedence {
    /// The number of a level, counted from the loosest.
    pub open spec fn number(self) -> int {
        match self {
            Precedence::Union => 0,
            Precedence::Intersection => 1,
            Precedence::Equality => 2,
            Precedence::Relational => 3,
            Precedence::Additive => 4,
            Precedence::Term => 5,
            Precedence::Factor => 6,
        }
    }

    /// The number of a level, counted from the loosest.
    pub fn level(&self) -> (r: usize)
        ensures
            r == self.number(),
    {
        match self {
            Precedence::Union => 0,
            Precedence::Intersection => 1,
            Precedence::Equality => 2,
            Precedence::Relational => 3,
            Precedence::Additive => 4,
            Precedence::Term => 5,
            Precedence::Factor => 6,
        }
    }
}

/// A parse tree: a group of top-level functions and includes.
pub struct AST {
    pub root: Node,
}

impl AST {
    pub fn new() -> (r: Self)
        ensures
            r.root@ == group_v(seq![]),
    {
        let v: Vec<Node> = Vec::new();
        let root = Node::group(v);
        assert(nodes_view(v@) =~= Seq::<NodeV>::empty());
        AST { root }
    }
}

impl Default for AST {
    fn default() -> (r: Self)
        ensures
            r.root@ == group_v(seq![]),
    {
        Self::new()
    }
}

impl AST {

    /// The nodes of the tree, children before parents.
    pub fn post_order(&self) -> (r: Vec<Node>)
        ensures
            nodes_view(r@) == post_order_v(self.root@),
    {
        self.root.post_order()
    }

    /// The first node in post order that carries the given token.
    pub fn find_node(&self, ident: &Tok) -> (r: Result<Node, CompileError>)
        ensures
            res_view(r) == match first_with_tok(post_order_v(self.root@), ident@) {
                Some(n) => Ok(n),
                None => Err(ErrV { kind: ErrorKind::NodeNotFound, pos: ident@.pos, text: ident@.val }),
            },
    {
        let nodes = self.root.post_order();
        let ghost all = nodes_view(nodes@);
        let mut i: usize = 0;
        assert(all.skip(0) =~= all);
        while i < nodes.len()
            invariant
                0 <= i <= nodes@.len(),
                all == nodes_view(nodes@),
                all == post_order_v(self.root@),
                first_with_tok(all.skip(i as int), ident@) == first_with_tok(all, ident@),
            decreases nodes@.len() - i,
        {
            proof {
                assert(all.skip(i as int).drop_first() =~= all.skip(i as int + 1));
                assert(all.skip(i as int)[0] == nodes@[i as int]@);
            }
            if nodes[i].tok.same(ident) {
                let found = nodes[i].clone();
                assert(all.skip(i as int).len() > 0);
                assert(all.skip(i as int)[0].tok == ident@);
                assert(first_with_tok(all.skip(i as int), ident@) == Some(found@));
                return Ok(found);
            }
            i = i + 1;
        }
        Err(CompileError { kind: ErrorKind::NodeNotFound, pos: ident.pos.clone(), text: ident.val.clone() })
    }
}


/// The tokens a lexer holds, as a parser reads them.
pub open spec fn src_of(l: Lexer) -> TokSrc {
    TokSrc { toks: toks_view(l.toks@), end: l.pos@ }
}

/// Parsing moves only the cursor of a lexer.
pub open spec fn frame(a: Lexer, b: Lexer) -> bool {
    &&& a.toks@ == b.toks@
    &&& a.pos@ == b.pos@
    &&& a.src@ == b.src@
    &&& a.rune == b.rune
}

/// A parsed node agrees with the grammar, the cursor standing after it.
pub open spec fn node_res(r: Result<Node, CompileError>, cur: int, p: PNode) -> bool {
    match p {
        Ok((n, j)) => r is Ok && r.unwrap()@ == n && cur == j,
        Err(e) => r is Err && r->Err_0@ == e,
    }
}

/// Parsed nodes agree with the grammar, the cursor standing after them.
pub open spec fn nodes_res(r: Result<Vec<Node>, CompileError>, cur: int, p: PNodes) -> bool {
    match p {
        Ok((ns, j)) => r is Ok && nodes_view(r.unwrap()@) == ns && cur == j,
        Err(e) => r is Err && r->Err_0@ == e,
    }
}

/// The kind of the token at the cursor plus `ahead`.
fn peek_kind(lexer: &Lexer, ahead: usize) -> (r: Result<TokKind, CompileError>)
    requires
        ahead <= 2,
    ensures
        match peek(src_of(*lexer), lexer.cur + ahead) {
            Ok(t) => r == Ok::<TokKind, CompileError>(t.kind),
            Err(e) => r is Err && r->Err_0@ == e,
        },
{
    let n: usize = lexer.toks.len();
    if lexer.cur < n && ahead < n - lexer.cur {
        Ok(lexer.toks[lexer.cur + ahead].kind)
    } else {
        let v: Vec<u8> = Vec::new();
        assert(v@ =~= Seq::<u8>::empty());
        Err(CompileError { kind: ErrorKind::UnexpectedEnd, pos: lexer.pos.clone(), text: v })
    }
}

/// Reverses a vector of nodes.
fn reverse_nodes(v: Vec<Node>) -> (r: Vec<Node>)
    ensures
        nodes_view(r@) == nodes_view(v@).reverse(),
{
    let mut v = v;
    let mut r: Vec<Node> = Vec::new();
    let ghost orig = nodes_view(v@);
    while v.len() > 0
        invariant
            orig.len() == v@.len() + r@.len(),
            nodes_view(v@) == orig.take(v@.len() as int),
            nodes_view(r@) == orig.reverse().take(r@.len() as int),
        decreases v@.len(),
    {
        let ghost before = v@;
        let ghost m = r@.len() as int;
        let x = v.pop().unwrap();
        proof {
            assert(before == v@.push(x));
            lemma_nodes_view_push(v@, x);
            lemma_nodes_view_push(r@, x);
            assert(nodes_view(v@) =~= orig.take(v@.len() as int));
            assert(nodes_view(before)[v@.len() as int] == node_view(x));
            assert(node_view(x) == orig[v@.len() as int]);
            assert(orig.reverse()[m] == orig[v@.len() as int]);
        }
        r.push(x);
        assert(nodes_view(r@) =~= orig.reverse().take(r@.len() as int));
    }
    assert(orig.reverse().take(r@.len() as int) =~= orig.reverse());
    r
}

impl AST {
    /// An expression at a level of precedence: operands of the next level
    /// joined, left to right, by this level's operators.
    fn parse_expression(lexer: &mut Lexer, level: usize) -> (r: Result<Node, CompileError>)
        requires
            level <= 6,
            old(lexer).cur <= old(lexer).toks@.len(),
        ensures
            frame(*old(lexer), *final(lexer)),
            node_res(r, final(lexer).cur as int, expr(src_of(*old(lexer)), level as int, old(lexer).cur as int)),
            r is Ok ==> old(lexer).cur < final(lexer).cur <= old(lexer).toks@.len(),
        decreases old(lexer).toks@.len() - old(lexer).cur, 22 - level,
    {
        if level == Precedence::Factor.level() {
            return Self::parse_factor(lexer);
        }
        let ghost s = src_of(*lexer);
        let ghost i = lexer.cur as int;
        let ghost goal = expr(s, level as int, i);
        let mut lhs = Self::parse_expression(lexer, level + 1)?;
        assert(goal == tail(s, level as int, lhs@, lexer.cur as int));
        loop
            invariant
                frame(*old(lexer), *lexer),
                s == src_of(*old(lexer)),
                i == old(lexer).cur,
                goal == expr(src_of(*old(lexer)), level as int, old(lexer).cur as int),
                level < 6,
                i < lexer.cur <= lexer.toks@.len(),
                tail(s, level as int, lhs@, lexer.cur as int) == goal,
            decreases lexer.toks@.len() - lexer.cur,
        {
            let ghost j = lexer.cur as int;
            let k = peek_kind(lexer, 0)?;
            let is_op: bool = match level {
                0 => k == TokKind::LogOr,
                1 => k == TokKind::LogAnd,
                2 => k == TokKind::Equal || k == TokKind::NotEqual,
                3 => k == TokKind::GT || k == TokKind::GE || k == TokKind::LT || k == TokKind::LE,
                4 => k == TokKind::Plus || k == TokKind::Minus || k == TokKind::Mod,
                _ => k == TokKind::Mul || k == TokKind::Div,
            };
            assert(is_op == ops_at(level as int, k));
            if !is_op {
                return Ok(lhs);
            }
            let op = lexer.consume_token();
            let rhs = Self::parse_expression(lexer, level + 1)?;
            lhs = Node::bin_op(op, lhs, rhs);
            assert(tail(s, level as int, lhs@, lexer.cur as int) == goal);
        }
    }

    /// A literal, a call, a variable, an expression in brackets, or a factor
    /// after `-` or `@`.
    fn parse_factor(lexer: &mut Lexer) -> (r: Result<Node, CompileError>)
        requires
            old(lexer).cur <= old(lexer).toks@.len(),
        ensures
            frame(*old(lexer), *final(lexer)),
            node_res(r, final(lexer).cur as int, factor(src_of(*old(lexer)), old(lexer).cur as int)),
            r is Ok ==> old(lexer).cur < final(lexer).cur <= old(lexer).toks@.len(),
        decreases old(lexer).toks@.len() - old(lexer).cur, 15int,
    {
        let ghost s = src_of(*lexer);
        let ghost i = lexer.cur as int;
        let k = peek_kind(lexer, 0)?;
        match k {
            TokKind::Int => Ok(Node::literal_int(lexer.consume_token())),
            TokKind::String => Ok(Node::literal_string(lexer.consume_token())),
            TokKind::Char => Ok(Node::literal_char(lexer.consume_token())),
            TokKind::Syscall => Self::parse_syscall(lexer),
            TokKind::Ident => {
                let k2 = peek_kind(lexer, 1)?;
                if k2 == TokKind::OParen {
                    Self::parse_func_call(lexer)
                } else {
                    Self::parse_ident(lexer)
                }
            },
            TokKind::OParen => {
                lexer.consume_token();
                let e = Self::parse_expression(lexer, Precedence::Union.level())?;
                lexer.expect_token(TokKind::CParen)?;
                Ok(e)
            },
            TokKind::Minus | TokKind::Deref => {
                let op = lexer.consume_token();
                let f = Self::parse_factor(lexer)?;
                Ok(Node::un_op(op, f))
            },
            _ => Err(lexer.unexpected(ErrorKind::ExpectedFactor)),
        }
    }

    /// A variable, maybe behind `@`, maybe with a subscript.
    fn parse_ident(lexer: &mut Lexer) -> (r: Result<Node, CompileError>)
        requires
            old(lexer).cur <= old(lexer).toks@.len(),
        ensures
            frame(*old(lexer), *final(lexer)),
            node_res(r, final(lexer).cur as int, ident(src_of(*old(lexer)), old(lexer).cur as int)),
            r is Ok ==> old(lexer).cur < final(lexer).cur <= old(lexer).toks@.len(),
        decreases old(lexer).toks@.len() - old(lexer).cur, 12int,
    {
        let ghost s = src_of(*lexer);
        let ghost i = lexer.cur as int;
        let k = peek_kind(lexer, 0)?;
        let node: Node = if k == TokKind::Deref {
            let deref = lexer.consume_token();
            let name = lexer.expect_token(TokKind::Ident)?;
            Node::un_op(deref, Node::var(name))
        } else {
            let name = lexer.expect_token(TokKind::Ident)?;
            Node::var(name)
        };
        let k2 = peek_kind(lexer, 0)?;
        if k2 == TokKind::OSquare {
            let open = lexer.consume_token();
            let subscript = Tok { kind: TokKind::Subscript, val: vec![91u8, 95, 93], pos: open.pos };
            assert(subscript@.val =~= seq![91u8, 95, 93]);
            let e = Self::parse_expression(lexer, Precedence::Additive.level())?;
            lexer.expect_token(TokKind::CSquare)?;
            Ok(Node::bin_op(subscript, node, e))
        } else {
            Ok(node)
        }
    }

    /// The arguments of a call up to its `)`.
    fn parse_call_args(lexer: &mut Lexer) -> (r: Result<Vec<Node>, CompileError>)
        requires
            old(lexer).cur <= old(lexer).toks@.len(),
        ensures
            frame(*old(lexer), *final(lexer)),
            nodes_res(r, final(lexer).cur as int, call_args(src_of(*old(lexer)), old(lexer).cur as int, seq![])),
            r is Ok ==> old(lexer).cur <= final(lexer).cur <= old(lexer).toks@.len(),
        decreases old(lexer).toks@.len() - old(lexer).cur, 23int,
    {
        let ghost s = src_of(*lexer);
        let ghost goal = call_args(s, lexer.cur as int, seq![]);
        let mut args: Vec<Node> = Vec::new();
        assert(nodes_view(args@) =~= Seq::<NodeV>::empty());
        loop
            invariant
                frame(*old(lexer), *lexer),
                s == src_of(*old(lexer)),
                goal == call_args(src_of(*old(lexer)), old(lexer).cur as int, seq![]),
                old(lexer).cur <= lexer.cur <= lexer.toks@.len(),
                args@.len() > 0 ==> old(lexer).cur < lexer.cur,
                call_args(s, lexer.cur as int, nodes_view(args@)) == goal,
            decreases lexer.toks@.len() - lexer.cur,
        {
            let ghost i = lexer.cur as int;
            let ghost before = nodes_view(args@);
            let k = peek_kind(lexer, 0)?;
            if k == TokKind::CParen {
                return Ok(args);
            }
            if args.len() > 0 {
                lexer.expect_token(TokKind::Separator)?;
            }
            let e = Self::parse_expression(lexer, Precedence::Union.level())?;
            proof {
                lemma_nodes_view_push(args@, e);
            }
            args.push(e);
            assert(call_args(s, i, before) == call_args(s, lexer.cur as int, nodes_view(args@)));
        }
    }

    /// A call of a function by name; its arguments are kept last first.
    fn parse_func_call(lexer: &mut Lexer) -> (r: Result<Node, CompileError>)
        requires
            old(lexer).cur <= old(lexer).toks@.len(),
        ensures
            frame(*old(lexer), *final(lexer)),
            node_res(r, final(lexer).cur as int, func_call(src_of(*old(lexer)), old(lexer).cur as int)),
            r is Ok ==> old(lexer).cur < final(lexer).cur <= old(lexer).toks@.len(),
        decreases old(lexer).toks@.len() - old(lexer).cur, 14int,
    {
        let ident = lexer.expect_token(TokKind::Ident)?;
        lexer.expect_token(TokKind::OParen)?;
        let args = Self::parse_call_args(lexer)?;
        lexer.expect_token(TokKind::CParen)?;
        let args = reverse_nodes(args);
        Ok(Node::func_call(ident, args))
    }

    /// A system call; its arguments are kept last first.
    fn parse_syscall(lexer: &mut Lexer) -> (r: Result<Node, CompileError>)
        requires
            old(lexer).cur <= old(lexer).toks@.len(),
        ensures
            frame(*old(lexer), *final(lexer)),
            node_res(r, final(lexer).cur as int, syscall(src_of(*old(lexer)), old(lexer).cur as int)),
            r is Ok ==> old(lexer).cur < final(lexer).cur <= old(lexer).toks@.len(),
        decreases old(lexer).toks@.len() - old(lexer).cur, 14int,
    {
        let ident = lexer.expect_token(TokKind::Syscall)?;
        lexer.expect_token(TokKind::OParen)?;
        let args = Self::parse_call_args(lexer)?;
        lexer.expect_token(TokKind::CParen)?;
        let args = reverse_nodes(args);
        Ok(Node::syscall(ident, args))
    }

    /// An assignment: to a variable, to what a variable points at, or to the
    /// address that an expression in brackets gives.
    fn parse_assign(lexer: &mut Lexer) -> (r: Result<Node, CompileError>)
        requires
            old(lexer).cur <= old(lexer).toks@.len(),
        ensures
            frame(*old(lexer), *final(lexer)),
            node_res(r, final(lexer).cur as int, assign(src_of(*old(lexer)), old(lexer).cur as int)),
            r is Ok ==> old(lexer).cur < final(lexer).cur <= old(lexer).toks@.len(),
        decreases old(lexer).toks@.len() - old(lexer).cur, 25int,
    {
        let ghost s = src_of(*lexer);
        let ghost i = lexer.cur as int;
        let k = peek_kind(lexer, 0)?;
        if k == TokKind::Deref {
            let deref = lexer.consume_token();
            let k2 = peek_kind(lexer, 0)?;
            if k2 == TokKind::OParen {
                lexer.consume_token();
                let lhs = Self::parse_expression(lexer, Precedence::Additive.level())?;
                lexer.expect_token(TokKind::CParen)?;
                if lexer.cur >= lexer.toks.len() {
                    return Err(lexer.unexpected(ErrorKind::UnexpectedEnd));
                }
                let atok = lexer.consume_token();
                let rhs = Self::parse_expression(lexer, Precedence::Union.level())?;
                Ok(Node::assign(atok, Node::un_op(deref, lhs), rhs))
            } else {
                let lhs = Self::parse_ident(lexer)?;
                let atok = lexer.expect_token(TokKind::Assign)?;
                let rhs = Self::parse_expression(lexer, Precedence::Union.level())?;
                Ok(Node::assign(atok, Node::un_op(deref, lhs), rhs))
            }
        } else {
            let lhs = Self::parse_ident(lexer)?;
            let atok = lexer.expect_token(TokKind::Assign)?;
            let rhs = Self::parse_expression(lexer, Precedence::Union.level())?;
            Ok(Node::assign(atok, lhs, rhs))
        }
    }

    /// A declaration: the declared variable and its assignment, which is to
    /// `0` where no value is given.
    fn parse_var_decl(lexer: &mut Lexer) -> (r: Result<(Node, Node), CompileError>)
        requires
            old(lexer).cur <= old(lexer).toks@.len(),
        ensures
            frame(*old(lexer), *final(lexer)),
            match var_decl(src_of(*old(lexer)), old(lexer).cur as int) {
                Ok(((d, a), j)) => r is Ok && r.unwrap().0@ == d && r.unwrap().1@ == a && final(lexer).cur == j,
                Err(e) => r is Err && r->Err_0@ == e,
            },
            r is Ok ==> old(lexer).cur < final(lexer).cur <= old(lexer).toks@.len(),
        decreases old(lexer).toks@.len() - old(lexer).cur, 26int,
    {
        let typ = lexer.expect_type()?;
        let datatype = Datatype::from_token(&typ);
        if lexer.cur >= lexer.toks.len() {
            return Err(lexer.unexpected(ErrorKind::UnexpectedEnd));
        }
        let ident = lexer.peek_token();
        let lhs = Node::var_decl(datatype, ident.clone());
        if ident.kind != TokKind::Ident {
            return Err(lexer.unexpected(ErrorKind::ExpectedToken(TokKind::Ident)));
        }
        let k2 = peek_kind(lexer, 1)?;
        if k2 == TokKind::Assign {
            let a = Self::parse_assign(lexer)?;
            Ok((lhs, a))
        } else {
            lexer.consume_token();
            let file: String = "Implicit".to_owned();
            let operator = Tok {
                kind: TokKind::Assign,
                val: vec![61u8],
                pos: Pos { row: u32::MAX, col: u32::MAX, file },
            };
            assert(operator@.val =~= seq![61u8]);
            Ok((lhs, Node::assign(operator, Node::var(ident), Node::zero_literal())))
        }
    }

    /// Statements up to a `}`.
    fn parse_block(lexer: &mut Lexer) -> (r: Result<Vec<Node>, CompileError>)
        requires
            old(lexer).cur <= old(lexer).toks@.len(),
        ensures
            frame(*old(lexer), *final(lexer)),
            nodes_res(r, final(lexer).cur as int, block(src_of(*old(lexer)), old(lexer).cur as int, seq![])),
            r is Ok ==> old(lexer).cur <= final(lexer).cur <= old(lexer).toks@.len(),
        decreases old(lexer).toks@.len() - old(lexer).cur, 30int,
    {
        let ghost s = src_of(*lexer);
        let ghost goal = block(s, lexer.cur as int, seq![]);
        let mut body: Vec<Node> = Vec::new();
        assert(nodes_view(body@) =~= Seq::<NodeV>::empty());
        loop
            invariant
                frame(*old(lexer), *lexer),
                s == src_of(*old(lexer)),
                goal == block(src_of(*old(lexer)), old(lexer).cur as int, seq![]),
                old(lexer).cur <= lexer.cur <= lexer.toks@.len(),
                block(s, lexer.cur as int, nodes_view(body@)) == goal,
            decreases lexer.toks@.len() - lexer.cur,
        {
            let ghost i = lexer.cur as int;
            let ghost before = nodes_view(body@);
            let k = peek_kind(lexer, 0)?;
            if k == TokKind::CScope {
                return Ok(body);
            }
            let mut stmts = Self::parse_statement(lexer)?;
            proof {
                lemma_nodes_view_add(body@, stmts@);
            }
            body.append(&mut stmts);
            assert(block(s, i, before) == block(s, lexer.cur as int, nodes_view(body@)));
        }
    }

    /// Statements in braces.
    fn parse_scoped(lexer: &mut Lexer) -> (r: Result<Vec<Node>, CompileError>)
        requires
            old(lexer).cur <= old(lexer).toks@.len(),
        ensures
            frame(*old(lexer), *final(lexer)),
            nodes_res(r, final(lexer).cur as int, scoped(src_of(*old(lexer)), old(lexer).cur as int)),
            r is Ok ==> old(lexer).cur < final(lexer).cur <= old(lexer).toks@.len(),
        decreases old(lexer).toks@.len() - old(lexer).cur, 31int,
    {
        lexer.expect_token(TokKind::OScope)?;
        let body = Self::parse_block(lexer)?;
        lexer.expect_token(TokKind::CScope)?;
        Ok(body)
    }

    /// The head of a `for`: a declaration, an assignment or nothing.
    fn parse_for_init(lexer: &mut Lexer) -> (r: Result<(Option<Node>, Option<Node>), CompileError>)
        requires
            old(lexer).cur <= old(lexer).toks@.len(),
        ensures
            frame(*old(lexer), *final(lexer)),
            match for_init(src_of(*old(lexer)), old(lexer).cur as int) {
                Ok((d, a, j)) => r is Ok && opt_view(r.unwrap().0) == d && opt_view(r.unwrap().1) == a
                    && final(lexer).cur == j,
                Err(e) => r is Err && r->Err_0@ == e,
            },
            r is Ok ==> old(lexer).cur <= final(lexer).cur <= old(lexer).toks@.len(),
        decreases old(lexer).toks@.len() - old(lexer).cur, 28int,
    {
        let k = peek_kind(lexer, 0)?;
        if k == TokKind::TypeVoid || k == TokKind::TypeInt64Ptr || k == TokKind::TypeInt64 || k == TokKind::TypeChrPtr
            || k == TokKind::TypeChr || k == TokKind::TypeAnyPtr {
            let (d, a) = Self::parse_var_decl(lexer)?;
            Ok((Some(d), Some(a)))
        } else if k != TokKind::End {
            let a = Self::parse_assign(lexer)?;
            Ok((None, Some(a)))
        } else {
            Ok((None, None))
        }
    }

    /// The condition of a `for`, or nothing.
    fn parse_for_cond(lexer: &mut Lexer) -> (r: Result<Option<Node>, CompileError>)
        requires
            old(lexer).cur <= old(lexer).toks@.len(),
        ensures
            frame(*old(lexer), *final(lexer)),
            match for_cond(src_of(*old(lexer)), old(lexer).cur as int) {
                Ok((c, j)) => r is Ok && opt_view(r.unwrap()) == c && final(lexer).cur == j,
                Err(e) => r is Err && r->Err_0@ == e,
            },
            r is Ok ==> old(lexer).cur <= final(lexer).cur <= old(lexer).toks@.len(),
        decreases old(lexer).toks@.len() - old(lexer).cur, 28int,
    {
        let k = peek_kind(lexer, 0)?;
        if k != TokKind::End {
            let c = Self::parse_expression(lexer, Precedence::Union.level())?;
            Ok(Some(c))
        } else {
            Ok(None)
        }
    }

    /// The step of a `for`: a call, an assignment, or nothing.
    fn parse_for_post(lexer: &mut Lexer) -> (r: Result<Option<Node>, CompileError>)
        requires
            old(lexer).cur <= old(lexer).toks@.len(),
        ensures
            frame(*old(lexer), *final(lexer)),
            match for_post(src_of(*old(lexer)), old(lexer).cur as int) {
                Ok((p, j)) => r is Ok && opt_view(r.unwrap()) == p && final(lexer).cur == j,
                Err(e) => r is Err && r->Err_0@ == e,
            },
            r is Ok ==> old(lexer).cur <= final(lexer).cur <= old(lexer).toks@.len(),
        decreases old(lexer).toks@.len() - old(lexer).cur, 28int,
    {
        let k = peek_kind(lexer, 0)?;
        if k != TokKind::OScope {
            let k2 = peek_kind(lexer, 1)?;
            if k2 == TokKind::OParen {
                let p = Self::parse_func_call(lexer)?;
                Ok(Some(p))
            } else {
                let p = Self::parse_assign(lexer)?;
                Ok(Some(p))
            }
        } else {
            Ok(None)
        }
    }

    /// A `for` loop.
    #[verifier::rlimit(40)]
    fn parse_for(lexer: &mut Lexer) -> (r: Result<Vec<Node>, CompileError>)
        requires
            old(lexer).cur < old(lexer).toks@.len(),
        ensures
            frame(*old(lexer), *final(lexer)),
            nodes_res(
                r,
                final(lexer).cur as int,
                for_stmt(src_of(*old(lexer)), src_of(*old(lexer)).toks[old(lexer).cur as int], old(lexer).cur as int),
            ),
            r is Ok ==> old(lexer).cur < final(lexer).cur <= old(lexer).toks@.len(),
        decreases old(lexer).toks@.len() - old(lexer).cur, 28int,
    {
        let ident = lexer.consume_token();
        let (decl, init) = Self::parse_for_init(lexer)?;
        lexer.expect_token(TokKind::End)?;
        let cond = Self::parse_for_cond(lexer)?;
        lexer.expect_token(TokKind::End)?;
        let post = Self::parse_for_post(lexer)?;
        let body = Self::parse_scoped(lexer)?;
        let r = vec![Node::forr(ident, decl, init, cond, post, body)];
        assert(nodes_view(r@) =~= seq![r@[0]@]);
        Ok(r)
    }

    /// An `if`, with an `else` or without.
    #[verifier::rlimit(40)]
    fn parse_if(lexer: &mut Lexer) -> (r: Result<Vec<Node>, CompileError>)
        requires
            old(lexer).cur < old(lexer).toks@.len(),
        ensures
            frame(*old(lexer), *final(lexer)),
            nodes_res(
                r,
                final(lexer).cur as int,
                if_stmt(src_of(*old(lexer)), src_of(*old(lexer)).toks[old(lexer).cur as int], old(lexer).cur as int),
            ),
            r is Ok ==> old(lexer).cur < final(lexer).cur <= old(lexer).toks@.len(),
        decreases old(lexer).toks@.len() - old(lexer).cur, 28int,
    {
        let ident = lexer.consume_token();
        let cond = Self::parse_expression(lexer, Precedence::Union.level())?;
        let if_body = Self::parse_scoped(lexer)?;
        let k = peek_kind(lexer, 0)?;
        let mut else_body: Vec<Node> = Vec::new();
        assert(nodes_view(else_body@) =~= Seq::<NodeV>::empty());
        if k == TokKind::Else {
            lexer.consume_token();
            else_body = Self::parse_scoped(lexer)?;
        }
        let r = vec![Node::conditional(ident, cond, if_body, else_body)];
        assert(nodes_view(r@) =~= seq![r@[0]@]);
        Ok(r)
    }

    /// A `while` loop.
    fn parse_while(lexer: &mut Lexer) -> (r: Result<Vec<Node>, CompileError>)
        requires
            old(lexer).cur < old(lexer).toks@.len(),
        ensures
            frame(*old(lexer), *final(lexer)),
            nodes_res(
                r,
                final(lexer).cur as int,
                while_stmt(src_of(*old(lexer)), src_of(*old(lexer)).toks[old(lexer).cur as int], old(lexer).cur as int),
            ),
            r is Ok ==> old(lexer).cur < final(lexer).cur <= old(lexer).toks@.len(),
        decreases old(lexer).toks@.len() - old(lexer).cur, 28int,
    {
        let ident = lexer.consume_token();
        let cond = Self::parse_expression(lexer, Precedence::Union.level())?;
        let body = Self::parse_scoped(lexer)?;
        let r = vec![Node::whilee(ident, cond, body)];
        assert(nodes_view(r@) =~= seq![r@[0]@]);
        Ok(r)
    }

    /// A `return` and its value.
    fn parse_return(lexer: &mut Lexer) -> (r: Result<Vec<Node>, CompileError>)
        requires
            old(lexer).cur < old(lexer).toks@.len(),
        ensures
            frame(*old(lexer), *final(lexer)),
            nodes_res(
                r,
                final(lexer).cur as int,
                return_stmt(src_of(*old(lexer)), src_of(*old(lexer)).toks[old(lexer).cur as int], old(lexer).cur as int),
            ),
            r is Ok ==> old(lexer).cur < final(lexer).cur <= old(lexer).toks@.len(),
        decreases old(lexer).toks@.len() - old(lexer).cur, 28int,
    {
        let t = lexer.consume_token();
        let e = Self::parse_expression(lexer, Precedence::Union.level())?;
        Self::then_end(lexer, Node::returnn(t, e))
    }

    /// A call or an assignment that starts with a name.
    fn parse_name_stmt(lexer: &mut Lexer) -> (r: Result<Vec<Node>, CompileError>)
        requires
            old(lexer).cur < old(lexer).toks@.len(),
        ensures
            frame(*old(lexer), *final(lexer)),
            nodes_res(
                r,
                final(lexer).cur as int,
                name_stmt(src_of(*old(lexer)), src_of(*old(lexer)).toks[old(lexer).cur as int], old(lexer).cur as int),
            ),
            r is Ok ==> old(lexer).cur < final(lexer).cur <= old(lexer).toks@.len(),
        decreases old(lexer).toks@.len() - old(lexer).cur, 28int,
    {
        let k2 = peek_kind(lexer, 1)?;
        let n = if k2 == TokKind::OParen {
            Self::parse_func_call(lexer)?
        } else if k2 == TokKind::Assign || k2 == TokKind::OSquare {
            Self::parse_assign(lexer)?
        } else {
            return Err(lexer.unexpected(ErrorKind::ExpectedAssignOrCall));
        };
        Self::then_end(lexer, n)
    }

    /// A declaration followed by `;`.
    fn parse_decl_stmt(lexer: &mut Lexer) -> (r: Result<Vec<Node>, CompileError>)
        requires
            old(lexer).cur <= old(lexer).toks@.len(),
        ensures
            frame(*old(lexer), *final(lexer)),
            nodes_res(r, final(lexer).cur as int, decl_stmt(src_of(*old(lexer)), old(lexer).cur as int)),
            r is Ok ==> old(lexer).cur < final(lexer).cur <= old(lexer).toks@.len(),
        decreases old(lexer).toks@.len() - old(lexer).cur, 28int,
    {
        let (d, a) = Self::parse_var_decl(lexer)?;
        lexer.expect_token(TokKind::End)?;
        let r = vec![d, a];
        assert(nodes_view(r@) =~= seq![d@, a@]);
        Ok(r)
    }

    /// A node followed by `;`.
    fn then_end(lexer: &mut Lexer, n: Node) -> (r: Result<Vec<Node>, CompileError>)
        ensures
            frame(*old(lexer), *final(lexer)),
            nodes_res(r, final(lexer).cur as int, then_end(src_of(*old(lexer)), Ok((n@, old(lexer).cur as int)))),
            r is Ok ==> final(lexer).cur == old(lexer).cur + 1,
    {
        lexer.expect_token(TokKind::End)?;
        let r = vec![n];
        assert(nodes_view(r@) =~= seq![n@]);
        Ok(r)
    }

    /// A statement; a declaration gives two nodes, every other statement one.
    fn parse_statement(lexer: &mut Lexer) -> (r: Result<Vec<Node>, CompileError>)
        requires
            old(lexer).cur <= old(lexer).toks@.len(),
        ensures
            frame(*old(lexer), *final(lexer)),
            nodes_res(r, final(lexer).cur as int, statement(src_of(*old(lexer)), old(lexer).cur as int)),
            r is Ok ==> old(lexer).cur < final(lexer).cur <= old(lexer).toks@.len(),
        decreases old(lexer).toks@.len() - old(lexer).cur, 29int,
    {
        let k = peek_kind(lexer, 0)?;
        match k {
            TokKind::Return => Self::parse_return(lexer),
            TokKind::Break => {
                let t = lexer.consume_token();
                Self::then_end(lexer, Node::breakk(t))
            },
            TokKind::Continue => {
                let t = lexer.consume_token();
                Self::then_end(lexer, Node::continuee(t))
            },
            TokKind::For => Self::parse_for(lexer),
            TokKind::While => Self::parse_while(lexer),
            TokKind::If => Self::parse_if(lexer),
            TokKind::Syscall => {
                let n = Self::parse_syscall(lexer)?;
                Self::then_end(lexer, n)
            },
            TokKind::Ident => Self::parse_name_stmt(lexer),
            TokKind::TypeVoid | TokKind::TypeInt64 | TokKind::TypeInt64Ptr | TokKind::TypeChr | TokKind::TypeChrPtr
            | TokKind::TypeAnyPtr => Self::parse_decl_stmt(lexer),
            TokKind::Deref => {
                let n = Self::parse_assign(lexer)?;
                Self::then_end(lexer, n)
            },
            _ => Err(lexer.unexpected(ErrorKind::ExpectedStatement)),
        }
    }

    /// The parameters of a function up to its `)`.
    fn parse_decl_args(lexer: &mut Lexer) -> (r: Result<Vec<Node>, CompileError>)
        requires
            old(lexer).cur <= old(lexer).toks@.len(),
        ensures
            frame(*old(lexer), *final(lexer)),
            nodes_res(r, final(lexer).cur as int, decl_args(src_of(*old(lexer)), old(lexer).cur as int, seq![])),
            r is Ok ==> old(lexer).cur <= final(lexer).cur <= old(lexer).toks@.len(),
    {
        let ghost s = src_of(*lexer);
        let ghost goal = decl_args(s, lexer.cur as int, seq![]);
        let mut args: Vec<Node> = Vec::new();
        assert(nodes_view(args@) =~= Seq::<NodeV>::empty());
        loop
            invariant
                frame(*old(lexer), *lexer),
                s == src_of(*old(lexer)),
                goal == decl_args(src_of(*old(lexer)), old(lexer).cur as int, seq![]),
                old(lexer).cur <= lexer.cur <= lexer.toks@.len(),
                decl_args(s, lexer.cur as int, nodes_view(args@)) == goal,
            decreases lexer.toks@.len() - lexer.cur,
        {
            let ghost i = lexer.cur as int;
            let ghost before = nodes_view(args@);
            let k = peek_kind(lexer, 0)?;
            if k == TokKind::CParen {
                return Ok(args);
            }
            if args.len() > 0 {
                lexer.expect_token(TokKind::Separator)?;
            }
            let typ = lexer.expect_type()?;
            let arg_type = Datatype::from_token(&typ);
            let arg_ident = lexer.expect_token(TokKind::Ident)?;
            let arg = Node::var_decl(arg_type, arg_ident);
            proof {
                lemma_nodes_view_push(args@, arg);
            }
            args.push(arg);
            assert(decl_args(s, i, before) == decl_args(s, lexer.cur as int, nodes_view(args@)));
        }
    }

    /// A function: its type, name, parameters and body.
    fn parse_func_decl(lexer: &mut Lexer) -> (r: Result<Node, CompileError>)
        requires
            old(lexer).cur <= old(lexer).toks@.len(),
        ensures
            frame(*old(lexer), *final(lexer)),
            node_res(r, final(lexer).cur as int, func_decl(src_of(*old(lexer)), old(lexer).cur as int)),
            r is Ok ==> old(lexer).cur < final(lexer).cur <= old(lexer).toks@.len(),
    {
        let typ = lexer.expect_type()?;
        let datatype = Datatype::from_token(&typ);
        let ident = lexer.expect_token(TokKind::Ident)?;
        lexer.expect_token(TokKind::OParen)?;
        let args = Self::parse_decl_args(lexer)?;
        lexer.expect_token(TokKind::CParen)?;
        let body = Self::parse_scoped(lexer)?;
        Ok(Node::func_decl(datatype, ident, args, body))
    }

    /// Parses the functions and includes of a program into the root, while
    /// more than one token is left; a last single token is not read.
    pub fn construct(&mut self, lexer: &mut Lexer) -> (r: Result<(), CompileError>)
        requires
            old(lexer).cur <= old(lexer).toks@.len(),
        ensures
            frame(*old(lexer), *final(lexer)),
            match parse_program(src_of(*old(lexer)), old(lexer).cur as int) {
                Ok((ns, j)) => {
                    &&& r is Ok
                    &&& final(self).root@ == (NodeV { children: ns, ..old(self).root@ })
                    &&& final(lexer).cur == j
                },
                Err(e) => r is Err && r->Err_0@ == e,
            },
    {
        if lexer.toks.len() == 0 {
            let v: Vec<u8> = Vec::new();
            assert(v@ =~= Seq::<u8>::empty());
            return Err(CompileError { kind: ErrorKind::EmptyProgram, pos: lexer.pos.clone(), text: v });
        }
        let ghost s = src_of(*lexer);
        let ghost goal = program(s, lexer.cur as int, seq![]);
        let mut children: Vec<Node> = Vec::new();
        assert(nodes_view(children@) =~= Seq::<NodeV>::empty());
        while lexer.has_token()
            invariant
                frame(*old(lexer), *lexer),
                s == src_of(*old(lexer)),
                goal == program(src_of(*old(lexer)), old(lexer).cur as int, seq![]),
                lexer.toks@.len() > 0,
                old(lexer).cur <= lexer.cur <= lexer.toks@.len(),
                program(s, lexer.cur as int, nodes_view(children@)) == goal,
            decreases lexer.toks@.len() - lexer.cur,
        {
            let ghost i = lexer.cur as int;
            let ghost before = nodes_view(children@);
            let tok = lexer.peek_token();
            match tok.kind {
                TokKind::TypeVoid | TokKind::TypeInt64 | TokKind::TypeInt64Ptr | TokKind::TypeChr | TokKind::TypeChrPtr
                | TokKind::TypeAnyPtr => {
                    let f = Self::parse_func_decl(lexer)?;
                    proof {
                        lemma_nodes_view_push(children@, f);
                    }
                    children.push(f);
                },
                TokKind::Include => {
                    let t = lexer.consume_token();
                    let file = lexer.expect_token(TokKind::String)?;
                    let n = Node::include_of(t, Node::literal_string(file));
                    proof {
                        lemma_nodes_view_push(children@, n);
                    }
                    children.push(n);
                },
                _ => {
                    return Err(lexer.unexpected(ErrorKind::UnexpectedTopLevel));
                },
            }
            assert(program(s, i, before) == program(s, lexer.cur as int, nodes_view(children@)));
        }
        assert(program(s, lexer.cur as int, nodes_view(children@)) == Ok::<(Seq<NodeV>, int), ErrV>(
            (nodes_view(children@), lexer.cur as int),
        ));
        self.root.children = children;
        Ok(())
    }
}

/// The top-level nodes of a program, or the error that stops it.
pub open spec fn parse_program(s: TokSrc, i: int) -> PNodes {
    if s.toks.len() == 0 {
        Err(ErrV { kind: ErrorKind::EmptyProgram, pos: s.end, text: Seq::<u8>::empty() })
    } else {
        program(s, i, seq![])
    }
}

} // verus!
