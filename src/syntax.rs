//! Grammar expressions and the syntax tree they produce.

use vstd::prelude::*;
use crate::lambda::{Lambda, LambdaView};
use crate::pointer::{Mark, ReadPointer};
use crate::text::{append_chars, chars_of, string_of};
use crate::token::{token_text, Token};

verus! {

/// A grammar expression, to be matched against the input.
#[derive(Debug)]
pub enum Expression {
    /// Ordered choice: the first alternative that matches wins.
    ExprOr(Vec<Expression>),
    /// Sequence: every part must match, in order.
    SubExpr(Vec<Expression>),
    /// A reference to the rule of this name.
    Expr(String),
    /// A token of this type; with a non-empty second text, only a token with
    /// that value.
    Token(String, String),
}

/// The expression holds no rule reference, so it stands for a fixed tree.
pub open spec fn is_static(e: Expression) -> bool
    decreases e,
{
    match e {
        Expression::ExprOr(es) => forall|i: int| 0 <= i < es.len() ==> is_static(#[trigger] es@[i]),
        Expression::SubExpr(es) => forall|i: int| 0 <= i < es.len() ==> is_static(#[trigger] es@[i]),
        Expression::Expr(_) => false,
        Expression::Token(_, _) => true,
    }
}

/// How an expression is written: a token type (with `:value` where one is
/// expected), a rule name, a sequence between `( ` and ` )` with its parts
/// one space apart, a choice between `[ ` and ` ]` with its alternatives
/// separated by ` | `.
pub open spec fn expr_text(e: Expression) -> Seq<char>
    decreases e,
{
    match e {
        Expression::Token(t, v) => if v@.len() == 0 { t@ } else { t@ + seq![':'] + v@ },
        Expression::Expr(n) => n@,
        Expression::SubExpr(es) => seq!['(', ' '] + exprs_text(es@, seq![' ']) + seq![' ', ')'],
        Expression::ExprOr(es) => seq!['[', ' '] + exprs_text(es@, seq![' ', '|', ' ']) + seq![' ', ']'],
    }
}

/// The expressions written one after the other, `sep` between them.
pub open spec fn exprs_text(es: Seq<Expression>, sep: Seq<char>) -> Seq<char>
    decreases es,
{
    if es.len() == 0 {
        Seq::empty()
    } else if es.len() == 1 {
        expr_text(es[0])
    } else {
        exprs_text(es.drop_last(), sep) + sep + expr_text(es.last())
    }
}

impl Expression {
    /// Write the expression after `out`.
    fn render_into(&self, out: &mut Vec<char>)
        ensures
            final(out)@ == old(out)@ + expr_text(*self),
        decreases self,
    {
        match self {
            Expression::Token(t, v) => {
                let ty = chars_of(t.as_str());
                append_chars(out, ty.as_slice());
                if !v.as_str().is_empty() {
                    out.push(':');
                    let vs = chars_of(v.as_str());
                    append_chars(out, vs.as_slice());
                }
                assert(out@ =~= old(out)@ + expr_text(*self));
            },
            Expression::Expr(n) => {
                let ns = chars_of(n.as_str());
                append_chars(out, ns.as_slice());
            },
            Expression::SubExpr(es) | Expression::ExprOr(es) => {
                let ghost start = out@;
                let choice = matches!(self, Expression::ExprOr(_));
                let ghost sep = if choice { seq![' ', '|', ' '] } else { seq![' '] };
                if choice {
                    out.push('[');
                } else {
                    out.push('(');
                }
                out.push(' ');
                let ghost open = out@.subrange(start.len() as int, out@.len() as int);
                let mut i: usize = 0;
                while i < es.len()
                    invariant
                        i <= es@.len(),
                        *self == Expression::ExprOr(*es) || *self == Expression::SubExpr(*es),
                        choice == (*self is ExprOr),
                        sep == (if choice { seq![' ', '|', ' '] } else { seq![' '] }),
                        out@ == start + open + exprs_text(es@.subrange(0, i as int), sep),
                    decreases es@.len() - i,
                {
                    proof {
                        vstd::std_specs::vec::axiom_vec_index_decreases(*es, i as int);
                        if *self is ExprOr {
                            assert(decreases_to!(*self => (*self)->ExprOr_0));
                        } else {
                            assert(decreases_to!(*self => (*self)->SubExpr_0));
                        }
                        let s = es@.subrange(0, i as int + 1);
                        assert(s.drop_last() =~= es@.subrange(0, i as int));
                        assert(s.last() == es@[i as int]);
                    }
                    if i > 0 {
                        if choice {
                            out.push(' ');
                            out.push('|');
                            out.push(' ');
                        } else {
                            out.push(' ');
                        }
                    }
                    es[i].render_into(out);
                    proof {
                        let s = es@.subrange(0, i as int + 1);
                        if i == 0 {
                            assert(exprs_text(s, sep) == expr_text(s[0]));
                            assert(exprs_text(es@.subrange(0, 0), sep) =~= Seq::<char>::empty());
                        }
                        assert(out@ =~= start + open + exprs_text(s, sep));
                    }
                    i = i + 1;
                }
                out.push(' ');
                if choice {
                    out.push(']');
                } else {
                    out.push(')');
                }
                assert(es@.subrange(0, es@.len() as int) =~= es@);
                assert(out@ =~= old(out)@ + expr_text(*self));
            },
        }
    }

    /// The expression written out.
    pub fn render(&self) -> (r: String)
        ensures
            r@ == expr_text(*self),
    {
        let mut out: Vec<char> = Vec::new();
        self.render_into(&mut out);
        assert(out@ =~= expr_text(*self));
        string_of(out.as_slice())
    }

    /// The token an `Expression::Token` stands for, at the very start.
    pub fn token(&self) -> (r: Token)
        requires
            self is Token,
        ensures
            r.token_type@ == self->Token_0@,
            r.value@ == self->Token_1@,
            r.position.mark() == ((0u32, 0u32, 0u32, 0u32), (0u32, 0u32)),
            r.position.saved().len() == 0,
    {
        match self {
            Expression::Token(token_type, value) => Token::new(
                token_type.as_str(),
                value.as_str(),
                ReadPointer::from_pos((0, 0, 0, 0), (0, 0)),
            ),
            _ => {
                assert(false);
                Token::new("", "", ReadPointer::new())
            },
        }
    }
}

/// A node of the syntax tree: a branch with child nodes, or a leaf with a
/// token, carrying the instruction for its evaluation.
#[derive(Debug)]
pub struct TreeNode {
    pub nodes: Vec<TreeNode>,
    pub leaf: Option<Token>,
    pub node_type: String,
    pub lambda: Lambda,
}

/// A token as a value: its type, its text, and where it was read.
pub struct TokenView {
    pub kind: Seq<char>,
    pub value: Seq<char>,
    pub mark: Mark,
}

/// A node as a value: its children, its leaf token and its instruction.
pub struct NodeView {
    pub nodes: Seq<NodeView>,
    pub leaf: Option<TokenView>,
    pub lambda: LambdaView,
}

pub open spec fn token_view(t: Token) -> TokenView {
    TokenView { kind: t.token_type@, value: t.value@, mark: t.position.mark() }
}

impl TreeNode {
    /// The node as a value.
    pub open spec fn model(&self) -> NodeView
        decreases self,
    {
        NodeView {
            nodes: node_models(self.nodes@),
            leaf: match self.leaf {
                Some(t) => Some(token_view(t)),
                None => None,
            },
            lambda: self.lambda@,
        }
    }
}

/// The values of a list of nodes.
pub open spec fn node_models(ns: Seq<TreeNode>) -> Seq<NodeView>
    decreases ns,
{
    if ns.len() == 0 {
        Seq::empty()
    } else {
        node_models(ns.drop_last()).push(ns.last().model())
    }
}

/// The values of a list of nodes, element by element.
pub proof fn lemma_node_models(ns: Seq<TreeNode>)
    ensures
        node_models(ns).len() == ns.len(),
        forall|j: int| 0 <= j < ns.len() ==> #[trigger] node_models(ns)[j] == ns[j].model(),
    decreases ns.len(),
{
    if ns.len() > 0 {
        lemma_node_models(ns.drop_last());
    }
}

impl View for TreeNode {
    type V = NodeView;

    open spec fn view(&self) -> NodeView {
        self.model()
    }
}

/// How a node is written: a leaf as its token; a branch as its children
/// between `( ` and ` )`, one space apart.
pub open spec fn node_text(n: TreeNode) -> Seq<char>
    decreases n,
{
    match n.leaf {
        Some(t) => token_text(t.token_type@, t.value@),
        None => seq!['(', ' '] + nodes_text(n.nodes@) + seq![' ', ')'],
    }
}

/// The nodes written one after the other, one space apart.
pub open spec fn nodes_text(ns: Seq<TreeNode>) -> Seq<char>
    decreases ns,
{
    if ns.len() == 0 {
        Seq::empty()
    } else if ns.len() == 1 {
        node_text(ns[0])
    } else {
        nodes_text(ns.drop_last()) + seq![' '] + node_text(ns.last())
    }
}

impl TreeNode {
    /// Make a leaf node from a token.
    pub fn from_token(token: Token) -> (r: TreeNode)
        ensures
            r.leaf == Some(token),
            r.nodes@.len() == 0,
            r.node_type@.len() == 0,
            r.lambda@ == LambdaView::Token,
    {
        TreeNode { nodes: Vec::new(), leaf: Some(token), node_type: String::new(), lambda: Lambda::EvalToken }
    }

    /// Make a branch node from child nodes.
    pub fn from_nodes(nodes: Vec<TreeNode>) -> (r: TreeNode)
        ensures
            r.nodes == nodes,
            r.leaf is None,
            r.node_type@.len() == 0,
            r.lambda@ == LambdaView::Eval,
    {
        TreeNode { nodes, leaf: None, node_type: String::new(), lambda: Lambda::Eval }
    }

    /// The fixed tree an expression without rule references stands for:
    /// each token a leaf, each choice or sequence a branch of its parts.
    pub fn from_expr(expr: &Expression) -> (r: TreeNode)
        requires
            is_static(*expr),
        ensures
            r@ == static_view(*expr),
        decreases expr,
    {
        match expr {
            Expression::ExprOr(es) | Expression::SubExpr(es) => {
                let mut nodes: Vec<TreeNode> = Vec::new();
                let mut i: usize = 0;
                while i < es.len()
                    invariant
                        i <= es@.len(),
                        nodes@.len() == i,
                        node_models(nodes@) == static_views(es@.subrange(0, i as int)),
                        is_static(*expr),
                        *expr == Expression::ExprOr(*es) || *expr == Expression::SubExpr(*es),
                    decreases es@.len() - i,
                {
                    proof {
                        vstd::std_specs::vec::axiom_vec_index_decreases(*es, i as int);
                        if *expr is ExprOr {
                            assert(decreases_to!(*expr => (*expr)->ExprOr_0));
                        } else {
                            assert(decreases_to!(*expr => (*expr)->SubExpr_0));
                        }
                        assert(is_static(es@[i as int]));
                    }
                    let ghost before = nodes@;
                    nodes.push(TreeNode::from_expr(&es[i]));
                    proof {
                        assert(nodes@.drop_last() =~= before);
                        let s = es@.subrange(0, i as int + 1);
                        assert(s.drop_last() =~= es@.subrange(0, i as int));
                    }
                    i = i + 1;
                }
                assert(es@.subrange(0, es@.len() as int) =~= es@);
                TreeNode::from_nodes(nodes)
            },
            Expression::Expr(_) => {
                assert(false);
                TreeNode::from_nodes(Vec::new())
            },
            Expression::Token(_, _) => TreeNode::from_token(expr.token()),
        }
    }

    /// Set the node's type name.
    pub fn set_type(&mut self, node_type: String) -> (r: &Self)
        ensures
            final(self).node_type == node_type,
            final(self).nodes == old(self).nodes,
            final(self).leaf == old(self).leaf,
            final(self).lambda == old(self).lambda,
    {
        self.node_type = node_type;
        self
    }

    /// Add a child node at the end.
    pub fn add_branch(&mut self, node: TreeNode)
        ensures
            final(self).nodes@ == old(self).nodes@.push(node),
            final(self).leaf == old(self).leaf,
            final(self).node_type == old(self).node_type,
            final(self).lambda == old(self).lambda,
    {
        self.nodes.push(node);
    }

    /// Set the leaf token.
    pub fn set_leaf(&mut self, token: Token)
        ensures
            final(self).leaf == Some(token),
            final(self).nodes == old(self).nodes,
            final(self).node_type == old(self).node_type,
            final(self).lambda == old(self).lambda,
    {
        self.leaf = Some(token);
    }

    /// Set the instruction the node is evaluated by.
    pub fn set_lambda(&mut self, lambda: &Lambda)
        ensures
            final(self).lambda@ == lambda@,
            final(self).nodes == old(self).nodes,
            final(self).leaf == old(self).leaf,
            final(self).node_type == old(self).node_type,
    {
        self.lambda = lambda.clone();
    }

    /// Write the node after `out`.
    fn render_into(&self, out: &mut Vec<char>)
        ensures
            final(out)@ == old(out)@ + node_text(*self),
        decreases self,
    {
        match &self.leaf {
            Some(t) => {
                let ty = chars_of(t.token_type.as_str());
                append_chars(out, ty.as_slice());
                out.push(':');
                let v = chars_of(t.value.as_str());
                append_chars(out, v.as_slice());
                assert(out@ =~= old(out)@ + node_text(*self));
            },
            None => {
                let ghost start = out@;
                out.push('(');
                out.push(' ');
                let mut i: usize = 0;
                while i < self.nodes.len()
                    invariant
                        i <= self.nodes@.len(),
                        self.leaf is None,
                        out@ == start + seq!['(', ' '] + nodes_text(self.nodes@.subrange(0, i as int)),
                    decreases self.nodes@.len() - i,
                {
                    proof {
                        vstd::std_specs::vec::axiom_vec_index_decreases(self.nodes, i as int);
                        assert(decreases_to!(*self => self.nodes));
                        let s = self.nodes@.subrange(0, i as int + 1);
                        assert(s.drop_last() =~= self.nodes@.subrange(0, i as int));
                        assert(s.last() == self.nodes@[i as int]);
                    }
                    if i > 0 {
                        out.push(' ');
                    }
                    self.nodes[i].render_into(out);
                    proof {
                        let s = self.nodes@.subrange(0, i as int + 1);
                        if i == 0 {
                            assert(nodes_text(s) == node_text(s[0]));
                            assert(nodes_text(self.nodes@.subrange(0, 0)) =~= Seq::<char>::empty());
                        }
                        assert(out@ =~= start + seq!['(', ' '] + nodes_text(s));
                    }
                    i = i + 1;
                }
                out.push(' ');
                out.push(')');
                assert(self.nodes@.subrange(0, self.nodes@.len() as int) =~= self.nodes@);
                assert(out@ =~= start + node_text(*self));
            },
        }
    }

    /// The node written out: a leaf as `type:value`, a branch as its children
    /// between `( ` and ` )`.
    pub fn render(&self) -> (r: String)
        ensures
            r@ == node_text(*self),
    {
        let mut out: Vec<char> = Vec::new();
        self.render_into(&mut out);
        assert(out@ =~= node_text(*self));
        string_of(out.as_slice())
    }
}

/// The fixed tree an expression without rule references stands for.
pub open spec fn static_view(e: Expression) -> NodeView
    decreases e,
{
    match e {
        Expression::Token(t, v) => NodeView {
            nodes: Seq::empty(),
            leaf: Some(TokenView { kind: t@, value: v@, mark: ((0u32, 0u32, 0u32, 0u32), (0u32, 0u32)) }),
            lambda: LambdaView::Token,
        },
        Expression::ExprOr(es) => NodeView { nodes: static_views(es@), leaf: None, lambda: LambdaView::Eval },
        Expression::SubExpr(es) => NodeView { nodes: static_views(es@), leaf: None, lambda: LambdaView::Eval },
        Expression::Expr(_) => NodeView { nodes: Seq::empty(), leaf: None, lambda: LambdaView::Eval },
    }
}

/// The fixed trees of a list of expressions.
pub open spec fn static_views(es: Seq<Expression>) -> Seq<NodeView>
    decreases es,
{
    if es.len() == 0 {
        Seq::empty()
    } else {
        static_views(es.drop_last()).push(static_view(es.last()))
    }
}

impl Clone for TreeNode {
    /// A copy of the node and, in turn, of its children.
    fn clone(&self) -> (r: TreeNode)
        ensures
            r@ == self@,
            r.node_type == self.node_type,
        decreases self,
    {
        let mut nodes: Vec<TreeNode> = Vec::new();
        let mut i: usize = 0;
        while i < self.nodes.len()
            invariant
                i <= self.nodes@.len(),
                nodes@.len() == i,
                forall|j: int| 0 <= j < i ==> (#[trigger] nodes@[j])@ == self.nodes@[j]@,
            decreases self.nodes@.len() - i,
        {
            proof {
                vstd::std_specs::vec::axiom_vec_index_decreases(self.nodes, i as int);
                assert(decreases_to!(*self => self.nodes));
            }
            nodes.push(self.nodes[i].clone());
            i = i + 1;
        }
        let leaf = match &self.leaf {
            Some(t) => Some(Token::new(t.token_type.as_str(), t.value.as_str(), t.position.clone())),
            None => None,
        };
        let r = TreeNode { nodes, leaf, node_type: self.node_type.clone(), lambda: self.lambda.clone() };
        proof {
            lemma_node_models(r.nodes@);
            lemma_node_models(self.nodes@);
            assert(node_models(r.nodes@) =~= node_models(self.nodes@));
        }
        r
    }
}

/// A syntax tree, held by its root node.
#[derive(Debug)]
pub struct AbstractSyntaxTree {
    pub root: TreeNode,
}

impl AbstractSyntaxTree {
    pub fn new(root: TreeNode) -> (r: Self)
        ensures
            r.root == root,
    {
        AbstractSyntaxTree { root }
    }

    /// The tree written out, as its root node is.
    pub fn render(&self) -> (r: String)
        ensures
            r@ == node_text(self.root),
    {
        self.root.render()
    }
}

} // verus!
