//! The evaluator: walks a syntax tree by the instruction on each node,
//! calling operations looked up by name.

use vstd::prelude::*;
use crate::lambda::{Lambda, LambdaView};
use crate::parser::{err_text, parse_of, Parser};
use crate::reader::LineReader;
use crate::syntax::{AbstractSyntaxTree, TreeNode};
use crate::text::{join3, same_text};
use crate::token::Lexer;
use crate::value::{apply_post, read_post, NodeType, NodeValue, Operator, Real};

verus! {

/// The outcome of evaluating a node.
#[derive(Debug, Clone)]
pub enum StateNode<V> {
    /// Evaluation produced no value.
    NoValue,
    /// Evaluation stopped at this node, not reduced to a value.
    Node(TreeNode),
    /// A value.
    Value(V),
    /// Evaluation failed with this message.
    RuntimeErr(String),
}

impl<V> StateNode<V> {
    pub fn new(node: TreeNode) -> (r: StateNode<V>)
        ensures
            r == StateNode::<V>::Node(node),
    {
        StateNode::Node(node)
    }

    /// The outcome as a value: a node not reduced to a value is an error.
    pub fn as_value(self) -> (r: StateNode<V>)
        ensures
            self is Node ==> r is RuntimeErr,
            !(self is Node) ==> r == self,
    {
        match self {
            StateNode::Node(_) => StateNode::RuntimeErr("Cannot convert Node to Value".to_owned()),
            _ => self,
        }
    }
}

/// Evaluate a leaf as a literal of kind `kind`: its token's text read as a
/// value of that kind; a branch, or text that is no such value, is an error.
pub fn eval_as<F: Real, D: Real>(node: &TreeNode, kind: NodeType) -> (r: StateNode<NodeValue<F, D>>)
    ensures
        node.leaf is None ==> (r matches StateNode::RuntimeErr(e)
            && e@ == "EVAL_AS called on branch node, leaf node expected."@),
        node.leaf matches Some(t) ==> exists|res: Result<NodeValue<F, D>, String>| #[trigger] read_post(t.value@, kind, res)
            && r == match res {
                Ok(v) => StateNode::<NodeValue<F, D>>::Value(v),
                Err(e) => StateNode::<NodeValue<F, D>>::RuntimeErr(e),
            },
{
    match &node.leaf {
        Some(token) => {
            let res = NodeValue::<F, D>::parse_value(token.value.as_str(), kind);
            assert(read_post(token.value@, kind, res));
            match res {
                Ok(v) => StateNode::Value(v),
                Err(e) => StateNode::RuntimeErr(e),
            }
        },
        None => StateNode::RuntimeErr("EVAL_AS called on branch node, leaf node expected.".to_owned()),
    }
}

/// A value as an outcome: an error value is an error outcome.
pub open spec fn lift<F, D>(v: NodeValue<F, D>) -> StateNode<NodeValue<F, D>> {
    match v {
        NodeValue::ValueError(e) => StateNode::RuntimeErr(e),
        _ => StateNode::Value(v),
    }
}

impl<F: Real, D: Real> StateNode<NodeValue<F, D>> {
    /// The value of an outcome: a node or no value is an error value.
    pub fn as_node_value(self) -> (r: NodeValue<F, D>)
        requires
            !(self is RuntimeErr),
        ensures
            self matches StateNode::Value(v) ==> r == v,
            !(self is Value) ==> r is ValueError,
    {
        match self {
            StateNode::Value(v) => v,
            _ => NodeValue::ValueError("Cannot convert the outcome to a value".to_owned()),
        }
    }

    /// Apply `op` to two outcomes: an error comes out first, the left one
    /// before the right; two values combine, and an error value becomes an
    /// error outcome.
    pub fn operator(lhs: Self, rhs: Self, op: Operator) -> (r: Self)
        ensures
            lhs is RuntimeErr ==> r == lhs,
            !(lhs is RuntimeErr) && rhs is RuntimeErr ==> r == rhs,
            (lhs matches StateNode::Value(a) ==> (rhs matches StateNode::Value(b) ==> exists|v: NodeValue<F, D>|
                #[trigger] apply_post(a, b, op, v) && r == lift(v))),
            !(lhs is RuntimeErr) && !(rhs is RuntimeErr) && !(lhs is Value && rhs is Value) ==> r is RuntimeErr,
    {
        if let StateNode::RuntimeErr(_) = lhs {
            return lhs;
        }
        if let StateNode::RuntimeErr(_) = rhs {
            return rhs;
        }
        match (lhs, rhs) {
            (StateNode::Value(a), StateNode::Value(b)) => {
                let ghost (ga, gb) = (a, b);
                let v = a.apply(b, op);
                assert(apply_post(ga, gb, op, v));
                match v {
                    NodeValue::ValueError(e) => StateNode::RuntimeErr(e),
                    v => StateNode::Value(v),
                }
            },
            (_, _) => StateNode::RuntimeErr("Cannot combine outcomes that are not values".to_owned()),
        }
    }
}

/// The evaluated arguments an operation is called with.
#[derive(Debug)]
pub enum Exec<V> {
    NoOp(),
    UniOp(StateNode<V>),
    BinOp(StateNode<V>, StateNode<V>),
    TriOp(StateNode<V>, StateNode<V>, StateNode<V>),
    /// The node itself, for an operation called without arguments.
    Root(StateNode<V>),
    RuntimeErr(String),
}

impl<V> Exec<V> {
    pub fn new(node: TreeNode) -> (r: Exec<V>)
        ensures
            r == Exec::<V>::Root(StateNode::Node(node)),
    {
        Exec::Root(StateNode::new(node))
    }
}

/// How deep an instruction may send evaluation on the same node: a default
/// instruction defers to the node's own, an operation evaluates children.
pub open spec fn rank(l: LambdaView) -> nat {
    match l {
        LambdaView::Eval => 3,
        LambdaView::Call(_, _) => 2,
        LambdaView::As(_) => 2,
        _ => 0,
    }
}

/// The child at 1-based index `k`.
pub open spec fn child(node: TreeNode, k: u32) -> TreeNode {
    node.nodes@[k - 1]
}

/// What evaluating `node` under the instruction `lam` can give with the
/// operations of `env`:
/// - the default instruction defers to the node's own, an error where that is
///   the default too;
/// - an operation is looked up by name and called on its argument package;
/// - descending evaluates the child at that index under the given instruction;
/// - a literal hands on the leaf node itself, for the operation above it to
///   read; a branch is an error;
/// - a choice of instructions, or a name or index that does not exist, is an error.
pub open spec fn eval_post<V, F: Fn(Exec<V>) -> StateNode<V>>(
    env: VirtualEnv<V, F>,
    node: TreeNode,
    lam: LambdaView,
    r: StateNode<V>,
) -> bool
    decreases node, rank(lam),
{
    match lam {
        LambdaView::Eval => if node.lambda@ is Eval {
            r matches StateNode::RuntimeErr(e) && e@ == (if node.leaf is Some {
                "No literal rule for a leaf node"@
            } else {
                "No default reduction for a branch node"@
            })
        } else {
            eval_post(env, node, node.lambda@, r)
        },
        LambdaView::Call(name, args) => lambda_post(env, node, name, args, r),
        LambdaView::As(name) => lambda_post(env, node, name, Seq::empty(), r),
        LambdaView::Get(k, sub) => if has_child(node, k) {
            eval_post(env, child(node, k), *sub, r)
        } else {
            r matches StateNode::RuntimeErr(e) && e@ == "No node found for the index of a child"@
        },
        LambdaView::Token => if node.leaf is Some {
            r matches StateNode::Node(c) && c@ == node@
        } else {
            r matches StateNode::RuntimeErr(e) && e@ == "A literal needs a leaf node"@
        },
        LambdaView::Or(_) => r matches StateNode::RuntimeErr(e) && e@ == "No evaluation for a choice of instructions"@,
    }
}

/// What calling the operation `name` on the children at `args` of `node`
/// can give: an error where the name or an index does not exist, else what
/// the operation returns on the argument package.
pub open spec fn lambda_post<V, F: Fn(Exec<V>) -> StateNode<V>>(
    env: VirtualEnv<V, F>,
    node: TreeNode,
    name: Seq<char>,
    args: Seq<u32>,
    r: StateNode<V>,
) -> bool
    decreases node, 1nat,
{
    if !(exists|k: int| 0 <= k < env.names().len() && env.names()[k] == name) {
        r matches StateNode::RuntimeErr(e) && e@ == "No lambda found for `"@ + name + "`"@
    } else if !all_children(node, args) {
        r matches StateNode::RuntimeErr(e) && e@ == "No node found for the index of an argument"@
    } else {
        let k = choose|k: int| 0 <= k < env.names().len() && env.names()[k] == name;
        exists|e: Exec<V>| #[trigger] env.ops()[k].ensures((e,), r) && package_ok(env, node, args, e)
    }
}

/// `e` is the argument package for the children at `args` of `node`: one or
/// two children, each evaluated by its own instruction; otherwise the node
/// itself.
pub open spec fn package_ok<V, F: Fn(Exec<V>) -> StateNode<V>>(
    env: VirtualEnv<V, F>,
    node: TreeNode,
    args: Seq<u32>,
    e: Exec<V>,
) -> bool
    decreases node, 0nat,
{
    if args.len() == 1 {
        &&& all_children(node, args)
        &&& e matches Exec::UniOp(o) && eval_post(env, child(node, args[0]), child(node, args[0]).lambda@, o)
    } else if args.len() == 2 {
        &&& all_children(node, args)
        &&& e matches Exec::BinOp(o1, o2) && eval_post(env, child(node, args[0]), child(node, args[0]).lambda@, o1)
            && eval_post(env, child(node, args[1]), child(node, args[1]).lambda@, o2)
    } else {
        e matches Exec::Root(StateNode::Node(c)) && c@ == node@
    }
}

/// Every index in `args` names a child of `node`.
pub open spec fn all_children(node: TreeNode, args: Seq<u32>) -> bool {
    forall|j: int| 0 <= j < args.len() ==> has_child(node, #[trigger] args[j])
}

/// The 1-based child index `k` names a child of `node`.
pub open spec fn has_child(node: TreeNode, k: u32) -> bool {
    1 <= k <= node.nodes@.len()
}

/// Holds the operations of a language, by name.
#[verifier::reject_recursive_types(V)]
#[verifier::reject_recursive_types(F)]
pub struct VirtualEnv<V, F: Fn(Exec<V>) -> StateNode<V>> {
    // two lists with distinct names rather than a map: lookups by a text key
    // can be stated and proved over a list, not over a map keyed by `String`
    names: Vec<String>,
    definitions: Vec<F>,
    marker: std::marker::PhantomData<V>,
}

impl<V, F: Fn(Exec<V>) -> StateNode<V>> VirtualEnv<V, F> {
    /// The operation names, in the order they were first defined.
    pub closed spec fn names(&self) -> Seq<Seq<char>> {
        self.names@.map_values(|s: String| s@)
    }

    /// The operations, in the same order as their names.
    pub closed spec fn ops(&self) -> Seq<F> {
        self.definitions@
    }

    pub open spec fn wf(&self) -> bool {
        &&& self.names().len() == self.ops().len()
        &&& forall|i: int, j: int| 0 <= i < j < self.names().len() ==> self.names()[i] != self.names()[j]
        &&& forall|i: int, e: Exec<V>| 0 <= i < self.ops().len() ==> #[trigger] self.ops()[i].requires((e,))
    }

    /// An environment with no operations.
    pub fn new() -> (r: Self)
        ensures
            r.wf(),
            r.names().len() == 0,
    {
        VirtualEnv { names: Vec::new(), definitions: Vec::new(), marker: std::marker::PhantomData }
    }

    /// Define the operation `lambda_type`, replacing any of that name.
    pub fn define(&mut self, lambda_type: &str, cb: F)
        requires
            old(self).wf(),
            forall|e: Exec<V>| cb.requires((e,)),
        ensures
            final(self).wf(),
            final(self).names() == crate::token::define_kind(old(self).names(), lambda_type@),
            (exists|i: int| 0 <= i < final(self).names().len() && final(self).names()[i] == lambda_type@
                && final(self).ops()[i] == cb),
    {
        match self.find(lambda_type) {
            Some(i) => {
                self.definitions.set(i, cb);
                proof {
                    assert(old(self).names().update(i as int, lambda_type@) =~= old(self).names());
                }
            },
            None => {
                self.names.push(lambda_type.to_owned());
                self.definitions.push(cb);
                proof {
                    assert(self.names() =~= old(self).names().push(lambda_type@));
                    assert(self.names()[self.names().len() - 1] == lambda_type@);
                }
            },
        }
    }

    /// The index of the operation named `name`, if there is one.
    fn find(&self, name: &str) -> (r: Option<usize>)
        requires
            self.wf(),
        ensures
            r matches Some(i) ==> i < self.names().len() && self.names()[i as int] == name@,
            r is None ==> !self.names().contains(name@),
    {
        let mut i: usize = 0;
        while i < self.names.len()
            invariant
                i <= self.names@.len(),
                self.wf(),
                forall|j: int| 0 <= j < i ==> self.names()[j] != name@,
            decreases self.names@.len() - i,
        {
            if same_text(&self.names[i], name) {
                return Some(i);
            }
            i = i + 1;
        }
        None
    }

    /// Evaluate a syntax tree from its root.
    pub fn exec(&self, ast: AbstractSyntaxTree) -> (r: StateNode<V>)
        requires
            self.wf(),
        ensures
            eval_post(*self, ast.root, ast.root.lambda@, r),
    {
        self.eval_node(&ast.root)
    }

    /// Evaluate a node by its own instruction.
    pub fn eval_node(&self, node: &TreeNode) -> (r: StateNode<V>)
        requires
            self.wf(),
        ensures
            eval_post(*self, *node, node.lambda@, r),
    {
        self.eval_lambda(node, &node.lambda)
    }

    /// Evaluate a node under `lambda`.
    pub fn eval_lambda(&self, node: &TreeNode, lambda: &Lambda) -> (r: StateNode<V>)
        requires
            self.wf(),
        ensures
            eval_post(*self, *node, lambda@, r),
        decreases node, rank(lambda@),
    {
        match lambda {
            Lambda::Eval => {
                if let Lambda::Eval = &node.lambda {
                    if node.leaf.is_some() {
                        return StateNode::RuntimeErr("No literal rule for a leaf node".to_owned());
                    } else {
                        return StateNode::RuntimeErr("No default reduction for a branch node".to_owned());
                    }
                }
                self.eval_lambda(node, &node.lambda)
            },
            Lambda::Lambda(name, args) => self.lambda(name, node, args),
            Lambda::EvalAs(name) => {
                let none: Vec<u32> = Vec::new();
                assert(none@ =~= Seq::<u32>::empty());
                self.lambda(name, node, &none)
            },
            Lambda::GetExpr(arg, sub) => {
                if *arg >= 1 && (*arg as usize) <= node.nodes.len() {
                    let k = (*arg - 1) as usize;
                    proof {
                        vstd::std_specs::vec::axiom_vec_index_decreases(node.nodes, k as int);
                        assert(decreases_to!(*node => node.nodes));
                    }
                    self.eval_lambda(&node.nodes[k], sub)
                } else {
                    StateNode::RuntimeErr("No node found for the index of a child".to_owned())
                }
            },
            Lambda::EvalToken => {
                if node.leaf.is_some() {
                    StateNode::Node(node.clone())
                } else {
                    StateNode::RuntimeErr("A literal needs a leaf node".to_owned())
                }
            },
            Lambda::LambdaOr(_) => StateNode::RuntimeErr("No evaluation for a choice of instructions".to_owned()),
        }
    }

    /// Evaluate the child at 1-based index `k`, by its own instruction.
    fn eval_branch(&self, node: &TreeNode, k: u32) -> (r: StateNode<V>)
        requires
            self.wf(),
            has_child(*node, k),
        ensures
            eval_post(*self, child(*node, k), child(*node, k).lambda@, r),
        decreases node, 0nat,
    {
        let i = (k - 1) as usize;
        proof {
            vstd::std_specs::vec::axiom_vec_index_decreases(node.nodes, i as int);
            assert(decreases_to!(*node => node.nodes));
        }
        let child = &node.nodes[i];
        self.eval_lambda(child, &child.lambda)
    }

    /// Call the operation `name` with the children at the indices `args`,
    /// evaluated first; with no indices, with the node itself.
    fn lambda(&self, name: &String, node: &TreeNode, args: &Vec<u32>) -> (r: StateNode<V>)
        requires
            self.wf(),
        ensures
            lambda_post(*self, *node, name@, args@, r),
        decreases node, 1nat,
    {
        let i = match self.find(name.as_str()) {
            Some(i) => i,
            None => {
                return StateNode::RuntimeErr(join3("No lambda found for `", name.as_str(), "`"));
            },
        };
        proof {
            assert(self.names()[i as int] == name@);
        }
        let mut j: usize = 0;
        while j < args.len()
            invariant
                j <= args@.len(),
                i < self.names().len(),
                self.names()[i as int] == name@,
                forall|t: int| 0 <= t < j ==> has_child(*node, #[trigger] args@[t]),
            decreases args@.len() - j,
        {
            if !(args[j] >= 1 && (args[j] as usize) <= node.nodes.len()) {
                assert(!has_child(*node, args@[j as int]));
                return StateNode::RuntimeErr("No node found for the index of an argument".to_owned());
            }
            j = j + 1;
        }
        let exec = if args.len() == 1 {
            Exec::UniOp(self.eval_branch(node, args[0]))
        } else if args.len() == 2 {
            let lhs = self.eval_branch(node, args[0]);
            let rhs = self.eval_branch(node, args[1]);
            Exec::BinOp(lhs, rhs)
        } else {
            Exec::Root(StateNode::Node(node.clone()))
        };
        proof {
            assert(self.ops()[i as int].requires((exec,)));
        }
        let ghost e = exec;
        let r = (self.definitions[i])(exec);
        proof {
            let k = choose|k: int| 0 <= k < self.names().len() && self.names()[k] == name@;
            assert(k == i);
            assert(self.ops()[i as int].ensures((e,), r));
            assert(package_ok(*self, *node, args@, e));
        }
        r
    }
}

/// A value that can be written out as text, or says why it cannot.
pub trait ValueText {
    /// The text of the value where its kind fixes it: `Ok` with the text, or
    /// `Err` with why it has none; `None` where the kind leaves it open.
    spec fn known_text(&self) -> Option<Result<Seq<char>, Seq<char>>>;

    fn to_text(&self) -> (r: Result<String, String>)
        ensures
            self.known_text() matches Some(k) ==> text_result(r) == k,
    ;
}

/// A text result as a value.
pub open spec fn text_result(r: Result<String, String>) -> Result<Seq<char>, Seq<char>> {
    match r {
        Ok(t) => Ok(t@),
        Err(e) => Err(e@),
    }
}

/// What `report` gives for an outcome: no value as `None`, a node not
/// reduced to a value as a diagnostic that shows it, an error as its message.
/// A value is written by its own `to_text`.
pub open spec fn report_post<V: ValueText>(result: StateNode<V>, r: Result<String, String>) -> bool {
    match result {
        StateNode::NoValue => r matches Ok(t) && t@ == "None"@,
        StateNode::Node(n) => r matches Ok(t) && t@ == "Node Result: "@ + crate::syntax::node_text(n),
        StateNode::RuntimeErr(e) => r == Err::<String, String>(e),
        StateNode::Value(v) => v.known_text() matches Some(k) ==> text_result(r) == k,
    }
}

/// The text of an evaluation outcome: a value as its text, or the error its
/// text gives; no value, and a node not reduced to a value, as diagnostics
/// that are not errors; an error as its message.
pub fn report<V: ValueText>(result: StateNode<V>) -> (r: Result<String, String>)
    ensures
        report_post(result, r),
{
    match result {
        StateNode::NoValue => Ok("None".to_owned()),
        StateNode::Value(v) => v.to_text(),
        StateNode::RuntimeErr(e) => Err(e),
        StateNode::Node(n) => {
            let shown = n.render();
            proof {
                reveal_strlit("");
            }
            Ok(join3("Node Result: ", shown.as_str(), ""))
        },
    }
}

/// A language: its tokens, its rules and its operations.
#[verifier::reject_recursive_types(V)]
#[verifier::reject_recursive_types(F)]
pub struct Executor<V, F: Fn(Exec<V>) -> StateNode<V>> {
    lexer: Lexer,
    parser: Parser,
    env: VirtualEnv<V, F>,
}

impl<V: ValueText, F: Fn(Exec<V>) -> StateNode<V>> Executor<V, F> {
    pub closed spec fn lexer(&self) -> Lexer {
        self.lexer
    }

    pub closed spec fn parser(&self) -> Parser {
        self.parser
    }

    pub closed spec fn env(&self) -> VirtualEnv<V, F> {
        self.env
    }

    pub closed spec fn wf(&self) -> bool {
        &&& self.lexer.wf()
        &&& self.parser.wf()
        &&& self.env.wf()
    }

    pub fn new(lexer: Lexer, parser: Parser, env: VirtualEnv<V, F>) -> (r: Self)
        requires
            lexer.wf(),
            parser.wf(),
            env.wf(),
        ensures
            r.wf(),
    {
        Executor { lexer, parser, env }
    }

    /// Parse one expression from the reader, evaluate it, and give its text;
    /// a parse error, or an evaluation that fails, gives the error's message.
    pub fn exec(&self, reader: &mut LineReader) -> (r: Result<String, String>)
        requires
            self.wf(),
            old(reader).wf(),
        ensures
            final(reader).wf(),
            final(reader).text() == old(reader).text(),
            !self.parser().names().contains("EXPR"@) ==> (r matches Err(t) && t@ == "You need to define an Expression for EXPR"@),
            // with `EXPR` defined: a parse error gives its message; else the
            // tree that the rule gives is evaluated and reported
            (forall|i: int| 0 <= i < self.parser().names().len() && self.parser().names()[i] == "EXPR"@ ==> ({
                let res = parse_of(self.parser(), self.lexer(), self.parser().defs()[i].expr,
                    self.parser().defs()[i].lambda@, old(reader).text(), old(reader).cursor().mark());
                match res.0 {
                    Err(x) => r matches Err(t) && t@ == err_text(x),
                    Ok(v) => exists|root: TreeNode, o: StateNode<V>|
                        root@ == v && #[trigger] eval_post(self.env(), root, root.lambda@, o) && report_post(o, r),
                }
            })),
    {
        let ast = self.parser.parse_tree(&self.lexer, reader)?;
        let ghost root = ast.root;
        let result = self.env.exec(ast);
        assert(eval_post(self.env, root, root.lambda@, result));
        report(result)
    }
}

} // verus!
