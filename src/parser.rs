//! The grammar engine: named rules, and the matching of expressions against
//! a reader with backtracking.

use vstd::prelude::*;
use crate::lambda::{Lambda, LambdaView};
use crate::pointer::Mark;
use crate::reader::{extend_mark, is_prefix, token_mark, LineReader};
use crate::syntax::{expr_text, node_models, AbstractSyntaxTree, Expression, NodeView, TokenView, TreeNode};
use crate::value::{decimal, int_text};
use crate::text::{join3, same_text};
use crate::token::Lexer;

verus! {

/// Why an expression did not match.
#[derive(Debug)]
pub enum ParseError {
    /// Nothing matched at the reading position; an ordered choice goes on
    /// to its next alternative.
    NoMatch(String),
    /// A rule of this name is referenced but not defined.
    Undefined(String),
    /// This rule was entered again without any input read in between.
    LeftRecursion(String),
    /// An ordered choice has no instruction for one of its alternatives.
    Grammar(String),
}

impl ParseError {
    /// The error as a value.
    pub open spec fn model(&self) -> ErrView {
        match self {
            ParseError::NoMatch(m) => ErrView::NoMatch(m@),
            ParseError::Undefined(n) => ErrView::Undefined(n@),
            ParseError::LeftRecursion(n) => ErrView::LeftRecursion(n@),
            ParseError::Grammar(m) => ErrView::Grammar(m@),
        }
    }

    /// The error as text.
    pub fn message(&self) -> (r: String)
        ensures
            self matches ParseError::Undefined(name) ==> r@ == "Parser has no definition for `"@ + name@ + "`"@,
            self matches ParseError::LeftRecursion(name) ==> r@ == "Left recursion in rule `"@ + name@ + "`"@,
            self matches ParseError::NoMatch(m) ==> r@ == m@,
            self matches ParseError::Grammar(m) ==> r@ == m@,
            r@ == err_text(self.model()),
    {
        match self {
            ParseError::NoMatch(m) => m.clone(),
            ParseError::Undefined(name) => join3("Parser has no definition for `", name.as_str(), "`"),
            ParseError::LeftRecursion(name) => join3("Left recursion in rule `", name.as_str(), "`"),
            ParseError::Grammar(m) => m.clone(),
        }
    }
}

/// A rule: the expression to match, and the instruction for what it produces.
#[derive(Debug)]
pub struct ParserDef {
    pub expr: Expression,
    pub lambda: Lambda,
}

impl ParserDef {
    pub fn from(expr: Expression, lambda: Lambda) -> (r: ParserDef)
        ensures
            r.expr == expr,
            r.lambda == lambda,
    {
        ParserDef { expr, lambda }
    }

    /// Match the rule's expression, under the rule's instruction.
    pub fn get(&self, lexer: &Lexer, parser: &Parser, reader: &mut LineReader) -> (r: Result<TreeNode, String>)
        requires
            lexer.wf(),
            parser.wf(),
            old(reader).wf(),
        ensures
            kept(*old(reader), *final(reader)),
            final(reader).cursor().mark() == parse_of(*parser, *lexer, self.expr, self.lambda@, old(reader).text(), old(reader).cursor().mark()).1,
            (match parse_of(*parser, *lexer, self.expr, self.lambda@, old(reader).text(), old(reader).cursor().mark()).0 {
                Ok(v) => r matches Ok(n) && n@ == v,
                Err(x) => r matches Err(t) && t@ == err_text(x),
            }),
    {
        self.expr.get(lexer, parser, reader, &self.lambda)
    }
}

/// Holds the rules of a language, by name.
pub struct Parser {
    // two lists with distinct names rather than a map: lookups by a text key
    // can be stated and proved over a list, not over a map keyed by `String`
    names: Vec<String>,
    definitions: Vec<ParserDef>,
}

/// The number of rules not yet entered at the current position.
pub open spec fn free(flags: Seq<bool>) -> nat
    decreases flags.len(),
{
    if flags.len() == 0 {
        0
    } else {
        free(flags.drop_last()) + if flags.last() { 0nat } else { 1nat }
    }
}

proof fn lemma_free_update(flags: Seq<bool>, i: int)
    requires
        0 <= i < flags.len(),
        !flags[i],
    ensures
        free(flags.update(i, true)) + 1 == free(flags),
    decreases flags.len(),
{
    let u = flags.update(i, true);
    if i == flags.len() - 1 {
        assert(u.drop_last() =~= flags.drop_last());
    } else {
        assert(u.drop_last() =~= flags.drop_last().update(i, true));
        lemma_free_update(flags.drop_last(), i);
    }
}

/// What every match leaves of the reader: it stays well formed, reads the
/// same text, keeps the same saved positions and never moves back.
pub open spec fn kept(before: LineReader, after: LineReader) -> bool {
    &&& after.wf()
    &&& after.text() == before.text()
    &&& after.cursor().saved() == before.cursor().saved()
    &&& after.at() >= before.at()
}

/// What matching `e` under `lam` from `m` gives, starting with no rule entered.
pub open spec fn parse_of(p: Parser, lx: Lexer, e: Expression, lam: LambdaView, text: Seq<char>, m: Mark) -> (
    Result<NodeView, ErrView>,
    Mark,
) {
    run(p, lx, e, lam, text, m, clear(p.defs().len()), p.defs().len())
}

/// The mark after committing `m`: its span starts where it ended.
pub open spec fn committed(m: Mark) -> Mark {
    ((m.0.2, m.0.3, m.0.2, m.0.3), (m.1.1, m.1.1))
}

/// The instruction for alternative `i` of an ordered choice under `lambda`:
/// the `i`-th of a `LambdaOr`, else `lambda` itself.
pub open spec fn alternative_lambda(lambda: LambdaView, i: int) -> LambdaView {
    match lambda {
        LambdaView::Or(ls) => ls[i],
        _ => lambda,
    }
}

/// An error as a value.
pub enum ErrView {
    NoMatch(Seq<char>),
    Undefined(Seq<char>),
    LeftRecursion(Seq<char>),
    Grammar(Seq<char>),
}

/// The text of an error.
pub open spec fn err_text(e: ErrView) -> Seq<char> {
    match e {
        ErrView::NoMatch(m) => m,
        ErrView::Undefined(name) => "Parser has no definition for `"@ + name + "`"@,
        ErrView::LeftRecursion(name) => "Left recursion in rule `"@ + name + "`"@,
        ErrView::Grammar(m) => m,
    }
}

/// The outcome of a match as a value.
pub open spec fn outcome(r: Result<TreeNode, ParseError>) -> Result<NodeView, ErrView> {
    match r {
        Ok(n) => Ok(n@),
        Err(e) => Err(e.model()),
    }
}

/// The number of parts of a sequence or alternatives of a choice.
pub open spec fn parts(e: Expression) -> nat {
    match e {
        Expression::SubExpr(es) => es@.len(),
        Expression::ExprOr(es) => es@.len(),
        _ => 0,
    }
}

/// The number of characters after `m` in `text`.
pub open spec fn rest_len(text: Seq<char>, m: Mark) -> nat {
    if m.1.1 <= text.len() { (text.len() - m.1.1) as nat } else { 0 }
}

/// `n` clear flags.
pub open spec fn clear(n: nat) -> Seq<bool> {
    Seq::new(n, |i: int| false)
}

pub open spec fn token_missing(ty: Seq<char>) -> Seq<char> {
    "Could not find token: \""@ + ty + "\""@
}

pub open spec fn token_value_missing(ty: Seq<char>, val: Seq<char>) -> Seq<char> {
    "Could not find token: \""@ + ty + "\" with value \""@ + val + "\""@
}

pub open spec fn choice_failed(e: Expression) -> Seq<char> {
    "Could not find a matching expression for: "@ + expr_text(e)
}

pub open spec fn lambda_missing(i: int, alternatives: int, lambdas: int) -> Seq<char> {
    "Could not get Lambda for Expression "@ + decimal(i) + " ["@ + decimal(alternatives) + ">"@ + decimal(lambdas) + "]"@
}

/// What matching `e` under the instruction `lam` gives, from the mark `m` in
/// `text`, with the rules of `p` and the tokens of `lx`: the outcome and the
/// mark after it. `flags` marks the rules entered since input was last read,
/// and `budget` counts those not yet entered.
/// - A token: its definition's pattern must read a prefix of the rest, equal
///   to the expected value where one is given; the position moves past it.
/// - A sequence: its parts in turn, each under the default instruction;
///   the first part that fails fails the whole, else the node has one child
///   per part.
/// - A choice: each alternative in turn from `m`, under its own instruction;
///   the first that gives anything but a no-match decides.
/// - A rule reference: the rule's expression under the rule's instruction;
///   an error for an undefined rule or for entering a rule again before any
///   input is read.
pub open spec fn run(
    p: Parser,
    lx: Lexer,
    e: Expression,
    lam: LambdaView,
    text: Seq<char>,
    m: Mark,
    flags: Seq<bool>,
    budget: nat,
) -> (Result<NodeView, ErrView>, Mark)
    decreases rest_len(text, m), budget, e, parts(e) + 1,
{
    match e {
        Expression::Token(ty, val) => {
            let rest = text.subrange(m.1.1 as int, text.len() as int);
            match lx.next_token(ty@, rest) {
                None => (Err(ErrView::NoMatch(token_missing(ty@))), m),
                Some(v) => if val@.len() > 0 && v != val@ {
                    (Err(ErrView::NoMatch(token_value_missing(ty@, val@))), m)
                } else {
                    (
                        Ok(NodeView {
                            nodes: Seq::empty(),
                            leaf: Some(TokenView { kind: ty@, value: v, mark: token_mark(m, v) }),
                            lambda: lam,
                        }),
                        extend_mark(m, v),
                    )
                },
            }
        },
        Expression::SubExpr(_) => match seq_run(p, lx, e, 0, text, m, flags, budget, m) {
            (Ok(ns), m2) => (Ok(NodeView { nodes: ns, leaf: None, lambda: lam }), m2),
            (Err(x), m2) => (Err(x), m2),
        },
        Expression::ExprOr(_) => choice_run(p, lx, e, 0, lam, text, m, flags, budget),
        Expression::Expr(name) => {
            if exists|i: int| 0 <= i < p.names().len() && p.names()[i] == name@ {
                let i = choose|i: int| 0 <= i < p.names().len() && p.names()[i] == name@;
                if i >= flags.len() || i >= p.defs().len() || flags[i] || budget == 0 {
                    (Err(ErrView::LeftRecursion(name@)), m)
                } else {
                    run(p, lx, p.defs()[i].expr, p.defs()[i].lambda@, text, m, flags.update(i, true), (budget - 1) as nat)
                }
            } else {
                (Err(ErrView::Undefined(name@)), m)
            }
        },
    }
}

/// The parts of the sequence `e` from part `k` on, from the mark `cur`,
/// the sequence having started at `start`: the children, or the first error.
pub open spec fn seq_run(
    p: Parser,
    lx: Lexer,
    e: Expression,
    k: int,
    text: Seq<char>,
    start: Mark,
    flags: Seq<bool>,
    budget: nat,
    cur: Mark,
) -> (Result<Seq<NodeView>, ErrView>, Mark)
    decreases rest_len(text, start), budget, e, parts(e) - k,
{
    if !(e is SubExpr) || k < 0 || k >= parts(e) || cur.1.1 < start.1.1 || cur.1.1 > text.len() {
        (Ok(Seq::empty()), cur)
    } else {
        let moved = cur.1.1 > start.1.1;
        let f = if moved { clear(p.defs().len()) } else { flags };
        let b = if moved { p.defs().len() } else { budget };
        match run(p, lx, e->SubExpr_0@[k], LambdaView::Eval, text, cur, f, b) {
            (Ok(n), c2) => match seq_run(p, lx, e, k + 1, text, start, flags, budget, c2) {
                (Ok(ns), c3) => (Ok(seq![n] + ns), c3),
                (Err(x), c3) => (Err(x), c3),
            },
            (Err(x), c2) => (Err(x), c2),
        }
    }
}

/// The alternatives of the choice `e` from alternative `i` on, each from `m`.
pub open spec fn choice_run(
    p: Parser,
    lx: Lexer,
    e: Expression,
    i: int,
    lam: LambdaView,
    text: Seq<char>,
    m: Mark,
    flags: Seq<bool>,
    budget: nat,
) -> (Result<NodeView, ErrView>, Mark)
    decreases rest_len(text, m), budget, e, parts(e) - i,
{
    if !(e is ExprOr) || i < 0 || i >= parts(e) {
        (Err(ErrView::NoMatch(choice_failed(e))), m)
    } else if lam is Or && i >= lam->Or_0.len() {
        (Err(ErrView::Grammar(lambda_missing(i, parts(e) as int, lam->Or_0.len() as int))), m)
    } else {
        match run(p, lx, e->ExprOr_0@[i], alternative_lambda(lam, i), text, m, flags, budget) {
            (Ok(n), m2) => (Ok(n), m2),
            (Err(x), m2) => if x is NoMatch {
                choice_run(p, lx, e, i + 1, lam, text, m, flags, budget)
            } else {
                (Err(x), m)
            },
        }
    }
}

proof fn lemma_choice_from(
    p: Parser,
    lx: Lexer,
    e: Expression,
    lam: LambdaView,
    text: Seq<char>,
    m: Mark,
    flags: Seq<bool>,
    budget: nat,
    k: int,
    i: int,
)
    requires
        e is ExprOr,
        0 <= k <= i <= parts(e),
        !(lam is Or) || i <= lam->Or_0.len(),
        forall|j: int| k <= j < i ==> (#[trigger] run(p, lx, e->ExprOr_0@[j], alternative_lambda(lam, j), text, m, flags, budget)).0
            matches Err(ErrView::NoMatch(_)),
    ensures
        choice_run(p, lx, e, k, lam, text, m, flags, budget) == choice_run(p, lx, e, i, lam, text, m, flags, budget),
    decreases i - k,
{
    if k < i {
        assert(run(p, lx, e->ExprOr_0@[k], alternative_lambda(lam, k), text, m, flags, budget).0 matches Err(ErrView::NoMatch(_)));
        lemma_choice_from(p, lx, e, lam, text, m, flags, budget, k + 1, i);
    }
}

/// First alternative wins: once the alternatives before `i` have each failed
/// with a no-match from the choice's start, and alternative `i` matches from
/// there, the choice gives exactly what alternative `i` gives; the later
/// alternatives play no part.
pub proof fn lemma_first_alternative_wins(
    p: Parser,
    lx: Lexer,
    e: Expression,
    lam: LambdaView,
    text: Seq<char>,
    m: Mark,
    flags: Seq<bool>,
    budget: nat,
    i: int,
)
    requires
        e is ExprOr,
        0 <= i < parts(e),
        !(lam is Or) || i < lam->Or_0.len(),
        forall|j: int| 0 <= j < i ==> (#[trigger] run(p, lx, e->ExprOr_0@[j], alternative_lambda(lam, j), text, m, flags, budget)).0
            matches Err(ErrView::NoMatch(_)),
        run(p, lx, e->ExprOr_0@[i], alternative_lambda(lam, i), text, m, flags, budget).0 is Ok,
    ensures
        run(p, lx, e, lam, text, m, flags, budget) == run(p, lx, e->ExprOr_0@[i], alternative_lambda(lam, i), text, m,
            flags, budget),
{
    lemma_choice_from(p, lx, e, lam, text, m, flags, budget, 0, i);
}

/// Backtracking restores the position: a choice whose every alternative
/// fails with a no-match ends where it started, with an error that names it.
pub proof fn lemma_choice_restores(
    p: Parser,
    lx: Lexer,
    e: Expression,
    lam: LambdaView,
    text: Seq<char>,
    m: Mark,
    flags: Seq<bool>,
    budget: nat,
)
    requires
        e is ExprOr,
        !(lam is Or) || parts(e) <= lam->Or_0.len(),
        forall|j: int| 0 <= j < parts(e) ==> (#[trigger] run(p, lx, e->ExprOr_0@[j], alternative_lambda(lam, j), text, m, flags, budget)).0
            matches Err(ErrView::NoMatch(_)),
    ensures
        run(p, lx, e, lam, text, m, flags, budget) == (Err::<NodeView, ErrView>(ErrView::NoMatch(choice_failed(e))), m),
{
    lemma_choice_from(p, lx, e, lam, text, m, flags, budget, 0, parts(e) as int);
}

/// Errors other than a no-match end a choice: once the alternatives before
/// `i` have failed with a no-match and alternative `i` fails otherwise (an
/// undefined rule, left recursion, a missing instruction), the choice fails
/// with that error at its own start, and later alternatives play no part.
pub proof fn lemma_choice_stops_at_error(
    p: Parser,
    lx: Lexer,
    e: Expression,
    lam: LambdaView,
    text: Seq<char>,
    m: Mark,
    flags: Seq<bool>,
    budget: nat,
    i: int,
)
    requires
        e is ExprOr,
        0 <= i < parts(e),
        !(lam is Or) || i < lam->Or_0.len(),
        forall|j: int| 0 <= j < i ==> (#[trigger] run(p, lx, e->ExprOr_0@[j], alternative_lambda(lam, j), text, m, flags, budget)).0
            matches Err(ErrView::NoMatch(_)),
        run(p, lx, e->ExprOr_0@[i], alternative_lambda(lam, i), text, m, flags, budget).0 matches Err(x) && !(x is NoMatch),
    ensures
        run(p, lx, e, lam, text, m, flags, budget) == (
            Err::<NodeView, ErrView>(run(p, lx, e->ExprOr_0@[i], alternative_lambda(lam, i), text, m, flags, budget).0->Err_0),
            m,
        ),
{
    lemma_choice_from(p, lx, e, lam, text, m, flags, budget, 0, i);
}

/// A sequence is all or nothing: when its first part fails, the sequence
/// fails with that part's error and gives no node.
pub proof fn lemma_sequence_first_part_fails(
    p: Parser,
    lx: Lexer,
    e: Expression,
    lam: LambdaView,
    text: Seq<char>,
    m: Mark,
    flags: Seq<bool>,
    budget: nat,
)
    requires
        e is SubExpr,
        parts(e) > 0,
        m.1.1 <= text.len(),
        run(p, lx, e->SubExpr_0@[0], LambdaView::Eval, text, m, flags, budget).0 is Err,
    ensures
        run(p, lx, e, lam, text, m, flags, budget) == run(p, lx, e->SubExpr_0@[0], LambdaView::Eval, text, m, flags, budget),
{
    let part = run(p, lx, e->SubExpr_0@[0], LambdaView::Eval, text, m, flags, budget);
    assert(seq_run(p, lx, e, 0, text, m, flags, budget, m) == (Err::<Seq<NodeView>, ErrView>(part.0->Err_0), part.1));
}

/// Every rule that `e` refers to is defined in `p`, and every choice under a
/// `LambdaOr` has exactly one instruction per alternative.
pub open spec fn expr_closed(p: Parser, e: Expression, lam: LambdaView) -> bool
    decreases e,
{
    match e {
        Expression::Token(_, _) => true,
        Expression::Expr(n) => p.names().contains(n@),
        Expression::SubExpr(es) => forall|i: int| 0 <= i < es@.len() ==> expr_closed(p, #[trigger] es@[i], LambdaView::Eval),
        Expression::ExprOr(es) => {
            &&& (lam is Or ==> lam->Or_0.len() == es@.len())
            &&& forall|i: int| 0 <= i < es@.len() ==> expr_closed(p, #[trigger] es@[i], alternative_lambda(lam, i))
        },
    }
}

/// Every rule of `p` is closed.
pub open spec fn grammar_closed(p: Parser) -> bool {
    forall|i: int| 0 <= i < p.defs().len() ==> expr_closed(p, #[trigger] p.defs()[i].expr, p.defs()[i].lambda@)
}

/// The children `pre` before what the rest of a sequence gives.
pub open spec fn prepend(pre: Seq<NodeView>, s: (Result<Seq<NodeView>, ErrView>, Mark)) -> (Result<Seq<NodeView>, ErrView>, Mark) {
    match s {
        (Ok(ns), c) => (Ok(pre + ns), c),
        (Err(x), c) => (Err(x), c),
    }
}

proof fn lemma_prepend_assoc(pre: Seq<NodeView>, n: NodeView, s: (Result<Seq<NodeView>, ErrView>, Mark))
    ensures
        prepend(pre, prepend(seq![n], s)) == prepend(pre.push(n), s),
{
    if let (Ok(ns), c) = s {
        assert(pre + (seq![n] + ns) =~= pre.push(n) + ns);
    }
}

proof fn lemma_prepend_empty(s: (Result<Seq<NodeView>, ErrView>, Mark))
    ensures
        prepend(Seq::empty(), s) == s,
{
    if let (Ok(ns), c) = s {
        assert(Seq::<NodeView>::empty() + ns =~= ns);
    }
}

proof fn lemma_free_clear(n: nat)
    ensures
        free(clear(n)) == n,
    decreases n,
{
    if n > 0 {
        assert(clear(n).drop_last() =~= clear((n - 1) as nat));
        lemma_free_clear((n - 1) as nat);
    }
}

/// A list of `n` flags, all clear.
fn clear_flags(n: usize) -> (r: Vec<bool>)
    ensures
        r@.len() == n,
        forall|i: int| 0 <= i < n ==> !r@[i],
{
    let mut r: Vec<bool> = Vec::new();
    let mut i: usize = 0;
    while i < n
        invariant
            i <= n,
            r@.len() == i,
            forall|j: int| 0 <= j < i ==> !r@[j],
        decreases n - i,
    {
        r.push(false);
        i = i + 1;
    }
    r
}

/// The flags with flag `i` set.
fn set_flag(flags: &Vec<bool>, i: usize) -> (r: Vec<bool>)
    requires
        i < flags@.len(),
    ensures
        r@ == flags@.update(i as int, true),
{
    let mut r: Vec<bool> = Vec::new();
    let mut j: usize = 0;
    while j < flags.len()
        invariant
            j <= flags@.len(),
            i < flags@.len(),
            r@ == flags@.update(i as int, true).subrange(0, j as int),
        decreases flags@.len() - j,
    {
        if j == i {
            r.push(true);
        } else {
            r.push(flags[j]);
        }
        j = j + 1;
        assert(r@ =~= flags@.update(i as int, true).subrange(0, j as int));
    }
    assert(r@ =~= flags@.update(i as int, true));
    r
}

impl Parser {
    /// The rule names, in the order they were first defined.
    pub closed spec fn names(&self) -> Seq<Seq<char>> {
        self.names@.map_values(|s: String| s@)
    }

    /// The rules, in the same order as their names.
    pub closed spec fn defs(&self) -> Seq<ParserDef> {
        self.definitions@
    }

    pub open spec fn wf(&self) -> bool {
        &&& self.names().len() == self.defs().len()
        &&& forall|i: int, j: int| 0 <= i < j < self.names().len() ==> self.names()[i] != self.names()[j]
    }

    /// A parser with no rules.
    pub fn new() -> (r: Parser)
        ensures
            r.wf(),
            r.names().len() == 0,
    {
        Parser { names: Vec::new(), definitions: Vec::new() }
    }

    /// The index of the rule named `name`, if there is one.
    fn find(&self, name: &str) -> (r: Option<usize>)
        requires
            self.wf(),
        ensures
            r matches Some(i) ==> i < self.names().len() && self.names()[i as int] == name@,
            r is None ==> !self.names().contains(name@),
    {
        let mut i: usize = 0;
        while i < self.names.len()
            invariant
                i <= self.names@.len(),
                self.wf(),
                forall|j: int| 0 <= j < i ==> self.names()[j] != name@,
            decreases self.names@.len() - i,
        {
            if same_text(&self.names[i], name) {
                return Some(i);
            }
            i = i + 1;
        }
        None
    }

    /// Get the rule named `expr`; an error naming it where there is none.
    pub fn get_expr(&self, expr: &str) -> (r: Result<&ParserDef, String>)
        requires
            self.wf(),
        ensures
            r matches Ok(d) ==> exists|i: int| 0 <= i < self.names().len() && self.names()[i] == expr@ && self.defs()[i] == *d,
            r matches Err(m) ==> !self.names().contains(expr@) && m@ == "Parser has no definition for `"@ + expr@ + "`"@,
    {
        match self.find(expr) {
            Some(i) => Ok(&self.definitions[i]),
            None => Err(join3("Parser has no definition for `", expr, "`")),
        }
    }

    /// Define the rule `expr_type`, replacing any rule of that name.
    pub fn define(&mut self, expr_type: &str, expr: Expression, lambda: Lambda)
        requires
            old(self).wf(),
        ensures
            final(self).wf(),
            final(self).names() == crate::token::define_kind(old(self).names(), expr_type@),
            final(self).names().contains(expr_type@),
            forall|x: Seq<char>| old(self).names().contains(x) ==> #[trigger] final(self).names().contains(x),
            (exists|i: int| 0 <= i < final(self).names().len() && final(self).names()[i] == expr_type@
                && final(self).defs()[i] == (ParserDef { expr, lambda })),
            (forall|i: int| 0 <= i < old(self).names().len() && old(self).names()[i] != expr_type@
                ==> final(self).defs()[i] == old(self).defs()[i]),
    {
        let def = ParserDef::from(expr, lambda);
        match self.find(expr_type) {
            Some(i) => {
                self.definitions.set(i, def);
                proof {
                    assert(old(self).names().update(i as int, expr_type@) =~= old(self).names());
                    crate::token::lemma_define_kind_keeps(old(self).names(), expr_type@);
                }
            },
            None => {
                self.names.push(expr_type.to_owned());
                self.definitions.push(def);
                proof {
                    assert(self.names() =~= old(self).names().push(expr_type@));
                    assert(self.names()[self.names().len() - 1] == expr_type@);
                    assert forall|x: Seq<char>| old(self).names().contains(x) implies #[trigger] self.names().contains(x) by {
                        let k = choose|k: int| 0 <= k < old(self).names().len() && old(self).names()[k] == x;
                        assert(self.names()[k] == x);
                    }
                }
            },
        }
    }

    /// Whether every rule refers only to defined rules, and every choice under
    /// a `LambdaOr` has one instruction per alternative.
    pub fn is_closed(&self) -> (r: bool)
        requires
            self.wf(),
        ensures
            r == grammar_closed(*self),
    {
        let mut i: usize = 0;
        while i < self.definitions.len()
            invariant
                self.wf(),
                i <= self.defs().len(),
                forall|j: int| 0 <= j < i ==> expr_closed(*self, #[trigger] self.defs()[j].expr, self.defs()[j].lambda@),
            decreases self.defs().len() - i,
        {
            let d = &self.definitions[i];
            if !self.check_expr(&d.expr, &d.lambda) {
                assert(!expr_closed(*self, self.defs()[i as int].expr, self.defs()[i as int].lambda@));
                return false;
            }
            i = i + 1;
        }
        true
    }

    /// Whether `e`, under `lambda`, is closed in this grammar.
    fn check_expr(&self, e: &Expression, lambda: &Lambda) -> (r: bool)
        requires
            self.wf(),
        ensures
            r == expr_closed(*self, *e, lambda@),
        decreases e,
    {
        match e {
            Expression::Token(_, _) => true,
            Expression::Expr(n) => self.find(n.as_str()).is_some(),
            Expression::SubExpr(es) => {
                let eval = Lambda::Eval;
                let mut i: usize = 0;
                while i < es.len()
                    invariant
                        self.wf(),
                        *e == Expression::SubExpr(*es),
                        eval@ == LambdaView::Eval,
                        i <= es@.len(),
                        forall|j: int| 0 <= j < i ==> expr_closed(*self, #[trigger] es@[j], LambdaView::Eval),
                    decreases es@.len() - i,
                {
                    proof {
                        vstd::std_specs::vec::axiom_vec_index_decreases(*es, i as int);
                        assert(decreases_to!(*e => (*e)->SubExpr_0));
                    }
                    if !self.check_expr(&es[i], &eval) {
                        return false;
                    }
                    i = i + 1;
                }
                true
            },
            Expression::ExprOr(es) => {
                proof {
                    if let Lambda::LambdaOr(ls) = lambda {
                        crate::lambda::lemma_models(ls@);
                    }
                }
                if let Lambda::LambdaOr(ls) = lambda {
                    if ls.len() != es.len() {
                        return false;
                    }
                }
                let mut i: usize = 0;
                while i < es.len()
                    invariant
                        self.wf(),
                        *e == Expression::ExprOr(*es),
                        lambda@ is Or ==> lambda@->Or_0.len() == es@.len(),
                        i <= es@.len(),
                        forall|j: int| 0 <= j < i ==> expr_closed(*self, #[trigger] es@[j], alternative_lambda(lambda@, j)),
                    decreases es@.len() - i,
                {
                    proof {
                        vstd::std_specs::vec::axiom_vec_index_decreases(*es, i as int);
                        assert(decreases_to!(*e => (*e)->ExprOr_0));
                        if let Lambda::LambdaOr(ls) = lambda {
                            crate::lambda::lemma_models(ls@);
                        }
                    }
                    let sub: &Lambda = match lambda {
                        Lambda::LambdaOr(ls) => &ls[i],
                        _ => lambda,
                    };
                    assert(sub@ == alternative_lambda(lambda@, i as int));
                    if !self.check_expr(&es[i], sub) {
                        return false;
                    }
                    i = i + 1;
                }
                true
            },
        }
    }

    /// Parse one expression of the rule `EXPR` from the reader, and commit
    /// what it read.
    pub fn parse_tree(&self, lexer: &Lexer, reader: &mut LineReader) -> (r: Result<AbstractSyntaxTree, String>)
        requires
            lexer.wf(),
            self.wf(),
            old(reader).wf(),
        ensures
            final(reader).wf(),
            final(reader).text() == old(reader).text(),
            final(reader).cursor().saved() == old(reader).cursor().saved(),
            !self.names().contains("EXPR"@) ==> r == Err::<AbstractSyntaxTree, String>(r->Err_0)
                && r->Err_0@ == "You need to define an Expression for EXPR"@
                && final(reader).cursor().mark() == old(reader).cursor().mark(),
            // with `EXPR` defined: what that rule gives, committed where it ends
            (forall|i: int| 0 <= i < self.names().len() && self.names()[i] == "EXPR"@ ==> ({
                let res = parse_of(*self, *lexer, self.defs()[i].expr, self.defs()[i].lambda@, old(reader).text(),
                    old(reader).cursor().mark());
                match res.0 {
                    Ok(v) => r matches Ok(ast) && ast.root@ == v && final(reader).cursor().mark() == committed(res.1),
                    Err(x) => r matches Err(t) && t@ == err_text(x) && final(reader).cursor().mark() == res.1,
                }
            })),
    {
        let expr = match self.find("EXPR") {
            Some(i) => {
                assert(self.defs()[i as int] == self.definitions@[i as int]);
                assert forall|j: int| 0 <= j < self.names().len() && self.names()[j] == "EXPR"@ implies j == i by {}
                &self.definitions[i]
            },
            None => {
                return Err("You need to define an Expression for EXPR".to_owned());
            },
        };
        let root = expr.get(lexer, self, reader)?;
        reader.commit();
        Ok(AbstractSyntaxTree::new(root))
    }
}

impl Expression {
    /// Match this expression at the reader's position, under `lambda`.
    pub fn get(&self, lexer: &Lexer, parser: &Parser, reader: &mut LineReader, lambda: &Lambda) -> (r: Result<TreeNode, String>)
        requires
            lexer.wf(),
            parser.wf(),
            old(reader).wf(),
        ensures
            kept(*old(reader), *final(reader)),
            final(reader).cursor().mark() == parse_of(*parser, *lexer, *self, lambda@, old(reader).text(), old(reader).cursor().mark()).1,
            (match parse_of(*parser, *lexer, *self, lambda@, old(reader).text(), old(reader).cursor().mark()).0 {
                Ok(v) => r matches Ok(n) && n@ == v,
                Err(x) => r matches Err(t) && t@ == err_text(x),
            }),
    {
        let flags = clear_flags(parser.definitions.len());
        proof {
            assert(flags@ =~= clear(parser.defs().len()));
            lemma_free_clear(parser.defs().len());
        }
        match self.parse(lexer, parser, reader, lambda, &flags) {
            Ok(node) => Ok(node),
            Err(e) => Err(e.message()),
        }
    }

    /// Match this expression at the reader's position, under `lambda`; the
    /// rules flagged in `flags` have been entered since input was last read.
    pub(crate) fn parse(
        &self,
        lexer: &Lexer,
        parser: &Parser,
        reader: &mut LineReader,
        lambda: &Lambda,
        flags: &Vec<bool>,
    ) -> (r: Result<TreeNode, ParseError>)
        requires
            lexer.wf(),
            parser.wf(),
            old(reader).wf(),
            flags@.len() == parser.defs().len(),
        ensures
            kept(*old(reader), *final(reader)),
            (outcome(r), final(reader).cursor().mark()) == run(*parser, *lexer, *self, lambda@, old(reader).text(),
                old(reader).cursor().mark(), flags@, free(flags@)),
        decreases old(reader).rest().len(), free(flags@), self,
    {
        let ghost text = reader.text();
        let ghost m0 = reader.cursor().mark();
        match self {
            Expression::Token(token, value) => {
                let tok = match lexer.get_next_token(token.as_str(), reader) {
                    Some(t) => t,
                    None => {
                        return Err(ParseError::NoMatch(join3("Could not find token: \"", token.as_str(), "\"")));
                    },
                };
                if !value.as_str().is_empty() && !(tok.value == *value) {
                    let head = join3("Could not find token: \"", token.as_str(), "\" with value \"");
                    return Err(ParseError::NoMatch(join3(head.as_str(), value.as_str(), "\"")));
                }
                proof {
                    assert(tok.value@.len() + reader.at() <= reader.text().len());
                }
                match reader.next(&tok) {
                    Ok(()) => {},
                    Err(e) => {
                        return Err(ParseError::NoMatch(e));
                    },
                }
                let mut node = TreeNode::from_token(tok);
                node.set_lambda(lambda);
                proof {
                    let rest = old(reader).rest();
                    assert(rest.subrange(0, tok.value@.len() as int) == tok.value@);
                    assert(node@.nodes =~= Seq::<NodeView>::empty());
                }
                Ok(node)
            },
            Expression::SubExpr(items) => {
                let start = reader.get_pointer().read_pos.1;
                let ghost n = parser.defs().len();
                let mut nodes: Vec<TreeNode> = Vec::new();
                let mut i: usize = 0;
                proof {
                    lemma_prepend_empty(seq_run(*parser, *lexer, *self, 0, text, m0, flags@, free(flags@), m0));
                    assert(node_models(nodes@) =~= Seq::<NodeView>::empty());
                }
                while i < items.len()
                    invariant
                        lexer.wf(),
                        parser.wf(),
                        flags@.len() == parser.defs().len(),
                        n == parser.defs().len(),
                        *self == Expression::SubExpr(*items),
                        start == old(reader).at(),
                        text == old(reader).text(),
                        m0 == old(reader).cursor().mark(),
                        kept(*old(reader), *reader),
                        i <= items@.len(),
                        seq_run(*parser, *lexer, *self, 0, text, m0, flags@, free(flags@), m0)
                            == prepend(node_models(nodes@), seq_run(*parser, *lexer, *self, i as int, text, m0, flags@,
                            free(flags@), reader.cursor().mark())),
                    decreases items@.len() - i,
                {
                    proof {
                        vstd::std_specs::vec::axiom_vec_index_decreases(*items, i as int);
                        assert(decreases_to!(*self => (*self)->SubExpr_0));
                    }
                    let here = reader.get_pointer().read_pos.1;
                    let eval = Lambda::Eval;
                    let ghost cur = reader.cursor().mark();
                    let res = if here > start {
                        let fresh = clear_flags(parser.definitions.len());
                        proof {
                            assert(fresh@ =~= clear(n));
                            lemma_free_clear(n);
                        }
                        items[i].parse(lexer, parser, reader, &eval, &fresh)
                    } else {
                        items[i].parse(lexer, parser, reader, &eval, flags)
                    };
                    proof {
                        assert(self->SubExpr_0@[i as int] == items@[i as int]);
                        assert(cur.1.1 >= m0.1.1 && cur.1.1 <= text.len());
                        lemma_free_clear(n);
                        assert(clear(n) =~= clear(parser.defs().len()));
                    }
                    match res {
                        Ok(node) => {
                            proof {
                                assert(seq_run(*parser, *lexer, *self, i as int, text, m0, flags@, free(flags@), cur)
                                    == prepend(seq![node@], seq_run(*parser, *lexer, *self, i as int + 1, text, m0, flags@,
                                    free(flags@), reader.cursor().mark())));
                                let ghost rest_s = seq_run(*parser, *lexer, *self, i as int + 1, text, m0, flags@, free(flags@),
                                    reader.cursor().mark());
                                lemma_prepend_assoc(node_models(nodes@), node@, rest_s);
                            }
                            let ghost before = nodes@;
                            let ghost nv = node@;
                            nodes.push(node);
                            proof {
                                assert(nodes@.drop_last() =~= before);
                                assert(node_models(nodes@) == node_models(before).push(nv));
                            }
                        },
                        Err(e) => {
                            return Err(e);
                        },
                    }
                    i = i + 1;
                }
                let mut node = TreeNode::from_nodes(nodes);
                node.set_lambda(lambda);
                proof {
                    assert(node_models(node.nodes@) + Seq::<NodeView>::empty() =~= node_models(node.nodes@));
                }
                Ok(node)
            },
            Expression::Expr(name) => {
                let idx = match parser.find(name.as_str()) {
                    Some(i) => i,
                    None => {
                        return Err(ParseError::Undefined(name.clone()));
                    },
                };
                proof {
                    let j = choose|j: int| 0 <= j < parser.names().len() && parser.names()[j] == name@;
                    assert(j == idx);
                }
                if flags[idx] {
                    return Err(ParseError::LeftRecursion(name.clone()));
                }
                let inner = set_flag(flags, idx);
                proof {
                    lemma_free_update(flags@, idx as int);
                }
                let def = &parser.definitions[idx];
                assert(parser.defs()[idx as int] == *def);
                def.expr.parse(lexer, parser, reader, &def.lambda, &inner)
            },
            Expression::ExprOr(alts) => {
                let mut i: usize = 0;
                while i < alts.len()
                    invariant
                        lexer.wf(),
                        parser.wf(),
                        flags@.len() == parser.defs().len(),
                        *self == Expression::ExprOr(*alts),
                        reader.wf(),
                        reader.text() == old(reader).text(),
                        reader.cursor().saved() == old(reader).cursor().saved(),
                        reader.cursor().mark() == old(reader).cursor().mark(),
                        text == old(reader).text(),
                        m0 == old(reader).cursor().mark(),
                        i <= alts@.len(),
                        run(*parser, *lexer, *self, lambda@, text, m0, flags@, free(flags@))
                            == choice_run(*parser, *lexer, *self, i as int, lambda@, text, m0, flags@, free(flags@)),
                    decreases alts@.len() - i,
                {
                    proof {
                        vstd::std_specs::vec::axiom_vec_index_decreases(*alts, i as int);
                        assert(decreases_to!(*self => (*self)->ExprOr_0));
                        if let Lambda::LambdaOr(ls) = lambda {
                            crate::lambda::lemma_models(ls@);
                        }
                    }
                    let sub: &Lambda = match lambda {
                        Lambda::LambdaOr(ls) => {
                            if i < ls.len() {
                                &ls[i]
                            } else {
                                let a = int_text(i as i128);
                                let b = int_text(alts.len() as i128);
                                let c = int_text(ls.len() as i128);
                                let m1 = join3("Could not get Lambda for Expression ", a.as_str(), " [");
                                let m2 = join3(m1.as_str(), b.as_str(), ">");
                                let m3 = join3(m2.as_str(), c.as_str(), "]");
                                return Err(ParseError::Grammar(m3));
                            }
                        },
                        _ => lambda,
                    };
                    reader.push();
                    proof {
                        assert(reader.cursor().saved().drop_last() =~= old(reader).cursor().saved());
                        assert(sub@ == alternative_lambda(lambda@, i as int));
                    }
                    let res = alts[i].parse(lexer, parser, reader, sub, flags);
                    match res {
                        Ok(node) => {
                            reader.pull();
                            return Ok(node);
                        },
                        Err(e) => {
                            reader.pop();
                            if !matches!(e, ParseError::NoMatch(_)) {
                                return Err(e);
                            }
                        },
                    }
                    i = i + 1;
                }
                let shown = self.render();
                proof {
                    reveal_strlit("");
                }
                Err(ParseError::NoMatch(join3("Could not find a matching expression for: ", shown.as_str(), "")))
            },
        }
    }
}

} // verus!
