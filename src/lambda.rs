//! Evaluation instructions: how a syntax-tree node is reduced to a value.

use vstd::prelude::*;

verus! {

/// How a node of the syntax tree is to be evaluated.
#[derive(Debug, PartialEq)]
pub enum Lambda {
    /// For an ordered choice: the instruction of each alternative, by position.
    LambdaOr(Vec<Lambda>),
    /// Call the named operation on the children at these 1-based indices.
    Lambda(String, Vec<u32>),
    /// Evaluate the child at this 1-based index under the given instruction.
    GetExpr(u32, Box<Lambda>),
    /// Evaluate the node by its own instruction.
    Eval,
    /// Call the named operation with no arguments.
    EvalAs(String),
    /// Take the leaf's token as a literal.
    EvalToken,
}

/// The value of an instruction, with text as characters.
pub enum LambdaView {
    Or(Seq<LambdaView>),
    Call(Seq<char>, Seq<u32>),
    Get(u32, Box<LambdaView>),
    Eval,
    As(Seq<char>),
    Token,
}

impl Lambda {
    /// The value of the instruction.
    pub open spec fn model(&self) -> LambdaView
        decreases self,
    {
        match self {
            Lambda::LambdaOr(ls) => LambdaView::Or(models(ls@)),
            Lambda::Lambda(name, args) => LambdaView::Call(name@, args@),
            Lambda::GetExpr(i, sub) => LambdaView::Get(*i, Box::new((**sub).model())),
            Lambda::Eval => LambdaView::Eval,
            Lambda::EvalAs(name) => LambdaView::As(name@),
            Lambda::EvalToken => LambdaView::Token,
        }
    }
}

/// The values of a list of instructions.
pub open spec fn models(ls: Seq<Lambda>) -> Seq<LambdaView>
    decreases ls,
{
    if ls.len() == 0 {
        Seq::empty()
    } else {
        models(ls.drop_last()).push(ls.last().model())
    }
}

/// The values of a list of instructions, element by element.
pub proof fn lemma_models(ls: Seq<Lambda>)
    ensures
        models(ls).len() == ls.len(),
        forall|j: int| 0 <= j < ls.len() ==> #[trigger] models(ls)[j] == ls[j].model(),
    decreases ls.len(),
{
    if ls.len() > 0 {
        lemma_models(ls.drop_last());
    }
}

impl View for Lambda {
    type V = LambdaView;

    open spec fn view(&self) -> LambdaView {
        self.model()
    }
}

/// The instruction a node carries once it is built.
pub type OwnedLambda = Lambda;

/// A copy of `v`, element by element.
fn copy_indices(v: &Vec<u32>) -> (r: Vec<u32>)
    ensures
        r@ == v@,
{
    let mut out: Vec<u32> = Vec::new();
    let mut i: usize = 0;
    while i < v.len()
        invariant
            i <= v@.len(),
            out@ == v@.subrange(0, i as int),
        decreases v@.len() - i,
    {
        out.push(v[i]);
        i = i + 1;
        assert(out@ =~= v@.subrange(0, i as int));
    }
    assert(out@ =~= v@);
    out
}

impl Clone for Lambda {
    /// An equal instruction.
    fn clone(&self) -> (r: Lambda)
        ensures
            r@ == self@,
        decreases self,
    {
        match self {
            Lambda::LambdaOr(ls) => {
                let mut out: Vec<Lambda> = Vec::new();
                let mut i: usize = 0;
                while i < ls.len()
                    invariant
                        i <= ls@.len(),
                        out@.len() == i,
                        *self == Lambda::LambdaOr(*ls),
                        forall|j: int| 0 <= j < i ==> (#[trigger] out@[j])@ == ls@[j]@,
                    decreases ls@.len() - i,
                {
                    proof {
                        vstd::std_specs::vec::axiom_vec_index_decreases(*ls, i as int);
                        assert(decreases_to!(*self => (*self)->LambdaOr_0));
                        assert(decreases_to!(*self => ls[i as int]));
                    }
                    let c = ls[i].clone();
                    out.push(c);
                    i = i + 1;
                }
                let r = Lambda::LambdaOr(out);
                proof {
                    lemma_models(out@);
                    lemma_models(ls@);
                    assert(models(out@) =~= models(ls@));
                }
                r
            },
            Lambda::Lambda(name, args) => Lambda::Lambda(name.clone(), copy_indices(args)),
            Lambda::GetExpr(i, sub) => Lambda::GetExpr(*i, Box::new((**sub).clone())),
            Lambda::Eval => Lambda::Eval,
            Lambda::EvalAs(name) => Lambda::EvalAs(name.clone()),
            Lambda::EvalToken => Lambda::EvalToken,
        }
    }
}

} // verus!
