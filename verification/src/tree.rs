use crate::guard::Guard;
use crate::outcome::{EvaluationOutcome, ExtractionError, OutcomeView};
use crate::projection::Projector;
use vstd::prelude::*;

verus! {

/// How a node combines its two children.
#[derive(Clone, Copy, Debug, PartialEq, Eq, Structural)]
pub enum Combinator {
    And,
    Or,
}

impl Combinator {
    /// Whether the right child is evaluated once the left child has come out as
    /// `outcome`. `And` goes on only after `Allowed`, `Or` only after `Denied`; a
    /// failed extraction never goes on.
    pub open spec fn proceeds(self, outcome: OutcomeView) -> bool {
        match self {
            Combinator::And => outcome is Allowed,
            Combinator::Or => outcome is Denied,
        }
    }

    /// Decides whether the right child is evaluated after the left child's outcome.
    pub fn continues(self, outcome: &EvaluationOutcome) -> (go: bool)
        ensures
            go == self.proceeds(outcome@),
    {
        match self {
            Combinator::And => match outcome {
                EvaluationOutcome::Allowed => true,
                _ => false,
            },
            Combinator::Or => match outcome {
                EvaluationOutcome::Denied(_) => true,
                _ => false,
            },
        }
    }
}

/// One guard of a tree: the value its extraction is expected to match, and the
/// message that explains a denial.
pub struct Leaf<G> {
    pub expected_guard: G,
    pub err_msg: Option<&'static str>,
}

impl<G: Guard> Leaf<G> {
    /// The message a denial by this leaf carries.
    pub open spec fn denial(&self) -> Option<Seq<char>> {
        match self.err_msg {
            Some(message) => Some(message@),
            None => None,
        }
    }

    /// The outcome of this leaf, given what its extractor produced.
    pub open spec fn outcome(&self, extracted: Result<G, ExtractionError>) -> OutcomeView {
        match extracted {
            Err(error) => OutcomeView::ExtractionFailed(error@),
            Ok(guard) => if guard.matches(&self.expected_guard) {
                OutcomeView::Allowed
            } else {
                OutcomeView::Denied(self.denial())
            },
        }
    }

    /// Turns what the extractor produced into this leaf's outcome: a failure is
    /// passed on as it is, a guard value is compared with the expected one.
    pub fn judge(&self, extracted: Result<G, ExtractionError>) -> (outcome: EvaluationOutcome)
        ensures
            outcome@ == self.outcome(extracted),
    {
        match extracted {
            Err(error) => EvaluationOutcome::ExtractionFailed(error),
            Ok(guard) => {
                if guard.check_guard(&self.expected_guard) {
                    EvaluationOutcome::Allowed
                } else {
                    match self.err_msg {
                        Some(message) => EvaluationOutcome::Denied(Some(message.to_owned())),
                        None => EvaluationOutcome::Denied(None),
                    }
                }
            },
        }
    }
}

/// A boolean expression over guards that are evaluated over a state of type `S`.
///
/// A node with `projection: Some(p)` is the state-projecting form of its
/// combinator: its right child is evaluated over `p` of the state that the node
/// itself is evaluated over.
#[verifier::reject_recursive_types(S)]
pub enum GuardTree<S, G> {
    Leaf(Leaf<G>),
    Node {
        op: Combinator,
        left: Box<GuardTree<S, G>>,
        right: Box<GuardTree<S, G>>,
        projection: Option<Projector<S>>,
    },
}

/// The state that the right child of a node sees when the node sees `state`.
pub open spec fn narrowed<S>(projection: Option<Projector<S>>, state: S) -> S {
    match projection {
        Some(p) => p.apply(state),
        None => state,
    }
}

/// One run of an extractor: the leaf it runs for, and the state and the request
/// metadata it is given.
pub struct Invocation<S, G, M> {
    pub leaf: Leaf<G>,
    pub state: S,
    pub metadata: M,
}

/// How extraction behaves: what a run of an extractor produces, and the request
/// metadata as the run leaves them.
pub type Extraction<S, G, M> = spec_fn(Invocation<S, G, M>) -> (Result<G, ExtractionError>, M);

impl<S, G, M> Invocation<S, G, M> {
    /// The run ends without a guard value when extraction behaves as `extract`.
    pub open spec fn fails(self, extract: Extraction<S, G, M>) -> bool {
        extract(self).0 is Err
    }
}

/// Extraction that only reads the request metadata: every run returns them as it
/// was given them.
pub open spec fn keeps_metadata<S, G, M>(extract: Extraction<S, G, M>) -> bool {
    forall|invocation: Invocation<S, G, M>| (#[trigger] extract(invocation)).1 == invocation.metadata
}

impl<S, G: Guard> GuardTree<S, G> {
    /// The tree that combines `left` and `right` by `op`, the right child under
    /// `projection` if there is one.
    pub open spec fn node(
        op: Combinator,
        left: Self,
        right: Self,
        projection: Option<Projector<S>>,
    ) -> Self {
        GuardTree::Node { op, left: Box::new(left), right: Box::new(right), projection }
    }

    /// A single guard that denies with `err_msg`.
    pub fn leaf(expected_guard: G, err_msg: &'static str) -> (tree: Self)
        ensures
            tree == GuardTree::<S, G>::Leaf(Leaf { expected_guard, err_msg: Some(err_msg) }),
    {
        GuardTree::Leaf(Leaf { expected_guard, err_msg: Some(err_msg) })
    }

    /// A single guard that denies without a message.
    pub fn quiet(expected_guard: G) -> (tree: Self)
        ensures
            tree == GuardTree::<S, G>::Leaf(Leaf { expected_guard, err_msg: None }),
    {
        GuardTree::Leaf(Leaf { expected_guard, err_msg: None })
    }

    /// Combines two trees into one node.
    pub fn combine(
        op: Combinator,
        left: Self,
        right: Self,
        projection: Option<Projector<S>>,
    ) -> (tree: Self)
        ensures
            tree == Self::node(op, left, right, projection),
    {
        GuardTree::Node { op, left: Box::new(left), right: Box::new(right), projection }
    }

    /// No node of the tree narrows the state for its right child.
    pub open spec fn unprojected(self) -> bool
        decreases self,
    {
        match self {
            GuardTree::Leaf(_) => true,
            GuardTree::Node { op, left, right, projection } => {
                &&& left.unprojected()
                &&& right.unprojected()
                &&& projection is None
            },
        }
    }

    /// The outcome of evaluating the tree over `state`, and the metadata the
    /// evaluation leaves behind, when extraction behaves as `extract`.
    ///
    /// A leaf runs its extractor and judges what it produced. A node evaluates
    /// its left child first. Only if the combinator proceeds on that outcome is
    /// the right child evaluated, on the metadata the left child left behind, and
    /// then the right child's outcome is the node's; otherwise the left child's
    /// is. Either way the node's outcome, with its denial message, is that of the
    /// child that was evaluated last.
    pub open spec fn evaluate<M>(
        self,
        extract: Extraction<S, G, M>,
        state: S,
        metadata: M,
    ) -> (OutcomeView, M)
        decreases self,
    {
        match self {
            GuardTree::Leaf(leaf) => {
                let (extracted, after) = extract(Invocation { leaf, state, metadata });
                (leaf.outcome(extracted), after)
            },
            GuardTree::Node { op, left, right, projection } => {
                let (outcome, after) = left.evaluate(extract, state, metadata);
                if op.proceeds(outcome) {
                    right.evaluate(extract, narrowed(projection, state), after)
                } else {
                    (outcome, after)
                }
            },
        }
    }

    /// The extractor runs that evaluating the tree causes, in order.
    pub open spec fn trace<M>(
        self,
        extract: Extraction<S, G, M>,
        state: S,
        metadata: M,
    ) -> Seq<Invocation<S, G, M>>
        decreases self,
    {
        match self {
            GuardTree::Leaf(leaf) => seq![Invocation { leaf, state, metadata }],
            GuardTree::Node { op, left, right, projection } => {
                let (outcome, after) = left.evaluate(extract, state, metadata);
                left.trace(extract, state, metadata) + if op.proceeds(outcome) {
                    right.trace(extract, narrowed(projection, state), after)
                } else {
                    Seq::empty()
                }
            },
        }
    }
}

} // verus!
