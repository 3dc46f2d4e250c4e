use crate::guard::Guard;
use crate::outcome::{ExtractionError, GuardServiceResponse, OutcomeView};
use crate::projection::Projector;
use crate::tree::{narrowed, Combinator, Extraction, GuardTree, Invocation, Leaf};
use vstd::prelude::*;

verus! {

/// A right child that waits for the outcome of its left sibling.
#[verifier::reject_recursive_types(S)]
pub struct Pending<S, G> {
    /// The combinator of the node that both are children of.
    pub op: Combinator,
    /// The waiting child.
    pub right: GuardTree<S, G>,
    /// The state the waiting child is evaluated over, if it is evaluated.
    pub state: S,
}

/// Where an evaluation stands while it waits for an extractor.
#[verifier::reject_recursive_types(S)]
pub struct Position<S, G> {
    /// The right children that wait, the innermost last.
    pub pending: Seq<Pending<S, G>>,
    /// The leaf whose extractor is to run next.
    pub leaf: Leaf<G>,
    /// The state that extractor is given.
    pub state: S,
}

impl<S, G: Guard> GuardTree<S, G> {
    /// The number of leaves.
    pub open spec fn leaves(self) -> nat
        decreases self,
    {
        match self {
            GuardTree::Leaf(_) => 1,
            GuardTree::Node { op, left, right, projection } => left.leaves() + right.leaves(),
        }
    }

    /// The leaf that is evaluated first.
    pub open spec fn first_leaf(self) -> Leaf<G>
        decreases self,
    {
        match self {
            GuardTree::Leaf(leaf) => leaf,
            GuardTree::Node { op, left, right, projection } => left.first_leaf(),
        }
    }

    /// The right children passed on the way down to the first leaf, the outermost
    /// first, when the tree is evaluated over `state`.
    pub open spec fn spine(self, state: S) -> Seq<Pending<S, G>>
        decreases self,
    {
        match self {
            GuardTree::Leaf(_) => Seq::empty(),
            GuardTree::Node { op, left, right, projection } => seq![
                Pending { op, right: *right, state: narrowed(projection, state) },
            ] + left.spine(state),
        }
    }
}

impl<S, G: Guard> Position<S, G> {
    /// The position at which the evaluation of `tree` over `state` starts.
    pub open spec fn start(tree: GuardTree<S, G>, state: S) -> Self {
        Position { pending: tree.spine(state), leaf: tree.first_leaf(), state }
    }

    /// The position at which an evaluation goes on once the leaf below `pending`
    /// has come out as `outcome`, or `None` if `outcome` is final.
    ///
    /// The innermost waiting child whose combinator proceeds on `outcome` is
    /// entered; the children inside it are dropped unevaluated.
    pub open spec fn resumption(pending: Seq<Pending<S, G>>, outcome: OutcomeView) -> Option<Self>
        decreases pending.len(),
    {
        if pending.len() == 0 {
            None
        } else {
            let next = pending.last();
            if next.op.proceeds(outcome) {
                Some(
                    Position {
                        pending: pending.drop_last() + next.right.spine(next.state),
                        leaf: next.right.first_leaf(),
                        state: next.state,
                    },
                )
            } else {
                Self::resumption(pending.drop_last(), outcome)
            }
        }
    }
}

/// A tree has fewer leaves waiting on its way down to the first leaf than it has
/// leaves.
proof fn lemma_spine_remaining<S, G: Guard>(tree: GuardTree<S, G>, state: S, base: Seq<Pending<S, G>>)
    ensures
        Position::remaining(base + tree.spine(state)) + 1 == Position::remaining(base) + tree.leaves(),
    decreases tree,
{
    match tree {
        GuardTree::Leaf(_) => {
            assert(base + tree.spine(state) =~= base);
        },
        GuardTree::Node { op, left, right, projection } => {
            let frame = Pending { op, right: *right, state: narrowed(projection, state) };
            let outer = base + seq![frame];
            assert(base + tree.spine(state) =~= outer + left.spine(state));
            assert(outer.last() == frame);
            assert(outer.drop_last() =~= base);
            lemma_spine_remaining(*left, state, outer);
        },
    }
}

/// Resuming leaves fewer leaves waiting than there were.
pub proof fn lemma_resumption_shrinks<S, G: Guard>(pending: Seq<Pending<S, G>>, outcome: OutcomeView)
    ensures
        Position::resumption(pending, outcome) matches Some(next) ==> Position::remaining(next.pending)
            < Position::remaining(pending),
    decreases pending.len(),
{
    if pending.len() > 0 {
        let next = pending.last();
        if next.op.proceeds(outcome) {
            lemma_spine_remaining(next.right, next.state, pending.drop_last());
        } else {
            lemma_resumption_shrinks(pending.drop_last(), outcome);
        }
    }
}

impl<S, G: Guard> Position<S, G> {
    /// The number of leaves in the waiting children.
    pub open spec fn remaining(pending: Seq<Pending<S, G>>) -> nat
        decreases pending.len(),
    {
        if pending.len() == 0 {
            0
        } else {
            Self::remaining(pending.drop_last()) + pending.last().right.leaves()
        }
    }

    /// What an evaluation ends with when it is driven step by step from this
    /// position: the awaited extractor runs on `metadata`, the evaluation resumes
    /// with what it produced, and so on from the position it resumes at until no
    /// position is left.
    pub open spec fn drive<M>(self, extract: Extraction<S, G, M>, metadata: M) -> (OutcomeView, M)
        decreases Self::remaining(self.pending),
    {
        let (extracted, after) = extract(self.invocation(metadata));
        let outcome = self.leaf.outcome(extracted);
        match Self::resumption(self.pending, outcome) {
            Some(next) => {
                proof {
                    lemma_resumption_shrinks(self.pending, outcome);
                }
                next.drive(extract, after)
            },
            None => (outcome, after),
        }
    }

    /// The extractor runs of an evaluation that is driven step by step from this
    /// position, in order.
    pub open spec fn journal<M>(self, extract: Extraction<S, G, M>, metadata: M) -> Seq<
        Invocation<S, G, M>,
    >
        decreases Self::remaining(self.pending),
    {
        let (extracted, after) = extract(self.invocation(metadata));
        let outcome = self.leaf.outcome(extracted);
        seq![self.invocation(metadata)] + match Self::resumption(self.pending, outcome) {
            Some(next) => {
                proof {
                    lemma_resumption_shrinks(self.pending, outcome);
                }
                next.journal(extract, after)
            },
            None => Seq::empty(),
        }
    }

    /// The outcome and metadata that the waiting children in `pending` turn
    /// `outcome` and `metadata` into, when extraction behaves as `extract`.
    pub open spec fn conclude<M>(
        pending: Seq<Pending<S, G>>,
        extract: Extraction<S, G, M>,
        outcome: OutcomeView,
        metadata: M,
    ) -> (OutcomeView, M)
        decreases pending.len(),
    {
        if pending.len() == 0 {
            (outcome, metadata)
        } else {
            let next = pending.last();
            if next.op.proceeds(outcome) {
                let (entered, after) = next.right.evaluate(extract, next.state, metadata);
                Self::conclude(pending.drop_last(), extract, entered, after)
            } else {
                Self::conclude(pending.drop_last(), extract, outcome, metadata)
            }
        }
    }

    /// The extractor runs still caused by the waiting children in `pending`.
    pub open spec fn outstanding<M>(
        pending: Seq<Pending<S, G>>,
        extract: Extraction<S, G, M>,
        outcome: OutcomeView,
        metadata: M,
    ) -> Seq<Invocation<S, G, M>>
        decreases pending.len(),
    {
        if pending.len() == 0 {
            Seq::empty()
        } else {
            let next = pending.last();
            if next.op.proceeds(outcome) {
                let (entered, after) = next.right.evaluate(extract, next.state, metadata);
                next.right.trace(extract, next.state, metadata) + Self::outstanding(
                    pending.drop_last(),
                    extract,
                    entered,
                    after,
                )
            } else {
                Self::outstanding(pending.drop_last(), extract, outcome, metadata)
            }
        }
    }

    /// The extractor run that the position waits for.
    pub open spec fn invocation<M>(self, metadata: M) -> Invocation<S, G, M> {
        Invocation { leaf: self.leaf, state: self.state, metadata }
    }

    /// What the evaluation ends with when it is driven on from this position with
    /// `metadata` and extraction behaves as `extract`.
    pub open spec fn completion<M>(
        self,
        extract: Extraction<S, G, M>,
        metadata: M,
    ) -> (OutcomeView, M) {
        let (extracted, after) = extract(self.invocation(metadata));
        Self::conclude(self.pending, extract, self.leaf.outcome(extracted), after)
    }

    /// The extractor runs from this position on, the awaited one first.
    pub open spec fn schedule<M>(
        self,
        extract: Extraction<S, G, M>,
        metadata: M,
    ) -> Seq<Invocation<S, G, M>> {
        let (extracted, after) = extract(self.invocation(metadata));
        seq![self.invocation(metadata)] + Self::outstanding(
            self.pending,
            extract,
            self.leaf.outcome(extracted),
            after,
        )
    }
}

/// A waiting right child, as the running evaluation holds it.
#[verifier::reject_recursive_types(S)]
struct Frame<'a, S, G> {
    op: Combinator,
    right: &'a GuardTree<S, G>,
    projection: &'a Option<Projector<S>>,
    /// How many projected states are in scope at the node.
    depth: usize,
}

/// The state in scope at `depth`: the root state, or the projected state entered
/// last.
spec fn ambient<S>(root: S, scopes: Seq<S>, depth: int) -> S {
    if depth == 0 {
        root
    } else {
        scopes[depth - 1]
    }
}

spec fn frame_view<S, G: Guard>(frame: Frame<S, G>, root: S, scopes: Seq<S>) -> Pending<S, G> {
    Pending {
        op: frame.op,
        right: *frame.right,
        state: narrowed(*frame.projection, ambient(root, scopes, frame.depth as int)),
    }
}

spec fn frames_view<S, G: Guard>(
    frames: Seq<Frame<S, G>>,
    root: S,
    scopes: Seq<S>,
) -> Seq<Pending<S, G>> {
    Seq::new(frames.len(), |i: int| frame_view(frames[i], root, scopes))
}

/// The frames refer to scopes that exist, outer frames to outer scopes.
spec fn frames_fit<S, G: Guard>(frames: Seq<Frame<S, G>>, scopes: int) -> bool {
    &&& forall|i: int| 0 <= i < frames.len() ==> (#[trigger] frames[i]).depth <= scopes
    &&& forall|i: int, j: int|
        0 <= i <= j < frames.len() ==> (#[trigger] frames[i]).depth <= (#[trigger] frames[j]).depth
}

/// One evaluation of a tree against one request, suspended at a leaf.
///
/// Extraction is not done here. Whoever drives the evaluation runs the extractor
/// of the awaited leaf on `state()` and the request metadata, and hands what came
/// back to `resume`, which either names the next leaf or ends the evaluation.
/// Nothing runs in between, and an evaluation that is dropped is over: no
/// extractor is asked for that its driver did not get to.
///
/// An evaluation only reads the tree and the state it was started on, and keeps
/// what it changes to itself, so evaluations of one tree do not affect each
/// other.
#[verifier::reject_recursive_types(S)]
pub struct Evaluation<'a, S, G: Guard> {
    root: &'a S,
    scopes: Vec<S>,
    frames: Vec<Frame<'a, S, G>>,
    leaf: &'a Leaf<G>,
}

/// What an evaluation asks of its driver next.
#[verifier::reject_recursive_types(S)]
pub enum Step<'a, S, G: Guard, M> {
    /// Run the extractor of the awaited leaf on this metadata.
    Extract(Evaluation<'a, S, G>, M),
    /// The evaluation is over.
    Done(GuardServiceResponse<M>),
}

impl<'a, S, G: Guard> View for Evaluation<'a, S, G> {
    type V = Position<S, G>;

    closed spec fn view(&self) -> Position<S, G> {
        Position {
            pending: frames_view(self.frames@, *self.root, self.scopes@),
            leaf: *self.leaf,
            state: ambient(*self.root, self.scopes@, self.scopes@.len() as int),
        }
    }
}

impl<'a, S, G: Guard> Evaluation<'a, S, G> {
    #[verifier::type_invariant]
    spec fn fits(self) -> bool {
        frames_fit::<S, G>(self.frames@, self.scopes@.len() as int)
    }

    /// Walks down to the first leaf of `tree`, leaving every right child passed on
    /// the way as a waiting frame on top of `outer`.
    fn descend(
        root: &'a S,
        scopes: Vec<S>,
        outer: Vec<Frame<'a, S, G>>,
        tree: &'a GuardTree<S, G>,
    ) -> (evaluation: Self)
        requires
            frames_fit::<S, G>(outer@, scopes@.len() as int),
        ensures
            evaluation@.pending == frames_view(outer@, *root, scopes@) + tree.spine(
                ambient(*root, scopes@, scopes@.len() as int),
            ),
            evaluation@.leaf == tree.first_leaf(),
            evaluation@.state == ambient(*root, scopes@, scopes@.len() as int),
    {
        let depth: usize = scopes.len();
        let ghost state = ambient(*root, scopes@, scopes@.len() as int);
        let ghost base = frames_view(outer@, *root, scopes@);
        let mut frames = outer;
        let mut node = tree;
        loop
            invariant
                depth == scopes@.len(),
                state == ambient(*root, scopes@, scopes@.len() as int),
                base == frames_view(outer@, *root, scopes@),
                frames_fit::<S, G>(frames@, scopes@.len() as int),
                frames_view(frames@, *root, scopes@) + node.spine(state) == base + tree.spine(state),
                node.first_leaf() == tree.first_leaf(),
            decreases node,
        {
            match node {
                GuardTree::Leaf(leaf) => {
                    assert(frames_view(frames@, *root, scopes@) + node.spine(state) =~= frames_view(
                        frames@,
                        *root,
                        scopes@,
                    ));
                    return Evaluation { root, scopes, frames, leaf };
                },
                GuardTree::Node { op, left, right, projection } => {
                    let ghost before = frames@;
                    let frame = Frame { op: *op, right: &**right, projection, depth };
                    frames.push(frame);
                    assert(frames_view(frames@, *root, scopes@) + left.spine(state) =~= frames_view(
                        before,
                        *root,
                        scopes@,
                    ) + node.spine(state));
                    node = &**left;
                },
            }
        }
    }

    /// Starts the evaluation of `tree` over `state`.
    pub fn begin(tree: &'a GuardTree<S, G>, state: &'a S) -> (evaluation: Self)
        ensures
            evaluation@ == Position::start(*tree, *state),
    {
        let evaluation = Self::descend(state, Vec::new(), Vec::new(), tree);
        assert(evaluation@.pending =~= tree.spine(*state));
        evaluation
    }

    /// Goes on with the evaluation once the extractor of the awaited leaf has run.
    ///
    /// `extracted` is what the extractor produced, `metadata` the request metadata
    /// as it left them. The leaf's outcome decides which waiting children are
    /// skipped. If one is entered, the projection of its node, if it has one, is
    /// applied once, and the evaluation stops at that child's first leaf, handing
    /// the metadata back for it. Otherwise the leaf's outcome is that of the whole
    /// tree.
    pub fn resume<M>(self, extracted: Result<G, ExtractionError>, metadata: M) -> (step: Step<
        'a,
        S,
        G,
        M,
    >)
        ensures
            match Position::resumption(self@.pending, self@.leaf.outcome(extracted)) {
                Some(next) => step matches Step::Extract(evaluation, handed) && evaluation@ == next
                    && handed == metadata,
                None => step matches Step::Done(response) && response.0@ == self@.leaf.outcome(
                    extracted,
                ) && response.1 == metadata,
            },
    {
        proof {
            use_type_invariant(&self);
        }
        let ghost start = self@;
        let Evaluation { root, scopes, frames, leaf } = self;
        let outcome = leaf.judge(extracted);
        let mut frames = frames;
        let mut scopes = scopes;
        loop
            invariant
                start == self@,
                frames_fit::<S, G>(frames@, scopes@.len() as int),
                outcome@ == start.leaf.outcome(extracted),
                Position::resumption(frames_view(frames@, *root, scopes@), outcome@)
                    == Position::resumption(start.pending, outcome@),
            decreases frames.len(),
        {
            let ghost waiting = frames_view(frames@, *root, scopes@);
            match frames.pop() {
                None => {
                    return Step::Done(GuardServiceResponse(outcome, metadata));
                },
                Some(frame) => {
                    assert(waiting.last() == frame_view(frame, *root, scopes@));
                    assert(waiting.drop_last() =~= frames_view(frames@, *root, scopes@));
                    if frame.op.continues(&outcome) {
                        let ghost outer = frames_view(frames@, *root, scopes@);
                        let ghost entered = frame_view(frame, *root, scopes@);
                        scopes.truncate(frame.depth);
                        match frame.projection {
                            Some(projection) => {
                                let state = if frame.depth == 0 {
                                    projection.project(root)
                                } else {
                                    projection.project(&scopes[frame.depth - 1])
                                };
                                scopes.push(state);
                            },
                            None => {},
                        }
                        assert(frames_view(frames@, *root, scopes@) =~= outer);
                        assert(ambient(*root, scopes@, scopes@.len() as int) == entered.state);
                        let evaluation = Self::descend(root, scopes, frames, frame.right);
                        return Step::Extract(evaluation, metadata);
                    }
                },
            }
        }
    }

    /// The state that the extractor of the awaited leaf is given.
    pub fn state(&self) -> (state: &S)
        ensures
            *state == self@.state,
    {
        let depth: usize = self.scopes.len();
        if depth == 0 {
            self.root
        } else {
            &self.scopes[depth - 1]
        }
    }

    /// The leaf whose extractor is to run.
    pub fn awaited(&self) -> (leaf: &Leaf<G>)
        ensures
            *leaf == self@.leaf,
    {
        self.leaf
    }
}

} // verus!
