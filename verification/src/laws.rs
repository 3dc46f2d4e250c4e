use crate::evaluation::{lemma_resumption_shrinks, Pending, Position};
use crate::guard::Guard;
use crate::outcome::OutcomeView;
use crate::projection::Projector;
use crate::tree::{keeps_metadata, narrowed, Combinator, Extraction, GuardTree, Invocation, Leaf};
use vstd::prelude::*;

verus! {

/// Stopping at the first leaf of `tree` with `base` waiting outside of it ends as
/// evaluating `tree` and then settling `base` does, and runs the same extractors.
proof fn lemma_descent<S, G: Guard, M>(
    tree: GuardTree<S, G>,
    state: S,
    base: Seq<Pending<S, G>>,
    extract: Extraction<S, G, M>,
    metadata: M,
)
    ensures
        ({
            let position = Position { pending: base + tree.spine(state), leaf: tree.first_leaf(), state };
            let (outcome, after) = tree.evaluate(extract, state, metadata);
            &&& position.completion(extract, metadata) == Position::conclude(base, extract, outcome, after)
            &&& position.schedule(extract, metadata) == tree.trace(extract, state, metadata)
                + Position::outstanding(base, extract, outcome, after)
        }),
    decreases tree,
{
    match tree {
        GuardTree::Leaf(leaf) => {
            assert(base + tree.spine(state) =~= base);
        },
        GuardTree::Node { op, left, right, projection } => {
            let frame = Pending { op, right: *right, state: narrowed(projection, state) };
            let outer = base + seq![frame];
            assert(base + tree.spine(state) =~= outer + left.spine(state));
            assert(outer.last() == frame);
            assert(outer.drop_last() =~= base);
            lemma_descent(*left, state, outer, extract, metadata);
            let (outcome, after) = left.evaluate(extract, state, metadata);
            if op.proceeds(outcome) {
                let (entered, last) = right.evaluate(extract, frame.state, after);
                assert(tree.trace(extract, state, metadata) + Position::outstanding(
                    base,
                    extract,
                    entered,
                    last,
                ) =~= left.trace(extract, state, metadata) + (right.trace(extract, frame.state, after)
                    + Position::outstanding(base, extract, entered, last)));
            } else {
                assert(tree.trace(extract, state, metadata) =~= left.trace(extract, state, metadata));
            }
        },
    }
}

/// Evaluating step by step from the start ends as the tree's evaluation does and
/// runs exactly the extractors of its trace, in the same order.
pub proof fn law_start<S, G: Guard, M>(
    tree: GuardTree<S, G>,
    state: S,
    extract: Extraction<S, G, M>,
    metadata: M,
)
    ensures
        Position::start(tree, state).completion(extract, metadata) == tree.evaluate(
            extract,
            state,
            metadata,
        ),
        Position::start(tree, state).schedule(extract, metadata) == tree.trace(extract, state, metadata),
{
    lemma_descent(tree, state, Seq::empty(), extract, metadata);
    assert(Seq::<Pending<S, G>>::empty() + tree.spine(state) =~= tree.spine(state));
    let (outcome, after) = tree.evaluate(extract, state, metadata);
    assert(tree.trace(extract, state, metadata) + Position::<S, G>::outstanding(
        Seq::empty(),
        extract,
        outcome,
        after,
    ) =~= tree.trace(extract, state, metadata));
}

/// Settling the waiting children in one go and resuming at the position that
/// `resumption` names come to the same end and the same extractor runs.
proof fn lemma_resumption<S, G: Guard, M>(
    pending: Seq<Pending<S, G>>,
    extract: Extraction<S, G, M>,
    outcome: OutcomeView,
    metadata: M,
)
    ensures
        match Position::resumption(pending, outcome) {
            Some(next) => {
                &&& Position::conclude(pending, extract, outcome, metadata) == next.completion(
                    extract,
                    metadata,
                )
                &&& Position::outstanding(pending, extract, outcome, metadata) == next.schedule(
                    extract,
                    metadata,
                )
            },
            None => {
                &&& Position::conclude(pending, extract, outcome, metadata) == (outcome, metadata)
                &&& Position::outstanding(pending, extract, outcome, metadata) == Seq::<
                    Invocation<S, G, M>,
                >::empty()
            },
        },
    decreases pending.len(),
{
    if pending.len() > 0 {
        let next = pending.last();
        if next.op.proceeds(outcome) {
            lemma_descent(next.right, next.state, pending.drop_last(), extract, metadata);
        } else {
            lemma_resumption(pending.drop_last(), extract, outcome, metadata);
        }
    }
}

/// One step of a driven evaluation keeps its end and its extractor runs.
///
/// When the awaited extractor has run on `metadata`, either the evaluation is
/// over, with the leaf's outcome and the metadata the extractor returned, or it
/// goes on at the position `resumption` names, and what it ends with from there is
/// what it was going to end with before the step.
pub proof fn law_step<S, G: Guard, M>(
    position: Position<S, G>,
    extract: Extraction<S, G, M>,
    metadata: M,
)
    ensures
        ({
            let (extracted, after) = extract(position.invocation(metadata));
            let outcome = position.leaf.outcome(extracted);
            match Position::resumption(position.pending, outcome) {
                Some(next) => {
                    &&& position.completion(extract, metadata) == next.completion(extract, after)
                    &&& position.schedule(extract, metadata) == seq![position.invocation(metadata)]
                        + next.schedule(extract, after)
                },
                None => {
                    &&& position.completion(extract, metadata) == (outcome, after)
                    &&& position.schedule(extract, metadata) == seq![position.invocation(metadata)]
                },
            }
        }),
{
    let (extracted, after) = extract(position.invocation(metadata));
    let outcome = position.leaf.outcome(extracted);
    lemma_resumption(position.pending, extract, outcome, after);
    if Position::resumption(position.pending, outcome) is None {
        assert(seq![position.invocation(metadata)] + Seq::<Invocation<S, G, M>>::empty() =~= seq![
            position.invocation(metadata),
        ]);
    }
}

/// Driving an evaluation step by step ends as settling its waiting children in
/// one go does.
proof fn lemma_drive<S, G: Guard, M>(
    position: Position<S, G>,
    extract: Extraction<S, G, M>,
    metadata: M,
)
    ensures
        position.drive(extract, metadata) == position.completion(extract, metadata),
        position.journal(extract, metadata) == position.schedule(extract, metadata),
    decreases Position::remaining(position.pending),
{
    let (extracted, after) = extract(position.invocation(metadata));
    let outcome = position.leaf.outcome(extracted);
    law_step(position, extract, metadata);
    match Position::resumption(position.pending, outcome) {
        Some(next) => {
            lemma_resumption_shrinks(position.pending, outcome);
            lemma_drive(next, extract, after);
        },
        None => {},
    }
}

/// The engine is sound: an evaluation that is started on a tree and driven step
/// by step, each awaited extractor run on the metadata the one before it left
/// behind, ends with the outcome and the metadata of the tree's evaluation, and
/// the extractors it runs are those of the tree's trace, in the same order.
pub proof fn law_driven_evaluation<S, G: Guard, M>(
    tree: GuardTree<S, G>,
    state: S,
    extract: Extraction<S, G, M>,
    metadata: M,
)
    ensures
        Position::start(tree, state).drive(extract, metadata) == tree.evaluate(extract, state, metadata),
        Position::start(tree, state).journal(extract, metadata) == tree.trace(extract, state, metadata),
{
    lemma_drive(Position::start(tree, state), extract, metadata);
    law_start(tree, state, extract, metadata);
}

/// An `And` node allows exactly when both children allow: the left one on the
/// metadata the node is given, the right one on the metadata the left one left
/// behind and over the state the node gives it.
pub proof fn law_and_allows_iff_both<S, G: Guard, M>(
    left: GuardTree<S, G>,
    right: GuardTree<S, G>,
    projection: Option<Projector<S>>,
    extract: Extraction<S, G, M>,
    state: S,
    metadata: M,
)
    ensures
        ({
            let tree = GuardTree::node(Combinator::And, left, right, projection);
            let (first, after) = left.evaluate(extract, state, metadata);
            let (second, _) = right.evaluate(extract, narrowed(projection, state), after);
            tree.evaluate(extract, state, metadata).0 is Allowed <==> first is Allowed
                && second is Allowed
        }),
{
}

/// An `Or` node whose left child's extractions all succeed allows exactly when
/// at least one child allows, the right one taken on the metadata the left one
/// left behind and over the state the node gives it.
///
/// A failed extraction on the left is excluded because it ends the evaluation:
/// the node then fails whatever the right child would have said.
pub proof fn law_or_allows_iff_either<S, G: Guard, M>(
    left: GuardTree<S, G>,
    right: GuardTree<S, G>,
    projection: Option<Projector<S>>,
    extract: Extraction<S, G, M>,
    state: S,
    metadata: M,
)
    requires
        !(left.evaluate(extract, state, metadata).0 is ExtractionFailed),
    ensures
        ({
            let tree = GuardTree::node(Combinator::Or, left, right, projection);
            let (first, after) = left.evaluate(extract, state, metadata);
            let (second, _) = right.evaluate(extract, narrowed(projection, state), after);
            tree.evaluate(extract, state, metadata).0 is Allowed <==> first is Allowed
                || second is Allowed
        }),
{
}

/// Where extractors only read the metadata, an evaluation returns the metadata
/// it was given.
pub proof fn law_read_only_extraction_keeps_metadata<S, G: Guard, M>(
    tree: GuardTree<S, G>,
    extract: Extraction<S, G, M>,
    state: S,
    metadata: M,
)
    requires
        keeps_metadata(extract),
    ensures
        tree.evaluate(extract, state, metadata).1 == metadata,
    decreases tree,
{
    match tree {
        GuardTree::Leaf(leaf) => {},
        GuardTree::Node { op, left, right, projection } => {
            law_read_only_extraction_keeps_metadata(*left, extract, state, metadata);
            law_read_only_extraction_keeps_metadata(
                *right,
                extract,
                narrowed(projection, state),
                metadata,
            );
        },
    }
}

/// Where extractors only read the metadata, an `And` node allows exactly when
/// each child, evaluated by itself over the same state and metadata, allows.
///
/// An extractor that changes the metadata is excluded, because the right child
/// is evaluated on what the left child left behind and may then come out
/// otherwise than it does by itself.
pub proof fn law_and_allows_iff_each_allows<S, G: Guard, M>(
    left: GuardTree<S, G>,
    right: GuardTree<S, G>,
    extract: Extraction<S, G, M>,
    state: S,
    metadata: M,
)
    requires
        keeps_metadata(extract),
    ensures
        GuardTree::node(Combinator::And, left, right, None).evaluate(extract, state, metadata).0
            is Allowed <==> left.evaluate(extract, state, metadata).0 is Allowed && right.evaluate(
            extract,
            state,
            metadata,
        ).0 is Allowed,
{
    law_read_only_extraction_keeps_metadata(left, extract, state, metadata);
}

/// Where extractors only read the metadata and none fails in the left child, an
/// `Or` node allows exactly when at least one child, evaluated by itself over the
/// same state and metadata, allows.
pub proof fn law_or_allows_iff_one_allows<S, G: Guard, M>(
    left: GuardTree<S, G>,
    right: GuardTree<S, G>,
    extract: Extraction<S, G, M>,
    state: S,
    metadata: M,
)
    requires
        keeps_metadata(extract),
        !(left.evaluate(extract, state, metadata).0 is ExtractionFailed),
    ensures
        GuardTree::node(Combinator::Or, left, right, None).evaluate(extract, state, metadata).0
            is Allowed <==> left.evaluate(extract, state, metadata).0 is Allowed || right.evaluate(
            extract,
            state,
            metadata,
        ).0 is Allowed,
{
    law_read_only_extraction_keeps_metadata(left, extract, state, metadata);
}

/// Once the left child of an `And` node has denied, no extractor of the right
/// child runs: the node's extractor runs are those of its left child, and so are
/// its outcome, denial message included, and the metadata it returns.
pub proof fn law_and_skips_right_after_denial<S, G: Guard, M>(
    left: GuardTree<S, G>,
    right: GuardTree<S, G>,
    projection: Option<Projector<S>>,
    extract: Extraction<S, G, M>,
    state: S,
    metadata: M,
)
    requires
        left.evaluate(extract, state, metadata).0 is Denied,
    ensures
        ({
            let tree = GuardTree::node(Combinator::And, left, right, projection);
            &&& tree.trace(extract, state, metadata) == left.trace(extract, state, metadata)
            &&& tree.evaluate(extract, state, metadata) == left.evaluate(extract, state, metadata)
        }),
{
    let tree = GuardTree::node(Combinator::And, left, right, projection);
    assert(tree.trace(extract, state, metadata) =~= left.trace(extract, state, metadata));
}

/// Once the left child of an `Or` node has allowed, no extractor of the right
/// child runs: the node's extractor runs are those of its left child, and the
/// node allows with the metadata its left child returned.
pub proof fn law_or_skips_right_after_allowance<S, G: Guard, M>(
    left: GuardTree<S, G>,
    right: GuardTree<S, G>,
    projection: Option<Projector<S>>,
    extract: Extraction<S, G, M>,
    state: S,
    metadata: M,
)
    requires
        left.evaluate(extract, state, metadata).0 is Allowed,
    ensures
        ({
            let tree = GuardTree::node(Combinator::Or, left, right, projection);
            &&& tree.trace(extract, state, metadata) == left.trace(extract, state, metadata)
            &&& tree.evaluate(extract, state, metadata) == left.evaluate(extract, state, metadata)
        }),
{
    let tree = GuardTree::node(Combinator::Or, left, right, projection);
    assert(tree.trace(extract, state, metadata) =~= left.trace(extract, state, metadata));
}

/// Every evaluation runs at least one extractor, and only the last run can fail:
/// a failure ends the evaluation on the spot.
proof fn lemma_failure_is_last<S, G: Guard, M>(
    tree: GuardTree<S, G>,
    extract: Extraction<S, G, M>,
    state: S,
    metadata: M,
)
    ensures
        ({
            let trace = tree.trace(extract, state, metadata);
            let outcome = tree.evaluate(extract, state, metadata).0;
            &&& trace.len() > 0
            &&& outcome is ExtractionFailed <==> trace.last().fails(extract)
            &&& forall|i: int| 0 <= i < trace.len() - 1 ==> !(#[trigger] trace[i]).fails(extract)
        }),
    decreases tree,
{
    match tree {
        GuardTree::Leaf(leaf) => {},
        GuardTree::Node { op, left, right, projection } => {
            lemma_failure_is_last(*left, extract, state, metadata);
            let (outcome, after) = left.evaluate(extract, state, metadata);
            let first = left.trace(extract, state, metadata);
            if op.proceeds(outcome) {
                lemma_failure_is_last(*right, extract, narrowed(projection, state), after);
                let second = right.trace(extract, narrowed(projection, state), after);
                let trace = tree.trace(extract, state, metadata);
                assert(trace =~= first + second);
                assert(trace.last() == second.last());
                assert forall|i: int| 0 <= i < trace.len() - 1 implies !(#[trigger] trace[i]).fails(
                    extract,
                ) by {
                    if i < first.len() {
                        assert(trace[i] == first[i]);
                        if i == first.len() - 1 {
                            assert(first[i] == first.last());
                        }
                    } else {
                        assert(trace[i] == second[i - first.len()]);
                    }
                }
            } else {
                assert(tree.trace(extract, state, metadata) =~= first);
            }
        },
    }
}

/// Extraction failure dominates: the evaluation of a tree ends in
/// `ExtractionFailed` exactly when the extractor of some leaf it reached failed,
/// whatever the other leaves are or would have said.
pub proof fn law_failure_dominates<S, G: Guard, M>(
    tree: GuardTree<S, G>,
    extract: Extraction<S, G, M>,
    state: S,
    metadata: M,
)
    ensures
        ({
            let trace = tree.trace(extract, state, metadata);
            tree.evaluate(extract, state, metadata).0 is ExtractionFailed <==> exists|i: int|
                0 <= i < trace.len() && (#[trigger] trace[i]).fails(extract)
        }),
{
    lemma_failure_is_last(tree, extract, state, metadata);
    let trace = tree.trace(extract, state, metadata);
    if tree.evaluate(extract, state, metadata).0 is ExtractionFailed {
        assert(trace[trace.len() - 1].fails(extract));
    }
}

/// Nesting two nodes of one combinator to the left or to the right makes no
/// difference to an evaluation: the outcome is the same, with the same denial
/// message, and so are the metadata returned and the extractors that run.
pub proof fn law_nesting_is_associative<S, G: Guard, M>(
    op: Combinator,
    a: GuardTree<S, G>,
    b: GuardTree<S, G>,
    c: GuardTree<S, G>,
    extract: Extraction<S, G, M>,
    state: S,
    metadata: M,
)
    ensures
        ({
            let leftward = GuardTree::node(op, GuardTree::node(op, a, b, None), c, None);
            let rightward = GuardTree::node(op, a, GuardTree::node(op, b, c, None), None);
            &&& leftward.evaluate(extract, state, metadata) == rightward.evaluate(
                extract,
                state,
                metadata,
            )
            &&& leftward.trace(extract, state, metadata) == rightward.trace(extract, state, metadata)
        }),
{
    let inner_left = GuardTree::node(op, a, b, None);
    let inner_right = GuardTree::node(op, b, c, None);
    let leftward = GuardTree::node(op, inner_left, c, None);
    let rightward = GuardTree::node(op, a, inner_right, None);
    reveal_with_fuel(GuardTree::evaluate, 3);
    reveal_with_fuel(GuardTree::trace, 3);
    assert(leftward.trace(extract, state, metadata) =~= rightward.trace(extract, state, metadata));
}

/// A tree without projections hands the state it is evaluated over to every
/// extractor it runs.
pub proof fn law_unprojected_tree_keeps_state<S, G: Guard, M>(
    tree: GuardTree<S, G>,
    extract: Extraction<S, G, M>,
    state: S,
    metadata: M,
)
    requires
        tree.unprojected(),
    ensures
        forall|i: int|
            0 <= i < tree.trace(extract, state, metadata).len() ==> (#[trigger] tree.trace(
                extract,
                state,
                metadata,
            )[i]).state == state,
    decreases tree,
{
    match tree {
        GuardTree::Leaf(leaf) => {},
        GuardTree::Node { op, left, right, projection } => {
            let (outcome, after) = left.evaluate(extract, state, metadata);
            law_unprojected_tree_keeps_state(*left, extract, state, metadata);
            law_unprojected_tree_keeps_state(*right, extract, state, after);
            let first = left.trace(extract, state, metadata);
            let trace = tree.trace(extract, state, metadata);
            assert forall|i: int| 0 <= i < trace.len() implies (#[trigger] trace[i]).state == state by {
                if i < first.len() {
                    assert(trace[i] == first[i]);
                } else {
                    assert(trace[i] == right.trace(extract, state, after)[i - first.len()]);
                }
            }
        },
    }
}

/// A guard placed under a projection sees the projected state and never the
/// state of the node: when the right child of a node with projection `p` is a
/// single guard, the node's extractor runs are those of its left child and then,
/// if the combinator proceeds, one run for that guard, over `p` of the node's
/// state and on the metadata the left child left behind.
pub proof fn law_projected_guard_sees_projection<S, G: Guard, M>(
    op: Combinator,
    left: GuardTree<S, G>,
    guard: Leaf<G>,
    projection: Projector<S>,
    extract: Extraction<S, G, M>,
    state: S,
    metadata: M,
)
    ensures
        ({
            let tree = GuardTree::node(op, left, GuardTree::Leaf(guard), Some(projection));
            let (outcome, after) = left.evaluate(extract, state, metadata);
            tree.trace(extract, state, metadata) == left.trace(extract, state, metadata) + if op.proceeds(
                outcome,
            ) {
                seq![Invocation { leaf: guard, state: projection.apply(state), metadata: after }]
            } else {
                Seq::empty()
            }
        }),
{
    let tree = GuardTree::node(op, left, GuardTree::Leaf(guard), Some(projection));
    let right = GuardTree::<S, G>::Leaf(guard);
    let (outcome, after) = left.evaluate(extract, state, metadata);
    assert(right.trace(extract, projection.apply(state), after) =~= seq![
        Invocation { leaf: guard, state: projection.apply(state), metadata: after },
    ]);
}

/// A projection holds for the whole right child: every extractor that runs in
/// the right child of a node with projection `p` is given `p` of the node's
/// state, as long as the child has no projections of its own.
pub proof fn law_projection_scopes_right_child<S, G: Guard, M>(
    op: Combinator,
    left: GuardTree<S, G>,
    right: GuardTree<S, G>,
    projection: Projector<S>,
    extract: Extraction<S, G, M>,
    state: S,
    metadata: M,
)
    requires
        right.unprojected(),
    ensures
        ({
            let tree = GuardTree::node(op, left, right, Some(projection));
            let trace = tree.trace(extract, state, metadata);
            let before = left.trace(extract, state, metadata).len();
            &&& before <= trace.len()
            &&& trace.len() > before <==> op.proceeds(left.evaluate(extract, state, metadata).0)
            &&& forall|i: int|
                before <= i < trace.len() ==> (#[trigger] trace[i]).state == projection.apply(state)
        }),
{
    let tree = GuardTree::node(op, left, right, Some(projection));
    let trace = tree.trace(extract, state, metadata);
    let first = left.trace(extract, state, metadata);
    let (outcome, after) = left.evaluate(extract, state, metadata);
    let sub = projection.apply(state);
    if op.proceeds(outcome) {
        let second = right.trace(extract, sub, after);
        lemma_failure_is_last(right, extract, sub, after);
        law_unprojected_tree_keeps_state(right, extract, sub, after);
        assert(trace =~= first + second);
        assert forall|i: int| first.len() <= i < trace.len() implies (#[trigger] trace[i]).state
            == sub by {
            assert(trace[i] == second[i - first.len()]);
        }
    } else {
        assert(trace =~= first);
    }
}

} // verus!
