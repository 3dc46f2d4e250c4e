use crate::evaluation::{Evaluation, Position};
use crate::guard::Guard;
use crate::projection::Projector;
use crate::tree::{Combinator, GuardTree, Leaf};
use vstd::prelude::*;

verus! {

/// Fluent composition of guard expressions.
///
/// Both a bare tree and a configured service can be extended on the right. The
/// receiver becomes the left child of the new node and so is evaluated first.
pub trait GuardServiceExt<S, G: Guard>: Sized {
    /// The expression that the value stands for.
    spec fn expression(&self) -> GuardTree<S, G>;

    /// Both `self` and `other` must allow.
    fn and(self, other: GuardTree<S, G>) -> (combined: Self)
        ensures
            combined.expression() == GuardTree::node(Combinator::And, self.expression(), other, None),
    ;

    /// It is enough that `self` or `other` allows.
    fn or(self, other: GuardTree<S, G>) -> (combined: Self)
        ensures
            combined.expression() == GuardTree::node(Combinator::Or, self.expression(), other, None),
    ;

    /// Both must allow, and `other` is evaluated over `projection` of the state.
    fn and_with_projection(self, projection: Projector<S>, other: GuardTree<S, G>) -> (combined:
        Self)
        ensures
            combined.expression() == GuardTree::node(
                Combinator::And,
                self.expression(),
                other,
                Some(projection),
            ),
    ;

    /// Either may allow, and `other` is evaluated over `projection` of the state.
    fn or_with_projection(self, projection: Projector<S>, other: GuardTree<S, G>) -> (combined:
        Self)
        ensures
            combined.expression() == GuardTree::node(
                Combinator::Or,
                self.expression(),
                other,
                Some(projection),
            ),
    ;
}

impl<S, G: Guard> GuardServiceExt<S, G> for GuardTree<S, G> {
    open spec fn expression(&self) -> GuardTree<S, G> {
        *self
    }

    fn and(self, other: GuardTree<S, G>) -> (combined: Self) {
        GuardTree::combine(Combinator::And, self, other, None)
    }

    fn or(self, other: GuardTree<S, G>) -> (combined: Self) {
        GuardTree::combine(Combinator::Or, self, other, None)
    }

    fn and_with_projection(self, projection: Projector<S>, other: GuardTree<S, G>) -> (combined:
        Self) {
        GuardTree::combine(Combinator::And, self, other, Some(projection))
    }

    fn or_with_projection(self, projection: Projector<S>, other: GuardTree<S, G>) -> (combined:
        Self) {
        GuardTree::combine(Combinator::Or, self, other, Some(projection))
    }
}

/// A guard expression together with the state it is evaluated over.
///
/// A service is configured once and only read afterwards: an evaluation borrows
/// it and keeps everything that changes to itself, so any number of requests can
/// be evaluated against one service at a time.
#[verifier::reject_recursive_types(State)]
pub struct GuardService<State, G> {
    state: State,
    tree: GuardTree<State, G>,
}

/// The mathematical content of a [`GuardService`].
#[verifier::reject_recursive_types(State)]
pub struct GuardServiceView<State, G> {
    pub state: State,
    pub tree: GuardTree<State, G>,
}

impl<State, G: Guard> View for GuardService<State, G> {
    type V = GuardServiceView<State, G>;

    closed spec fn view(&self) -> GuardServiceView<State, G> {
        GuardServiceView { state: self.state, tree: self.tree }
    }
}

impl<State, G: Guard> GuardService<State, G> {
    /// A service of one guard: extraction over `state` must match
    /// `expected_guard`, and a mismatch is denied with `err_msg`.
    pub fn new(state: State, expected_guard: G, err_msg: &'static str) -> (service: Self)
        ensures
            service@.state == state,
            service@.tree == GuardTree::<State, G>::Leaf(Leaf { expected_guard, err_msg: Some(err_msg) }),
    {
        GuardService { state, tree: GuardTree::leaf(expected_guard, err_msg) }
    }

    /// A service that evaluates `tree` over `state`.
    pub fn with_tree(state: State, tree: GuardTree<State, G>) -> (service: Self)
        ensures
            service@.state == state,
            service@.tree == tree,
    {
        GuardService { state, tree }
    }

    /// The state the expression is evaluated over.
    pub fn state(&self) -> (state: &State)
        ensures
            *state == self@.state,
    {
        &self.state
    }

    /// The configured expression.
    pub fn tree(&self) -> (tree: &GuardTree<State, G>)
        ensures
            *tree == self@.tree,
    {
        &self.tree
    }

    /// Starts evaluating the expression against one request.
    pub fn begin(&self) -> (evaluation: Evaluation<'_, State, G>)
        ensures
            evaluation@ == Position::start(self@.tree, self@.state),
    {
        Evaluation::begin(&self.tree, &self.state)
    }
}

impl<State, G: Guard> GuardServiceExt<State, G> for GuardService<State, G> {
    open spec fn expression(&self) -> GuardTree<State, G> {
        self@.tree
    }

    fn and(self, other: GuardTree<State, G>) -> (combined: Self)
        ensures
            combined@.state == self@.state,
    {
        GuardService { state: self.state, tree: self.tree.and(other) }
    }

    fn or(self, other: GuardTree<State, G>) -> (combined: Self)
        ensures
            combined@.state == self@.state,
    {
        GuardService { state: self.state, tree: self.tree.or(other) }
    }

    fn and_with_projection(
        self,
        projection: Projector<State>,
        other: GuardTree<State, G>,
    ) -> (combined: Self)
        ensures
            combined@.state == self@.state,
    {
        GuardService { state: self.state, tree: self.tree.and_with_projection(projection, other) }
    }

    fn or_with_projection(
        self,
        projection: Projector<State>,
        other: GuardTree<State, G>,
    ) -> (combined: Self)
        ensures
            combined@.state == self@.state,
    {
        GuardService { state: self.state, tree: self.tree.or_with_projection(projection, other) }
    }
}

} // verus!
