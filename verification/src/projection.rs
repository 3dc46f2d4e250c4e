use vstd::prelude::*;

verus! {

/// A pure function that narrows the state a tree is evaluated over to the part
/// that one of its subtrees is meant to see.
///
/// `narrowed` is that function; `project` computes it. An implementation reads
/// nothing but its arguments, does no I/O, cannot fail and cannot suspend.
pub trait Projection<S>: Send + Sync {
    /// The substate of `state`.
    ///
    /// An implementation states here what its function is; the default leaves it
    /// unknown.
    open spec fn narrowed(&self, state: &S) -> S {
        arbitrary()
    }

    /// Narrows `state`.
    fn project(&self, state: &S) -> (sub: S)
        ensures
            sub == self.narrowed(state),
    ;
}

/// A projection of any type, held so that projections of different types fit
/// into one tree.
#[verifier::reject_recursive_types(S)]
pub struct Projector<S> {
    pub by: Box<dyn Projection<S>>,
}

impl<S> Projector<S> {
    /// The substate that the held projection maps `state` to.
    pub open spec fn apply(&self, state: S) -> S {
        self.by.narrowed(&state)
    }

    /// The holder of `projection`.
    pub open spec fn of<P: Projection<S> + 'static>(projection: P) -> Self {
        Projector { by: Box::new(projection) }
    }

    /// Holds `projection`.
    pub fn new<P: Projection<S> + 'static>(projection: P) -> (projector: Self)
        ensures
            projector == Self::of(projection),
    {
        Projector { by: Box::new(projection) }
    }

    /// Narrows `state` by the held projection.
    pub fn project(&self, state: &S) -> (sub: S)
        ensures
            sub == self.apply(*state),
    {
        self.by.project(state)
    }
}

/// A function is pure if it accepts every state and has one result for each.
pub open spec fn is_pure<S, F: Fn(&S) -> S>(function: F) -> bool {
    &&& forall|state: S| #[trigger] call_requires(function, (&state,))
    &&& forall|state: S, a: S, b: S|
        #[trigger] call_ensures(function, (&state,), a) && #[trigger] call_ensures(
            function,
            (&state,),
            b,
        ) ==> a == b
}

/// The result of a pure function on `state`.
pub open spec fn projected<S, F: Fn(&S) -> S>(function: F, state: S) -> S {
    choose|sub: S| call_ensures(function, (&state,), sub)
}

/// The projection that a pure function or closure computes.
#[verifier::reject_recursive_types(S)]
pub struct FnProjection<S, F: Fn(&S) -> S> {
    function: F,
    marker: core::marker::PhantomData<S>,
}

impl<S, F: Fn(&S) -> S> FnProjection<S, F> {
    #[verifier::type_invariant]
    spec fn pure(self) -> bool {
        is_pure::<S, F>(self.function)
    }

    /// The function that does the narrowing.
    pub closed spec fn function(self) -> F {
        self.function
    }

    /// The projection that `function` computes. The function has to be pure; a
    /// closure shows that by a contract that fixes its result.
    pub fn new(function: F) -> (projection: Self)
        requires
            is_pure::<S, F>(function),
        ensures
            projection.function() == function,
    {
        FnProjection { function, marker: core::marker::PhantomData }
    }
}

impl<S: Send + Sync, F: Fn(&S) -> S + Send + Sync> Projection<S> for FnProjection<S, F> {
    open spec fn narrowed(&self, state: &S) -> S {
        projected(self.function(), *state)
    }

    fn project(&self, state: &S) -> (sub: S) {
        proof {
            use_type_invariant(self);
        }
        (self.function)(state)
    }
}

} // verus!
