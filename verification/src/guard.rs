use vstd::prelude::*;

verus! {

/// A typed, comparable unit of data extracted from a request.
///
/// A guard value is produced afresh for every evaluation and compared against an
/// expected instance of the same type that was fixed when the tree was configured.
/// The comparison is free to be exact equality, set membership, a threshold or
/// anything else, as long as it is a pure function of its two arguments: `matches`
/// is that function, and `check_guard` computes it.
pub trait Guard {
    /// Whether `self`, as extracted, satisfies the configured `expected` value.
    ///
    /// An implementation states here what its comparison is; the default leaves
    /// it unknown.
    open spec fn matches(&self, expected: &Self) -> bool {
        arbitrary()
    }

    /// Compares an extracted value against the expected one.
    fn check_guard(&self, expected: &Self) -> (ok: bool)
        ensures
            ok == self.matches(expected),
    ;
}

} // verus!
