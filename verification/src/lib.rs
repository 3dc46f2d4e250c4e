//! Request authorization by boolean expressions over guards.
//!
//! A guard is a value extracted from a request and compared with an expected
//! value. Guards are combined into a tree by `And` and `Or`, which evaluate
//! their right side only when the left side leaves the outcome open, and a
//! node may narrow the state that its right side is evaluated over. A tree is
//! evaluated one leaf at a time: the evaluation names the leaf whose extractor
//! is to run next and the state to run it over, the caller runs it, however long
//! that takes, and hands back what it produced. What comes out is one of three
//! things that are never mixed up: allowed, denied, or extraction failed.

pub mod evaluation;
pub mod guard;
pub mod laws;
pub mod middleware;
pub mod outcome;
pub mod projection;
pub mod service;
pub mod tree;

pub use evaluation::{Evaluation, Step};
pub use guard::Guard;
pub use middleware::{settle, Disposition, GuardLayer, GuardServiceWrapper, Rejection};
pub use outcome::{ErrorKind, EvaluationOutcome, ExtractionError, GuardServiceResponse};
pub use projection::{FnProjection, Projection, Projector};
pub use service::{GuardService, GuardServiceExt};
pub use tree::{Combinator, GuardTree, Leaf};
