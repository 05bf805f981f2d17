//! Transformers: read-only conversions `T -> R`, used by suppliers to map the
//! values they produce.
use vstd::prelude::*;

verus! {

/// A read-only conversion from `T` to `R`.
pub trait Transformer<T, R> {
    /// Inputs the transformer accepts.
    spec fn transform_requires(&self, input: T) -> bool;

    /// Outputs the transformer may give for an input.
    spec fn transform_ensures(&self, input: T, output: R) -> bool;

    /// Converts `input`.
    fn apply(&self, input: T) -> (output: R)
        requires
            self.transform_requires(input),
        ensures
            self.transform_ensures(input, output),
    ;
}

/// A closure's behaviour as a transformer is its own precondition and
/// postcondition. Call this where a concrete closure is used, so that its
/// relation unfolds.
pub proof fn lemma_closure_transformer<T, R, F: Fn(T) -> R>(f: F)
    ensures
        forall|x: T| #[trigger] f.transform_requires(x) == f.requires((x,)),
        forall|x: T, y: R| #[trigger] f.transform_ensures(x, y) == f.ensures((x,), y),
{
}

/// Every closure `Fn(T) -> R` is a transformer, with the closure's own
/// precondition and postcondition.
impl<T, R, F> Transformer<T, R> for F where F: Fn(T) -> R {
    open spec fn transform_requires(&self, input: T) -> bool {
        self.requires((input,))
    }

    open spec fn transform_ensures(&self, input: T, output: R) -> bool {
        self.ensures((input,), output)
    }

    fn apply(&self, input: T) -> (output: R) {
        self(input)
    }
}

} // verus!
