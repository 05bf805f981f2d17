//! One-shot suppliers: producers `FnOnce() -> T` that are used up by their
//! single call.
//!
//! A one-shot supplier's behaviour is modelled as a relation:
//! `once_requires()` says whether it may be called, `once_ensures(v)` which
//! values it may produce.
use vstd::prelude::*;

verus! {

/// A producer of one value of type `T`.
pub trait SupplierOnce<T> {
    /// Whether the supplier may be called.
    spec fn once_requires(&self) -> bool;

    /// Values the supplier may produce.
    spec fn once_ensures(&self, value: T) -> bool;

    /// Produces the value, using the supplier up.
    fn get(self) -> (value: T)
        where Self: Sized
        requires
            self.once_requires(),
        ensures
            self.once_ensures(value),
    ;

    /// Produces the value, using up the boxed supplier.
    fn get_boxed(self: Box<Self>) -> (value: T)
        requires
            self.once_requires(),
        ensures
            self.once_ensures(value),
    ;
}

/// Two one-shot suppliers may be called alike and may produce the same
/// values.
pub open spec fn same_supplier_once<T, A: SupplierOnce<T>, B: SupplierOnce<T>>(a: A, b: B) -> bool {
    &&& a.once_requires() == b.once_requires()
    &&& forall|v: T| #[trigger] a.once_ensures(v) == b.once_ensures(v)
}

/// A closure's behaviour as an one-shot supplier is its own precondition and
/// postcondition. Call this where a concrete closure is used, so that its
/// relation unfolds.
pub proof fn lemma_closure_supplier_once<T, F: FnOnce() -> T>(f: F)
    ensures
        f.once_requires() == f.requires(()),
        forall|v: T| #[trigger] f.once_ensures(v) == f.ensures((), v),
{
}

/// Every closure `FnOnce() -> T` is a one-shot supplier, with the closure's
/// own precondition and postcondition.
impl<T, F> SupplierOnce<T> for F where F: FnOnce() -> T {
    open spec fn once_requires(&self) -> bool {
        self.requires(())
    }

    open spec fn once_ensures(&self, value: T) -> bool {
        self.ensures((), value)
    }

    fn get(self) -> (value: T) {
        self()
    }

    fn get_boxed(self: Box<Self>) -> (value: T) {
        (*self)()
    }
}

/// A boxed one-shot supplier.
#[verifier::reject_recursive_types(T)]
pub struct BoxSupplierOnce<T> {
    func: Box<dyn SupplierOnce<T>>,
}

impl<T: 'static> BoxSupplierOnce<T> {
    /// Wraps a closure.
    pub fn new<F>(f: F) -> (res: Self)
        where F: FnOnce() -> T + 'static
        ensures
            res.once_requires() == f.requires(()),
            forall|v: T| #[trigger] res.once_ensures(v) == f.ensures((), v),
    {
        BoxSupplierOnce { func: Box::new(f) }
    }
}

impl<T: 'static> SupplierOnce<T> for BoxSupplierOnce<T> {
    closed spec fn once_requires(&self) -> bool {
        self.func.once_requires()
    }

    closed spec fn once_ensures(&self, value: T) -> bool {
        self.func.once_ensures(value)
    }

    fn get(self) -> (value: T) {
        self.func.get_boxed()
    }

    fn get_boxed(self: Box<Self>) -> (value: T) {
        let me = *self;
        me.func.get_boxed()
    }
}

/// Conversion of a one-shot supplier into a `BoxSupplierOnce`.
pub trait IntoSupplierOnce<T>: SupplierOnce<T> + Sized + 'static {
    /// Boxes the supplier, keeping its behaviour.
    fn into_box_once(self) -> (res: BoxSupplierOnce<T>)
        where T: 'static
        ensures
            same_supplier_once(res, self),
    ;
}

impl<T: 'static, S> IntoSupplierOnce<T> for S where S: SupplierOnce<T> + 'static {
    fn into_box_once(self) -> (res: BoxSupplierOnce<T>)
        where T: 'static
    {
        BoxSupplierOnce { func: Box::new(self) }
    }
}

} // verus!
