# prism3_function

Function objects for Rust — predicates, suppliers, consumers, mappers,
mutators and mutating functions — each in a boxed (`Box*`), a single-threaded
shared (`Rc*`) and a thread-safe shared (`Arc*`) flavour, with composition
(`and`, `or`, `not`, `and_then`, `compose`, `when`/`or_else`, `map`, `filter`,
`zip`, `memoized`, …), written in Verus and verified.

## Model

Every family is a trait with two specification functions that describe a
function object as a relation: which inputs it accepts (`*_requires`) and
which results it may give (`*_ensures`). Closures take part through blanket
impls that use the closure's own `requires`/`ensures`. Verus does not unfold
those impls for a concrete closure type by itself: the constructors (`new`)
state their result in the closure's own terms (`f.requires(..)`,
`f.ensures(..)`), and where a concrete closure is passed to a combinator
(`map`, `filter`, `when`, `or_else`, …) a call of the family's
`lemma_closure_*` proof function unfolds it. Each
combinator states its relation in terms of the relations of its parts, and
each conversion (`into_box`, `into_rc`, `into_arc`, `to_*`) states that the
relation is kept.

A closure's relation is what its `requires`/`ensures` say, and Verus treats
that as the same on every call: a closure that keeps state (a counter, say)
is described only as far as its postcondition covers every value it may
give. Stateful families (`Mapper`, `StatefulFunction`, `Mutator`,
`StatefulMutatingFunction`) promise that a call leaves the relation
unchanged. Suppliers (`Supplier`, `StatefulSupplier`) promise that a call may
narrow the values they give later, never widen them; a supplier that
`keeps_first` gives, after any call, only values `alike` that call's value.
That is how `memoized` states its cache on the boxed flavours: the first
call gives the source's value and caches a clone of it, and every later value
is a clone of that cached clone (`law_memoized_repeats_first`: all equal to
the first where clones are exact). The
shared flavours keep their function object in a `vstd::rwlock::RwLock` whose
invariant is the relation they were built with; clones share the lock, and
so the state, but what one handle learns from a call is not carried to
another, so their `memoized` states only the relation.

What a closure does to a `&mut` argument cannot enter a relation (that
needs the argument's final state inside a spec function); a direct call of
`mutate`/`apply` on a closure states it.

## Layout

- `src/predicate.rs`, `src/transformer.rs`, `src/readonly_supplier.rs`,
  `src/readonly_consumer.rs`, `src/readonly_bi_consumer.rs`: read-only
  families.
- `src/supplier.rs`, `src/stateful_supplier.rs`, `src/mapper.rs`,
  `src/stateful_function.rs`, `src/mutator.rs`,
  `src/functions/stateful_mutating_function.rs`: stateful families.
- `src/supplier_once.rs`, `src/mapper_once.rs`, `src/mutator_once.rs`,
  `src/functions/mutating_function_once.rs`: one-shot families.
- `src/shared.rs`: the trusted items (wrappers of `Rc::clone` and
  `Arc::clone`, the specification of `String::from(&str)`) and the view and
  display of optional names.

The laws of each family (units and associativity of chaining, De Morgan and
friends for predicates, map fusion for suppliers, …) are public proof
functions named `law_*` in the family's module. `tests/` exercises every
flavour on concrete values.
