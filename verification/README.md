# manual_share

Counted, manual sharing of `Box` and `Vec` values, verified with Verus.

A share owner (`SharedBox`, `SharedVec`, `SharedVecMut`) lends out references or
split-off parts and counts them; everything lent must come back to the owner it
came from before the owner turns back into a `Box` or a `Vec`.

Layout:

- `src/handle.rs`: the counted handle that holds a shared value, the trusted calls
  into `std::sync::Arc`, and the origin that identifies an allocation.
- `src/shared_box.rs`: `SharedBox` and `SharedBoxRef`, their abstract views and laws.
- `src/shared_vec.rs`: `SharedVec`, `SharedVecRef`, `SharedVecMut`, `SharedVecPart`,
  their abstract views and laws (splitting and joining regions).
- `src/scope.rs`: the `Scope` trait, which turns values (or tuples of them) into
  their shared form around a closure.
- `app/lib.rs`: the asynchronous form of `Scope::scope`.
- `tests/`: scenarios on concrete values.
