//! Manual, counted sharing of `Box` and `Vec` values.
//!
//! | original type | share owner | reference type |
//! | --- | --- | --- |
//! | `Box` | [`SharedBox`] | [`SharedBoxRef`] |
//! | `Vec` | [`SharedVec`] | [`SharedVecRef`] |
//! | `Vec` | [`SharedVecMut`] | [`SharedVecPart`] |
//!
//! A share owner counts what it has lent. Everything lent must be given back to
//! the owner it came from before the owner turns back into the original type.
//! A zero-sized type needs no memory, so all its values share one address: what
//! one owner of such values lent, another one takes back.
pub mod handle;
pub mod scope;
pub mod shared_box;
pub mod shared_vec;

pub use scope::{Scope, VecShareMut};
pub use shared_box::{SharedBox, SharedBoxRef};
pub use shared_vec::{SharedVec, SharedVecMut, SharedVecPart, SharedVecRef};
