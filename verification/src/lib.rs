//! Memoization of a single-argument calculator: each distinct input is
//! computed once, and every later request for it is answered from the memo.
//!
//! [`Cacher`] keys its memo by copies of the inputs, [`RefCacher`] by borrows
//! of inputs that the caller owns. Both are described by the same abstract
//! state, [`model::Memo`], and what holds of every sequence of requests is
//! proved once, over that state, in [`lemmas`].

pub mod cacher;
pub mod lemmas;
pub mod model;
pub mod ref_cacher;

pub use cacher::Cacher;
pub use ref_cacher::RefCacher;
