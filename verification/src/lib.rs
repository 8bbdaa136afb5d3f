//! Descriptive statistics over in-memory numeric sequences: element count,
//! minimum, maximum, and median. The scanning operations (`count`, `min`,
//! `max`) are generic over the element type and follow partial-order
//! semantics; `median` sorts its input in place and works on 64-bit signed
//! integers. The `laws` module proves how the results relate to one another
//! on integer sequences.

#![allow(unused_imports)]
use vstd::prelude::*;

pub mod extrema;
pub mod laws;
pub mod median;

pub use extrema::count;
pub use extrema::max;
pub use extrema::min;
pub use median::median;
