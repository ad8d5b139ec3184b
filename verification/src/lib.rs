//! Points of dimension 0 to 6 over integer scalars, with their algebra proved.
//!
//! A point is a location; the difference of two points is a displacement. Components are
//! scalars: any fixed-width integer type, with wrapping arithmetic. Every operation states what
//! it computes over the sequence of its operands' values, and the module `laws` proves what
//! follows for all points at once.

pub mod components;
pub mod displacement;
pub mod homogeneous;
pub mod laws;
pub mod modular;
pub mod order;
pub mod pnt0;
pub mod pnt1;
pub mod pnt2;
pub mod pnt3;
pub mod pnt4;
pub mod pnt5;
pub mod pnt6;
pub mod scalar;
pub mod signed;
pub mod tuple;
pub mod unsigned;

pub use crate::displacement::Displacement;
pub use crate::order::Comparison;
pub use crate::pnt0::Pnt0;
pub use crate::pnt1::Pnt1;
pub use crate::pnt2::Pnt2;
pub use crate::pnt3::Pnt3;
pub use crate::pnt4::Pnt4;
pub use crate::pnt5::Pnt5;
pub use crate::pnt6::Pnt6;
pub use crate::scalar::{Scalar, Signed};
pub use crate::tuple::Tuple;
