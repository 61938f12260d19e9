//! Exact, structural side of symplectic matrices: dimension checks,
//! index permutations and the integer entry patterns of the identity and of
//! the canonical symplectic form J = [0, I; -I, 0].
pub mod algebra;
pub mod conservation;
pub mod forms;
pub mod laws;
pub mod matrix;
pub mod shape;

pub use conservation::pairwise_conserved;
pub use forms::{identity_entries, j_form_entries};
pub use matrix::transpose;
pub use shape::{check_shape, MatrixError};
