//! Exact linear algebra over rational scalars: a dense row-major matrix
//! type together with the classic elimination algorithms (determinant,
//! echelon forms, Gauss-Jordan solving, LU decomposition, inversion, and a
//! direct linear-system solver), each carrying a machine-checked contract.

pub mod bigint;
pub mod laws;
pub mod lemmas;
pub mod matrix;
pub mod matrix_utilities;
pub mod rat;
pub mod scalar;
pub mod solution;
pub mod specs;
pub mod system;
