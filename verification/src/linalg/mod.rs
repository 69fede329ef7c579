//! Small dense matrices: a row-major container generic over its entries, the shape checks that guard the
//! products and sums built on it, and rearrangements that move entries without arithmetic.

pub mod mat;
pub mod structure;

pub use mat::{Mat, RMat, check_product, check_same};
pub use structure::{column_of, hstack, slice_column};
