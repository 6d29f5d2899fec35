//! An immutable text value of a dynamically typed runtime: index and slice
//! resolution, the quoted representation, classification predicates, case
//! transforms, and the table through which the runtime dispatches them.
pub mod value;
pub mod sequence;
pub mod text;
pub mod repr;
pub mod ops;
pub mod table;
