//! Local k-space gradient library.
//!
//! Converts sampled scalar-encoded-field values into their local
//! reciprocal-space gradient components at a fixed evaluation point.
//! A header of encoding-field names is resolved to one derivative
//! vector per column ([`field`]), and each data row is then reduced
//! to a two-component output by a weighted sum ([`project`]).
//!
//! All arithmetic in the verified core is exact integer arithmetic;
//! the hosting program is free to evaluate the same closed derivative
//! table and dot product over wider numeric types.

pub mod error;
pub mod field;
pub mod project;
