//! Field-wise scalar operators for record types.
//!
//! Given the declaration of a record, with positional or named fields, and
//! the name of a multiply-like operator such as `Mul`, the crate writes the
//! implementation of that operator for the record: the right-hand operand is
//! a scalar of any type, the operator is applied to every field with that
//! scalar, and the results are put back together in the shape of the record.
//! For `struct Record(f32, f32)` and `Mul` it writes
//!
//! ```text
//! impl<__rhs_T: ::std::marker::Copy> ::std::ops::Mul<__rhs_T> for Record
//! where
//!     f32: ::std::ops::Mul<__rhs_T, Output = f32>,
//! {
//!     type Output = Record;
//!     fn mul(self, rhs: __rhs_T) -> Record {
//!         Record(self.0.mul(rhs), self.1.mul(rhs))
//!     }
//! }
//! ```
//!
//! as the token text of a `quote::Tokens`.
//!
//! - [`model`] holds the declaration as the crate reads it.
//! - [`fields`] builds the expression in the body of the method.
//! - [`generics`] derives the generic parameters and bounds of the
//!   implementation.
//! - [`printing`] writes generics as they stand in an `impl`.
//! - [`expansion`] puts the implementation together; [`expand`] is the entry
//!   point.
//! - [`text`] says what text a sequence of tokens makes, and [`decimal`] how
//!   a number is written.
//! - [`tokens`] states what the crate takes for granted of `quote::Tokens`.
//!
//! Every function is verified against its contract with Verus. What is taken
//! on trust is the behaviour of `quote::Tokens` as [`tokens`] states it and
//! that `str::to_lowercase` depends on the characters of its input alone.

pub mod decimal;
pub mod expansion;
pub mod fields;
pub mod generics;
pub mod model;
pub mod printing;
pub mod text;
pub mod tokens;

pub use crate::expansion::{expand, expand_with_method, UnsupportedShape};
pub use crate::fields::{struct_content, struct_exprs, tuple_content, tuple_exprs};
pub use crate::generics::get_mul_generics;
