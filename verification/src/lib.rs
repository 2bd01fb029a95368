//! Trimmed arithmetic mean as an accumulate-then-finalize aggregate over
//! exact fixed-point decimals.

pub mod decimal;
pub mod fixed;
pub mod mean;
pub mod order;
pub mod trim;
pub mod trimmean;
pub mod validate;
pub mod value;

pub use crate::fixed::Fixed;
pub use crate::trimmean::{ProcessError, Trimmean};
pub use crate::validate::InitError;
pub use crate::value::Value;
