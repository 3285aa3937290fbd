//! Admission checks for signed transfer requests of a layer-2 rollup: the
//! packed-number codec, the account bounds, the fee floor and the two
//! signature layers, composed into one fixed pipeline.
pub mod amount;
pub mod laws;
pub mod packing;
pub mod signature;
pub mod tester;
pub mod validator;
