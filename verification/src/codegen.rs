//! Code generation from the intermediate representation, one module per
//! target.

pub mod x86_64;
