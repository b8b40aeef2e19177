pub mod arith;
pub mod bits;
pub mod codec;
pub mod commands;
pub mod errors;
pub mod stats;
pub mod store;
