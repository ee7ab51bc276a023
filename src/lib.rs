//! A MIL-STD-1553 bus library: a bit-exact codec for Command, Status and Data
//! words, the mode-code table, and a Bus Controller that runs transfers and
//! mode commands over an abstract bus.
pub mod primitives;
pub mod words;
pub mod bus;
