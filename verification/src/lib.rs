//! A verified CHIP-8 processor core.
//!
//! The `cpu` module holds the executable machine; `machine` holds its
//! mathematical model (the state view and the specification of every
//! instruction); `laws` proves the properties that relate them.

pub mod cpu;
pub mod draw;
pub mod font;
pub mod keypad;
pub mod laws;
pub mod machine;
