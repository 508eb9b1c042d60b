//! Mock implementation of `std::sync`.

pub mod atomic;
