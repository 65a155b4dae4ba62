//! Storage rent for EVM accounts: a daily rent, charged in whole days from an
//! activation time on, with the part of a day not yet paid carried over.

pub mod address;
pub mod calculator;
pub mod laws;
pub mod pallet;
pub mod rent;
