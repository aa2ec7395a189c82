pub mod bnr;
pub mod bcd;
pub mod discrete;
