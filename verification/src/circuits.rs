//! Whole circuits over the gadgets: each declares its columns, lays its
//! gadgets out and can be checked against a witness.

pub mod fib_1;
pub mod fib_2;
pub mod fib_3;
pub mod range_check_1;
pub mod range_check_2;
pub mod range_check_3;
pub mod range_check_4;
