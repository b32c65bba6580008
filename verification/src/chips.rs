//! Gadgets: each declares its gates and lookups in a circuit's shape and
//! assigns its cells in regions.

pub mod fib_1;
pub mod fib_2;
pub mod fib_3;
pub mod range_check_1;
pub mod range_check_2;
pub mod range_check_2_table;
pub mod range_check_3;
pub mod range_check_3_table;
pub mod range_check_4;
pub mod range_check_4_table;
