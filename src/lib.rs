//! Decimal text of an integer, held in a fixed stack buffer and readable as
//! text, as bytes, and as bytes followed by a NUL terminator.

pub mod decimal;
pub mod dec_int;
pub mod integer;
pub mod laws;

pub use dec_int::{DecInt, BUF_LEN};
pub use integer::DecimalInteger;
