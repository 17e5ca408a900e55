//! Modular exponentiation by the right-to-left binary method.
//!
//! The one operation of this crate is [`mod_exp`], which computes
//! `base ^ exponent % modulus` on a fixed-width integer type by repeated
//! squaring, so that the exponent's bit length, not its value, bounds the
//! number of multiplications. Every intermediate value is reduced as soon as
//! it is formed, and an overflow guard refuses any modulus whose reduced
//! products the type could not represent; [`mod_exp_checked`] performs that
//! guard at run time and reports a violation as an error.

pub mod arith;
pub mod exp;
pub mod numeric;

pub use exp::{mod_exp, mod_exp_checked, ModExpError};
pub use numeric::ModExpInt;
