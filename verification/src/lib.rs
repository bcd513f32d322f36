//! Zinc-LHA: a 64-byte digest computed from a byte string by a table-driven
//! mixing construction. It is an exercise in substitution and diffusion, not a
//! cryptographic hash, and must not be relied on for security.
//!
//! The pipeline is linear. From the input, [`init_sbox`] derives a 256-byte
//! table, [`setup::build_block`] a 64-byte block and [`setup::init_state`] the
//! 64-byte accumulator. [`round`] is then applied between 10000 and 10999
//! times, as [`setup::round_count`] says, and [`end_mix`] once. What the
//! accumulator then holds is the digest; [`hash_hex`] writes it as 128
//! lower-case hex digits. An empty input is taken as one zero byte.
//!
//! All byte arithmetic wraps. Every pass walks the accumulator from position 0
//! upwards and works in place, so a position may read what the same pass wrote
//! a moment before.
//!
//! Each function states what it computes over plain sequences of bytes; the
//! functions with names that end in `_of`, `_to` or `_from` are those
//! statements.

pub mod bits;
pub mod digest;
pub mod finish;
pub mod hex;
pub mod round;
pub mod setup;
pub mod table;

pub use crate::bits::{rotl, sbox_lookup};
pub use crate::digest::{digest, digest_with, hash_hex, hash_hex_with};
pub use crate::finish::end_mix;
pub use crate::round::round;
pub use crate::setup::{BlockFill, Profile};
pub use crate::table::init_sbox;
