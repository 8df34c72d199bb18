//! Zero-knowledge-friendly symmetric primitives over the scalar field of
//! BLS12-381: four algebraic permutations (Rescue-Prime, Griffin, Neptune,
//! Ciminion), a SAFE-style sponge that drives three of them, and sponge-hash /
//! sponge-AE drivers.  Every algorithm is written once, generically over a
//! field-operations trait, so the native evaluation and the circuit-variable
//! evaluation are the same verified code and provably compute the same field
//! values.

pub mod ciminion;
pub mod circuit;
pub mod drivers;
pub mod field;
pub mod griffin;
pub mod neptune;
pub mod pattern;
pub mod plain;
pub mod rescue_prime;
pub mod sponge;
