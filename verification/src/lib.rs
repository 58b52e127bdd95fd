//! PLONK proof verification over BLS12-381 and the polynomial algebra it rests on.

pub mod backend;
pub mod circuit;
pub mod commitment;
pub mod constants;
pub mod cosets;
pub mod domain;
pub mod encoding;
pub mod error;
pub mod fft;
pub mod fft_laws;
pub mod field;
pub mod group;
pub mod modular;
pub mod poly;
pub mod poly_laws;
pub mod polynomial;
pub mod primes;
pub mod replay;
pub mod roots;
pub mod scalar;
pub mod snark;
pub mod sums;
pub mod transcript;
pub mod util;
