//! Multi-bit programmable bootstrapping on the CPU: what a grouping factor costs in key material,
//! and whether the bootstrap that it drives gives messages back.
//!
//! - [`params`]: parameter sets, and the size of the key that each one asks for.
//! - [`encoding`]: how a message is written into a torus element and read back.
//! - [`lwe`]: what the scalars of keys, ciphertexts and lookup tables mean.
//! - [`core_crypto`]: the operations of `tfhe`, and what is claimed of each.
//! - [`clock`]: the clock that times the generation of keys.
//! - [`random`]: seeds, keys and encryptions, drawn by `tfhe`.
//! - [`bootstrap`]: preparing a bootstrap once, running it, and checking it.
//! - [`report`]: the comma-separated report.

pub mod bootstrap;
pub mod clock;
pub mod core_crypto;
pub mod encoding;
pub mod lwe;
pub mod params;
pub mod random;
pub mod report;

pub use bootstrap::{
    assert_correct, assert_correct_from, check_message, check_messages, fresh_output, prepare,
    prepare_param_set, round_trip, run_pbs, Mismatch, Prepared, SetupError, THREAD_COUNT,
};
pub use encoding::{decode, encoding_delta, round_decode};
pub use lwe::identity;
pub use params::{
    bsk_size_bytes, is_modulus_supported, is_noise_drawable, CoreParams, KeyShape, MultiBitFields,
    NoiseDistribution,
};
pub use random::{generate_keys, KeyMaterial};
pub use report::{csv_header, csv_header_if_new, csv_row};
