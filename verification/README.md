# Multi-bit PBS grouping factors

A verified library around the multi-bit programmable bootstrap (PBS) of `tfhe` 0.8.7, and a
Criterion benchmark on top of it that times the production grouping factors 2 and 3.

No cryptography is implemented here: key generation, encryption, the bootstrap and decryption are
calls into `tfhe`. What the library adds is proved with Verus: which parameters a bootstrap can be
prepared for, the size of the key that they ask for, the encoding of messages and its tolerance to
noise, the correctness check, and the report.

- `src/params.rs`: parameter sets and key sizes; a larger grouping factor has fewer groups and a
  larger key.
- `src/encoding.rs`: encoding with one padding bit, rounding decode.
- `src/lwe.rs`: what the scalars of keys, ciphertexts and lookup tables mean.
- `src/core_crypto.rs`, `src/random.rs`: the calls into `tfhe`, each with what is claimed of it, the
  second those that draw random numbers. Nothing else is taken on trust. `src/random.rs` also
  generates the key material as a whole and takes the time of it.
- `src/bootstrap.rs`: prepare once, run, check.
- `src/report.rs`: the comma-separated report.
- `app/`: the benchmark.

`std_bsk_size_mb` in the report is the size of the key in the standard domain, in 64-bit scalars.
The bootstrap consumes the key in the Fourier domain, whose footprint differs.
