# zkguest

Guest programs for zero-knowledge virtual machines, written in Verus and
proved against their specifications: settlement and authorisation rules,
credential checks, integer inference kernels, hashing pipelines, an ordered
map workload, and the byte formats that carry each program's input and
output. A driver decides, from a command line and an ELF image, what a run of
a guest is asked for and prints one contract line.

Layout:

- `src/` — the verified library, one module per program plus shared modules
  (`bytes` for little-endian layouts, `bits`, `digests`, `ordered_map`).
  Calls into outside crates (hashing, big integers, elliptic curves, postcard,
  object files, symbol demangling, hex, random numbers) go through small
  trusted wrappers whose contracts are stated in their doc comments.
- `tests/` — tests of the library on concrete values.
- `app/` — the driver program and the parts that need the zkVM itself, its
  inline curve crates, the Ethereum crates, foreign code or floating point.

Run `verus` on `src/lib.rs` to check the proofs.
