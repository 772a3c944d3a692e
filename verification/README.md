# wallet_unit_poc

The verified core of the wallet proof-of-concept provers (RS256 certificate
chains, the mobile FIDO flow, SLH-DSA-128s over secq256r1 and Goldilocks),
written in Verus.

- `src/` — the library. Every function has a contract; Verus proves all of
  them except three small trusted functions whose bodies call `hex::decode`,
  `num_bigint::BigInt`'s parsing and printing, and `str::to_uppercase`,
  and whose contracts are taken from those functions' source and
  documentation:
  - `r1cs`, `r1cs_layout`, `wtns`, `bytes`, `hex_codec`: the circom `.r1cs`
    and `.wtns` binary formats, read from in-memory images;
  - `slh_inputs`, `reshape_laws`, `slh_document`, `circuit_io`: SLH-DSA
    witness inputs, their nested shapes, the document written for the
    witness generator, public values and field-element encodings;
  - `cli`, `paths`, `text`: command lines and path rules;
  - `size_format`, `rs256_report`, `slh_report`: byte sizes as the reports
    print them, and the report tables;
  - `rs256_run`: the RS256 benchmark pipeline as a plan of steps and a run
    that records what each step reported;
  - `fido`, `fido_laws`: the mobile operations as plans of steps, a run
    that records what each step reported, and the laws the plans keep.
- `tests/` — tests of the library on concrete inputs.
- `app/` — the programs and the mobile API: file and memory-mapped I/O,
  JSON, clocks, and the calls into the Spartan2 prover, the witness
  generators and the circuit crates, driven by the library.
