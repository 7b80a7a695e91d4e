# Helios benchmark

A synthetic benchmark of the SP1 Helios light client: it measures what it costs to prove and to
verify a chain of light-client updates, without any live RPC or execution-layer dependency.

`src/` is a library verified with Verus. It holds everything that the benchmark decides and
computes:

- `mode`, `proof_mode`: modes, specs, consensus presets and kinds of proof, and their names.
- `light_client`: the header and the sync committees of a light client, and their hash tree roots.
- `fixture`: the update chain, as the consensus client takes it and as the proof inputs carry it.
- `outputs`: what a replay of the chain commits to, on the host and in the proven program.
- `spans`: the durations of the prover's spans and their exact averages.
- `session`: the course of a run, as a state machine that asks for one action after the other.
- `course`: what holds of every run from its start to its end.
- `report`, `text`: the CSV report and the texts in it.

`app/` is the program around it: the command line, the prover, the consensus client, encoding, and
files. `tests/` runs the library on concrete values.

The library relies on three calls into other crates: `tree_hash::merkle_root` for Merkle roots,
`alloy_primitives::B256::repeat_byte`, and a `csv::Writer` for quoting. What is believed of each is
stated in the contract of the function that makes the call.

A run takes its prover from `SP1_PROVER`. With `mock` and `light` it makes core proofs, otherwise
Plonk proofs. Plonk proofs are verified, and so are those of the mock prover: a smoke test with it
goes the full prove/verify path without making real proofs.
