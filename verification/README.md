# scientific_workflow

The decision logic of a scientific workflow runtime, written in Verus and
proved against its contracts: phase declarations and task labels, phase
graphs and reuse selection, the phase and replicate schedulers, resource and
compute allocation, run control and the pause-aware clock, progress
registries, telemetry framing from external programs, observation sampling,
the bounded state-writer queue and chunking, reuse receipts, and
deterministic replicate seeds.

Layout:

- `src/` — the verified library. `runtime/` holds phases, scheduling,
  resources, control, telemetry and output naming; `observation/` the
  sampling plans and sessions; `persistence/` queueing, chunking and reuse
  checks; `reporting/` progress summaries and status lines; `state/` schemas;
  `rng_record.rs` replicate seeds and their provenance records. Each module
  states its contracts over spec functions and views; the public proof
  functions named `law_*` state the properties that span several calls.
- `tests/` — executable tests of the library on concrete values.
- `app/` — the unverified edge: processes, files, threads, terminal output,
  serialization, and the drivers that perform what the library decides.
