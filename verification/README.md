# Lycan

An adaptive graph runtime: programs are graphs whose decision nodes learn which
of their options to take. The rules of the runtime are proved with Verus.

- `src/` is the library. Every function states in its contract what it returns
  or changes; `*_laws.rs` and the public proof functions hold what relates
  several functions, such as that what is written is read back.
- `tests/` runs the library on concrete values.
- `app/` is the command line around it: files, the network, the clock, random
  rolls and floating-point arithmetic.

The library computes with the bit patterns of floating-point numbers: it
compares, orders, clamps and converts them, and asks its host for sums,
products and roots. Runs, evolution and capabilities are machines that say what
the host is to do next and take its answer.

| Area | Modules |
| --- | --- |
| Programs | `ast`, `binary`, `graph`, `graph_compiler`, `source_text` |
| Runs | `run_model`, `graph_executor`, `weighing`, `run_laws`, `weight_laws`, `ops`, `values`, `slots` |
| Capabilities | `capabilities`, `cap_calls`, `cap_args`, `sandbox`, `context`, `ephemeris`, `json_path` |
| Learning | `learning`, `feedback`, `learning_config`, `learning_stats`, `learning_memory`, `capsule_memory`, `meta_bandit`, `conformal`, `change_detection`, `linucb`, `feature_schema` |
| Trees of decisions | `hierarchical`, `hierarchical_state`, `hierarchical_feedback`, `hierarchical_json` |
| Store | `auth_tokens`, `backup`, `digest` |
| Tools | `commands`, `evolution_loop`, `evolution_report`, `program_edits`, `reports`, `inspect`, `stats_report`, `combinatorics` |
| Base | `number`, `json`, `json_text`, `message`, `table`, `text`, `strings`, `parse`, `sorting`, `bytes` |
