# seedwing_policy

Verified core of a policy engine's built-in functions and command-line
evaluation, written in Verus.

- `src/json.rs` – the JSON model that policy functions read, and member lookup.
- `src/osv.rs` – package descriptions to OSV vulnerability queries, and the
  decisions of a vulnerability scan.
- `src/severity.rs` – severities and their order.
- `src/and.rs` – the conjunction: stable evaluation order of its terms and
  its severity, with its laws.
- `src/eval.rs` – the `eval` command: patterns and inputs to evaluate,
  selected fields, and the run that stops at the first failure.
- `app/` – the I/O around it: serde conversions, the OSV client driver, the
  command-line arguments and the monitor feed's events.
