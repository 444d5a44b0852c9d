# latte

The core of a latency tester for CQL and Alternator databases, written in Verus.

- `src/` is the verified library.
  - `cql/` binds script values to columns, decodes what the database returns, and decides, page
    by page and attempt by attempt, how a statement or a batch is executed.
  - `alternator/` converts between script values and Alternator attributes.
  - `stats/` counts requests and sums up samples and runs.
  - `retry_error`, `executor`, `config` and `terminal` hold the rest of the rules of a run.
- `tests/` runs the library on concrete values, with the driver and the other crates linked.
- `app/` is the program around it: arguments, connections, clocks, floating point and files.

What the library takes from other crates stands behind a few functions marked
`#[verifier::external_body]`. Each says what is claimed of the function that it calls.
Floating-point numbers are carried as bits or as the text or operation that gives them; `app/`
computes with them.
