# pybeamguard

Static analysis of Apache Beam, Flink and Spark pipeline sources, verified
with Verus.

- `src/` is the library. Parsers turn Python pipeline source into a
  pipeline graph (`parser`, `frameworks`); analyzers inspect the graph and
  report findings and metrics (`analyzers`); `reporting`, `insights` and
  `inspect` summarise, rank, filter and format results; `cli` holds the
  command-line rules; `commercial`, `ecosystem` and `rules` hold governance
  settings, integration records and detection thresholds. Every function
  carries a contract. Verus proves all of them except a few trusted wrappers
  around outside code (regular expressions from `regex`, UUIDs from `uuid`,
  std's `to_lowercase`, collecting characters into a `String` and `Debug`
  formatting), whose contracts are stated, not proved. Fractional quantities
  are integers in thousandths.
- `app/` is the `pybeamguard` command: argument handling, file reading,
  JSON and YAML input, JSON output.
- `tests/` exercises the library on concrete pipelines and results.
