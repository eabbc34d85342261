# ruvector-layoff-trap

A demand-circulation mincut model of the "AI Layoff Trap", calibrated on
FRED and BEA data.

- `src/` is the verified library: the sector calibration tables (held
  exactly, as integers in their published units), the grammar of FRED's
  `fredgraph.csv` export and the series built from it, the selection of the
  latest readings of a macro snapshot, the policy regimes, crossing-year
  detection and the report's row selection. Each function carries a
  contract proved by Verus.
- `app/` is the `layoff-trap-demo` program: FRED fetch over `curl`, the JSON
  cache, the real-valued circulation model (`app/circulation.rs`), the
  multi-period simulation (`app/simulation.rs`) and the printed report.
  These work in floating point and are not verified.
- `tests/` runs the library on concrete inputs.
