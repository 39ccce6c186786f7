# lafufu

Local-first behavioral intelligence: log adapters turn raw logs (syslog
authentication, generic JSON, GitHub and Docker events) into a behavior graph
of entities, events and edges; baselines learn how each entity behaves over
three time windows; detection reports drift and anomalies; the explanation
layer writes briefings, timelines and answers.

## Layout

- `src/` is the verified library (Verus). It holds the parsing of every log
  format, identity resolution, timestamp reading, configuration checks, the
  choice of adapter, the time windows, the profile features that events feed,
  the findings of detection and every report text. Each public function states
  what it returns in its contract; the laws of the library (alias resolution,
  deterministic replay, validated mappings, nested windows, the uniqueness of a
  timeline's day order, ...) are public proof functions.
- `app/` is the command-line program around it: SQLite storage (`rusqlite`),
  configuration files (`serde_yaml`), JSON decoding and export (`serde_json`),
  logging (`tracing`), the CLI (`clap`), and the statistics, profiles, signal
  scores and thresholds, which are floating-point computations.
- `tests/` exercises the library on concrete inputs.
