# Embedded plugin editor logic, verified

A Verus library holding the decision logic of audio-plugin editors that
live inside a host's window: size negotiation, the hosted-view lifecycle,
keyboard translation and de-duplication, a numeric text field, and the
integer layout of the waveform view.

- `src/` — the verified library (crate name `lib`): every function carries
  a `requires`/`ensures` contract proved by Verus, and the `law_*` proof
  functions state properties that span several calls. The proofs rest on
  four trusted standard-library contracts whose bodies Verus does not
  check: the wrappers of `char::from_u32`, `str::to_lowercase` and
  `char::to_lowercase` (in `chars` and `strings`), and the
  `assume_specification` of `String::push`.
- `tests/` — executable tests against the compiled library.
- `app/` — floating-point and platform glue around the library (DPI
  scaling, sample interpolation, screenshot files); it is type-checked
  only.

Modules of `src/`:

| module | contents |
| --- | --- |
| `size_contract` | free and fixed-aspect size contracts for hosted editors |
| `radiant_host`, `gpui_host` | lifecycle and resize state of hosted editor views |
| `vst3_keys`, `mac_keys`, `windows_keys` | host and platform key translation |
| `events`, `key_routing` | event ledger and cross-source key correlation |
| `text`, `numeric_input` | UTF-16 offsets and the numeric draft editor |
| `waveform`, `waveform_glow`, `waveform_contour`, `waveform_columns` | waveform frame plan and assembly, grid, glow budgets, polylines, envelope columns |
| `piano`, `screenshot`, `state` | keyboard key layout, screenshot sizes, state limits |
| `arith`, `chars`, `strings` | shared integer, character and string facts |
