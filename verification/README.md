# Ecliptica data analyzer

Live combat analytics for the Ecliptica world of VRChat. The program follows
the game's log, recognises rooms, stages, intermissions, bosses, target locks
and damage lines, and turns them into a live snapshot (DPS figures, round
reports, danger flags, a visit-wide DPS series). It can publish a templated
message to the VRChat chat box over OSC, track whether the player stood still,
and receive heart-rate samples from a local sender.

## Layout

- `src/` — the verified library (Verus). Each public function states its
  result in `ensures` over mathematical models; the laws of the library are
  public proof functions named `law_*`.
  - `text.rs` — character-level helpers (trimming, replacing, decimal text).
  - `log_protocol.rs` — the log grammar: a line to an event and a diagnostic.
  - `totals.rs` — per-second damage totals.
  - `analysis.rs` — the model of the analyzer and its transitions, the
    snapshot, reports and the value texts.
  - `analyzer.rs` — the analyzer itself, proved to follow the model.
  - `log_reader.rs` — splitting read bytes into lines, status and backoff.
  - `osc.rs` — chat-box scheduling, rate limiting, rendering and packets.
  - `config.rs` — settings, presets, validation and migrations.
  - `template.rs` — cooldown timers and random choices of templates.
  - `keyboard.rs`, `runtime.rs` — the standstill tracker and its metric.
  - `heart_rate.rs` — the heart-rate receiver's decisions.
  - `alerts.rs` — boss-lock alerts and their sound spacing.
  - `ui_state.rs` — decisions of the settings window that draw nothing.
  - `i18n.rs` — the bilingual catalog.
- `tests/` — tests of the library on concrete values.
- `app/` — a headless runner: file and socket I/O, threads, the keyboard
  listener, the HTTP receiver, the settings file and the decimal-number parts
  (step estimate, one-decimal texts, alert volume and overlay size).

Times given to the library are milliseconds on a monotonic clock, or whole
seconds of the log's own clock.
