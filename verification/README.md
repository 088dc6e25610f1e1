# Drums gameplay logic, verified

The gameplay rules of a drums-first DTX rhythm game, written in Verus and
proved against their contracts: chart-driven decisions that run every frame,
and the state machines of the in-game Customize editor.

## Layout

- `src/` — the verified library.
  - `lane_map`, `drum_groups` — channel/lane mapping and the pad-to-chip
    judgment resolver (hi-hat, floor tom, cymbal and pedal groups).
  - `damage_level`, `drums_perf`, `drawable_sub_acts`,
    `drums_screen_sub_acts` — HP and danger gauges, per-frame counters.
  - `autoplay`, `bgm_scheduler`, `beat_lines` — the autoplay bot, BGM chip
    cues and recovery, timing lines and the metronome.
  - `editor` and `editor/` — the Customize surface: profile drafts and the
    dirty-close guard, profile registries and their transactional write,
    keyboard/pad navigation, binding capture and binding rows, lane
    reordering, dialogs, guided calibration.
- `tests/` — executable tests of the library.
- `app/` — `f32` and `Instant` helpers that sit around the library (gauge
  ratios, the wall-clock calibration schedule, drag geometry).
