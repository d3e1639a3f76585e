# SquelchBox

A TB-303-style bassline synthesizer whose sequencer and editing core is
formally proved correct against its specifications.

- `src/` — the verified library (`squelchbox`):
  - `pattern` — steps, patterns, the four-slot bank, per-step events,
    rotation, transposition and the seeded randomizer.
  - `sequencer` — the state machine that turns clock ticks into voice
    triggers (step-0 bootstrap, slide demotion, gate bridging).
  - `transport` — per-block transport planning (internal / host / MIDI
    sync), loop-start bank switches, how notes reach the voice.
  - `kbd`, `edit`, `keys` — the editor/audio shared state, pattern
    edits, step navigation and the computer-keyboard map.
  - `midi` — Standard MIDI File export of a pattern.
  - `fx`, `cc`, `paths` — effect selectors, the MIDI CC map, file
    locations.
- `tests/` — tests run against the compiled library.
- `app/` — the plugin around the library: float DSP, the sample clock,
  parameters, the egui editor, persistence and file output.
