# wwm_midi_player

A MIDI player for *Where Winds Meet* on native Linux: it parses a Standard
MIDI File, maps every note onto the game's 21-key or 36-key keyboard layout,
and plays the song either as a local audio preview or by typing the keys into
the game through a virtual `/dev/uinput` keyboard.

The core is written in Verus and proved against its contracts.

## Layout

- `src/` — the verified library:
  - `mapping` — pitch to key chord (21-key and 36-key layouts, closest and raw
    modes), with laws on what each chord sounds.
  - `smf`, `tempo`, `midi` — reading a file parsed by `midly` into plain
    values, the tempo map, the time-ordered note events, and the detection of
    the best transpose and octave fold.
  - `order` — a stable sort by key and removal of repeated items, specified by
    what they keep.
  - `player` — the playback transport: commands and clock ticks in, state and
    effects (events, taps, preview notes) out.
  - `input` — key codes of chords and the press/release event sequences of the
    virtual keyboard.
  - `playlist`, `listing`, `queue`, `paths` — the song list, the scan of
    folders for MIDI files, queued playback with looping, and path names.
  - `bridge`, `hotkeys`, `preview`, `inspect`, `text` — the decisions of the
    front-ends, the global shortcuts, the instrument preview (SoundFont choice,
    loading and the `rustysynth` synthesizer), the event listing of the CLI,
    and text helpers.
  - `sf2` — the chunk layout of a SoundFont 2 file: what keeps the indices
    and sample positions that `rustysynth` reads unchecked in range.
- `tests/` — tests of the library.
- `app/` — the program around it: the command line (`inspect`, `play`,
  `hotkeys`), the playback thread, the uinput device, audio output, the
  portal shortcuts, playlist storage and the Qt front-end.
