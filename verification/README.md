# orbitty

A terminal screensaver of slowly spinning planets. This crate is its verified
core, written in Verus, with the terminal program around it in `app/`.

- `src/palette.rs` – colours and the true-colour escape sequences.
- `src/planets.rs` – the eight planets, names of generated planets, texture hashes.
- `src/renderer.rs` – terminal cells, star colours, folding half-block pixels into
  cells, the title / seed / prompt / help overlays, and the stream of escape
  sequences that redraws what changed.
- `src/controls.rs` – the `--planet` argument and the keyboard controls as a state
  machine from key to next state and action.
- `src/terminal.rs` – a model of the terminal that reads that stream (cursor moves,
  colour settings, printable characters), with the proof that a flush brings a
  terminal showing the previous frame to the new one, and that different colours
  are selected by different sequences.
- `src/seeds.rs` – planet seeds from the clock (proved one-to-one in the clock's
  multiply-add value), the falling-star hash.
- `src/text.rs` – decimal and hexadecimal numerals, ASCII case, string comparison.

`app/` holds what is floating point or I/O: the sphere projection and shading, the
planets' surface textures, rings and moons, argument parsing with clap, and the
terminal loop with crossterm.
