# workshop

The game logic of a Bevy game workshop, verified with Verus. The library
(`src/`) holds what the lessons decide and compute, with contracts; `app/`
holds the Bevy programs that read input, spawn entities, play audio, do the
floating-point physics and carry out what the library decides.

- `input`: keys, key sets, the -1/0/1 axis of two opposite keys.
- `text`: decimal notation of integers for on-screen text.
- `audio`: the music and sound-effect catalogue, key labels, legend lines.
- `sounds`: one music track at a time; one-shot sound effects.
- `mixer`: independent music toggles, sound-effect voices with ordinals,
  and the voice cap that cuts the oldest voices first.
- `phases`: title, story, levels, game over, end, high scores; the options
  overlay; screen texts.
- `controls`: switchable input sources and the window title showing them.
- `persistence`: bounce score, HUD text, save/load/reset decisions.
- `mover`, `sprites`, `breakout`: movement directions from held keys.
- `arkanoid`: the playing field, wall/brick/paddle tile layouts, paddle
  steering and the serve coin flip.

`app/main.rs` runs a lesson chosen by its first argument.
