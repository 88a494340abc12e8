# snake_rs

The rules of a pastel snake game (Classic, Wrap and Zen modes, timed combos,
a difficulty ramp, settings and per-mode high scores) as a library whose
behaviour is stated in contracts and proved.

- `src/game.rs`: the board, the snake and one tick of play; laws of play.
- `src/settings.rs`, `src/menu.rs`, `src/text.rs`: settings, the settings
  screen and the text it shows.
- `src/persistence.rs`: the high-score table and what is saved and loaded.
- `src/session.rs`: the decisions of a play session between frames.
- `src/rng.rs`: the random numbers that place food (`rand`).
- `app/`: the macroquad program: window, keys, sound, drawing and the save
  file.

Times are integer microseconds throughout the library.
