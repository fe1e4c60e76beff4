# gshot

The rules of a small vertical scrolling shooter, proved with Verus.

`src/` is the verified library:

- `score`, `decimal` — the score, extra lives at every 50 000 points, the
  zero-padded counters and the saved high score text.
- `life`, `hud` — remaining lives, the life icons, the enemy health gauge,
  the frame-rate digits, the background grid size.
- `enemy`, `boss`, `explosion` — enemy health stages, what a destroyed or
  departing enemy yields, the boss's attack phases, the middle boss's
  reinforcement waves, explosion bursts.
- `enemy_list`, `spawn_schedule` — the spawn list text format and the
  schedule that spawns each listed enemy once.
- `se`, `game_state`, `game_clear`, `player` — sound batching, screen
  transitions, the end-of-game sequence, shots and movement input.

`app/` is the game program built on the Bevy engine: rendering, input,
audio, the per-frame systems and all single-precision geometry and timing.
