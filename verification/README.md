# Voxel Engine

A voxel game whose logic is verified with [Verus](https://github.com/verus-lang/verus).

- `src/` is the library. Every function states in `requires` and `ensures` what
  it needs and what it does, and Verus proves it. The `law_*` proof functions
  state what holds across functions.
  - `environment/`: chunks, greedy meshing, the world and its changes, streaming
    chunks in and out, terrain, water, rays, saved worlds.
  - `physics/`: what the player's body bumps into and where it finds room.
  - `logic/`: screens and settings, frames, keys and clicks, touches, what is
    drawn over the world, full screen on phones.
  - `engine/`: held keys, the outline of a block, decisions around frames.
  - `platform/`: crash reports and the session log.
  - `textures/`: the atlas, and putting it together from pictures.
  - `text.rs`: numbers, lines and white space in texts.
- `app/` is the program: window, graphics, input and files. Positions, speeds,
  noise and pixels are floating point and live there; the library works on the
  cells, samples and flags that follow from them.
- `tests/` runs the library.

The program reads its shaders from `assets/shaders/` and its textures from
`assets/textures/`. `voxel_engine template <picture> <row>` puts a cube template
into the texture atlas, `voxel_engine atlas` puts the atlas together from one
picture per face.
