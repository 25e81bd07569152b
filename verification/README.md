# hilen

The logic of the hilen engine and its tools, proved with Verus: frame
pacing, the text renderer's caches, font runs and fallback fonts, caret
lookups, the meshes the scene tests build in code, image and gif
decoding, the inspector's app registry, the level test runner's argument
rules, and the small parsers around them (the WSL display scale,
`HILEN_MSAA`).

- `src/` is the verified library. Its public functions state in their
  `ensures` what they return or change, except where the answer is a
  reading of the machine's clock (`Clock::start`, `Clock::now_ns`); the
  `law_*` proof functions state what holds across several calls. Calls
  into the `image` and `web-time` crates and into the standard library
  that have no specification in vstd go through small wrappers whose
  contracts are trusted.
- `app/` holds what Verus does not see: reading the environment and
  files, the network browse, writing images, and the floating point
  geometry that places mesh vertices and shades their faces.
- `tests/` runs the library on concrete values.

Floating point values never enter `src/`: where the engine computes with
floats, the library is generic over the value (a vertex, an x offset, a
size) and the caller supplies it.
