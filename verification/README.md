# mdlvis

A viewer for Warcraft III models, with its logic written in Verus and
proved against its contracts.

## Layout

- `src/` — the verified library.
  - `model` — the in-memory model; every float of the file format is kept
    as its IEEE-754 bit pattern.
  - `bytes`, `mdx_spec`, `mdx`, `parser`, `error` — reading a model file:
    the binary MDX format is specified as functions on bytes (`mdx_spec`)
    and read by code proved to compute exactly that (`mdx`).
  - `mesh`, `render`, `glow` — what the renderer draws: one vertex and index
    buffer for all geosets, the draws of each pass, the skeleton's lines,
    the team glow texture and the texture slots.
  - `animation`, `hierarchy` — keyframe search, parent resolution and the
    order in which skeleton nodes are placed, with the proof that parents
    come first.
  - `camera`, `events`, `registry`, `stats`, `textures` — the controls'
    state machine, the answer to window events, the handler registry, the
    figures the panels show and the URLs of textures.
- `tests/` — tests of the library on concrete values.
- `app/` — a command-line front end: file and network I/O, settings, and the
  floating-point work (interpolation, transforms, projection).  It has no
  window: the GPU, window and GUI crates (wgpu, winit, egui and its
  integrations, rfd) are not among its dependencies, so the drawing itself,
  the panels and the window event loop are not part of this project; what
  they decide (the draws of each pass, the answer to each window event, the
  panels' figures) is in the library.
