# unm

A small 2D/3D game engine core: the renderer's bookkeeping, materials and their uniform
buffers, input state, and the sound-effect mixer, written in Verus and proved against
their contracts.

## Layout

- `src/` — the verified library.
  - `id_map` — a map that hands out fresh handles and never reuses one.
  - `uniform`, `uniform_layout`, `uniform_values`, `names` — WGSL uniform types, the
    layout of a material's uniform buffer (by name, aligned), and its contents.
  - `material` — material descriptions (blending, depth, stencil, primitives) and a
    material's user uniforms.
  - `graphics`, `render_plan` — recorded draws, their order, batching into draw calls,
    render-pass planning and other frame decisions.
  - `input` — mouse buttons and touch points, frame by frame.
  - `resolution`, `msaa`, `game_settings` — window size, anti-aliasing and the settings
    a game changes while it runs.
  - `clip`, `atlas`, `mixer`, `player`, `wav` — sound effects: WAV headers, where each clip
    lies in the sound atlas, what each mixing pass adds, and the audio backend interface.
- `tests/` — tests of the library on concrete values.
- `app/` — the window (`winit`), the GPU side (`wgpu`), the audio stream (`cpal`) and a
  sample game, around the library.
