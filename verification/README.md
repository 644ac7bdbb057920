# imgui_godot

The decision-making core of a Dear ImGui backend for Godot, verified with Verus.

`src/` (verified):

- `registry` — `TextureRegistry<T>`: texture ids for Dear ImGui draw commands,
  starting at 1, never reused; lookups and releases.
- `atlas` — replacing the font atlas texture on a rebuild.
- `render` — planning draw commands: the 16-bit vertex window of each command,
  its window-relative index list, its triangles, and the range check on a draw list.
- `clip` — Sutherland-Hodgman passes over a polygon given which vertices are on
  the kept side, and the fan triangulation of the result.
- `canvas` — `CanvasRenderer`: the canvas/item/layer state and the
  rendering-server calls it asks for (setup, restacking, per-frame clearing, freeing).
- `signal` — the argument list of a change signal.

`app/` (plain Rust): the Godot and Dear ImGui calls that carry these plans out,
and the floating-point geometry (vertex conversion, bounds, cut points).
