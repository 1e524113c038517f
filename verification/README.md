# modelmod

The native core of ModelMod, a system that replaces 3D models (and
optionally textures) in games at the renderer level, as a Verus-verified
library.

## Layout

- `src/` — the verified library (`modelmod`). Every function carries a
  `requires`/`ensures` contract proved by Verus.
  - Mod database: `native_mod`, `loaded_mods`, `mod_load` (building the
    database from what the managed side loaded, planning resource creation),
    `mod_render` (choosing which mod to draw, variants, texture checksums),
    `mod_prefs` (persisted variant selections), `mod_stats` (usage
    statistics and the stats file update).
  - Render state: `dx11rs` (input layouts, vertex formats, primitive counts),
    `hook_dynamic_buffers` (copies of mesh buffers the game writes),
    `texture_tracking` (D3D9 `UpdateTexture` sources), `global_state`,
    `hook_render`, `input_commands`, `types`.
  - Snapshots: `hook_snapshot`, `anim_snap_state`, `snap_config`,
    `snap_plugin`, `mesh_update` (normal/tangent update decisions).
  - Hooking decisions and diagnostics: `hook_device_d3d11`,
    `device_monitor`, `debugmode`, `d3dx`, `dnclr`, `shader_capture`.
  - Support: `text` (decimal/hex rendering), `strings`, `util` (log
    limits), `error`, `fnv_maps` (the FNV hash maps behind trusted wrappers).
- `tests/` — tests of the library on concrete values.
- `app/` — the host side: log file, preferences and configuration files
  (serde/YAML), the statistics writer thread, debug mode file, the frame
  loading and device monitor drivers, the normal/tangent update plan, and the
  floating-point parts (vector encodings, frame rate).

A mod's parent text may name several parents, separated by white space; the
child is drawn while exactly one of them is active (an "or" list).  Names
and parent names are trimmed and lowercased, so they match case-insensitively.

The Direct3D hooks themselves (COM vtables, the Windows API, the .NET
runtime host) are Windows-only and are not part of this crate; the
decisions they make are functions of the library.
