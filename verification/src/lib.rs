use vstd::prelude::*;

pub mod fnv_maps;
pub mod native_mod;
pub mod loaded_mods;
pub mod mod_render;
pub mod mod_prefs;
pub mod dx11rs;
pub mod text;
pub mod error;
pub mod util;
pub mod mod_stats;
pub mod strings;
pub mod debugmode;
pub mod dnclr;
pub mod shader_capture;
pub mod types;
pub mod interop;
pub mod snap_plugin;
pub mod hook_dynamic_buffers;
pub mod mod_load;
pub mod global_state;
pub mod hook_render;
pub mod input_commands;
pub mod anim_snap_state;
pub mod hook_snapshot;
pub mod mesh_update;
pub mod device_monitor;
pub mod hook_device_d3d11;
pub mod snap_config;
pub mod texture_tracking;
pub mod d3dx;
pub mod hook_render_d3d11;

verus! {

} // verus!
