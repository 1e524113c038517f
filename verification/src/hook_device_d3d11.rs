//! Decisions of D3D11 hooking: how much of an object's vtable to copy, and
//! which device-context entries to point at the hooks.  The vtable memory
//! itself is patched by the caller.
use vstd::prelude::*;

verus! {

/// Why a vtable cannot be copied.
#[derive(Clone, Copy, Debug, PartialEq, Eq, Structural)]
pub enum VtableSizeError {
    /// Interface sizes are given for 64-bit pointers; other widths than 32
    /// and 64 bits are not supported.
    UnsupportedPointerWidth(u32),
}

/// The number of bytes of vtable to copy: the size of the largest interface
/// the object supports (`found`, an index into `iface_sizes`, whose sizes
/// assume 8-byte pointers and are halved for 4-byte ones), or the base
/// interface's `base_size` if it supports none of them.
pub open spec fn spec_vtable_copy_size(
    iface_sizes: Seq<usize>,
    found: Option<usize>,
    pointer_width: u32,
    base_size: usize,
) -> Result<usize, VtableSizeError> {
    match found {
        Some(i) => if pointer_width == 32 {
            Ok((iface_sizes[i as int] / 2) as usize)
        } else if pointer_width == 64 {
            Ok(iface_sizes[i as int])
        } else {
            Err(VtableSizeError::UnsupportedPointerWidth(pointer_width))
        },
        None => Ok(base_size),
    }
}

/// How many bytes of vtable to copy for an object.
pub fn vtable_copy_size(iface_sizes: &Vec<usize>, found: Option<usize>, pointer_width: u32, base_size: usize) -> (r:
    Result<usize, VtableSizeError>)
    requires
        found matches Some(i) ==> i < iface_sizes@.len(),
    ensures
        r == spec_vtable_copy_size(iface_sizes@, found, pointer_width, base_size),
{
    match found {
        Some(i) => {
            if pointer_width == 32 {
                Ok(iface_sizes[i] / 2)
            } else if pointer_width == 64 {
                Ok(iface_sizes[i])
            } else {
                Err(VtableSizeError::UnsupportedPointerWidth(pointer_width))
            }
        },
        None => Ok(base_size),
    }
}

/// The device-context entries that are hooked, each true if it already
/// points at its hook.
#[derive(Clone, Copy, Debug, PartialEq, Eq, Structural)]
pub struct ContextHooks {
    pub query_interface: bool,
    pub release: bool,
    pub draw_indexed: bool,
    pub ia_set_vertex_buffers: bool,
    pub ia_set_input_layout: bool,
    pub ia_set_primitive_topology: bool,
    pub ps_set_shader_resources: bool,
}

/// The entries to patch: every one not yet hooked, except the draw entry
/// while draw hooking is not enabled.
pub open spec fn spec_context_hooks_to_apply(installed: ContextHooks, draw_enabled: bool) -> ContextHooks {
    ContextHooks {
        query_interface: !installed.query_interface,
        release: !installed.release,
        draw_indexed: draw_enabled && !installed.draw_indexed,
        ia_set_vertex_buffers: !installed.ia_set_vertex_buffers,
        ia_set_input_layout: !installed.ia_set_input_layout,
        ia_set_primitive_topology: !installed.ia_set_primitive_topology,
        ps_set_shader_resources: !installed.ps_set_shader_resources,
    }
}

/// The number of entries marked.
pub open spec fn hook_count(h: ContextHooks) -> int {
    (if h.query_interface { 1int } else { 0 }) + (if h.release { 1int } else { 0 }) + (if h.draw_indexed {
        1int
    } else {
        0
    }) + (if h.ia_set_vertex_buffers { 1int } else { 0 }) + (if h.ia_set_input_layout { 1int } else { 0 })
        + (if h.ia_set_primitive_topology { 1int } else { 0 }) + (if h.ps_set_shader_resources {
        1int
    } else {
        0
    })
}

fn one_if(b: bool) -> (r: i32)
    ensures
        r == (if b { 1int } else { 0 }),
{
    if b {
        1
    } else {
        0
    }
}

/// Which device-context entries to patch, and how many that is.
pub fn context_hooks_to_apply(installed: ContextHooks, draw_enabled: bool) -> (r: (ContextHooks, i32))
    ensures
        r.0 == spec_context_hooks_to_apply(installed, draw_enabled),
        r.1 == hook_count(r.0),
{
    let h = ContextHooks {
        query_interface: !installed.query_interface,
        release: !installed.release,
        draw_indexed: draw_enabled && !installed.draw_indexed,
        ia_set_vertex_buffers: !installed.ia_set_vertex_buffers,
        ia_set_input_layout: !installed.ia_set_input_layout,
        ia_set_primitive_topology: !installed.ia_set_primitive_topology,
        ps_set_shader_resources: !installed.ps_set_shader_resources,
    };
    let n = one_if(h.query_interface) + one_if(h.release) + one_if(h.draw_indexed) + one_if(
        h.ia_set_vertex_buffers,
    ) + one_if(h.ia_set_input_layout) + one_if(h.ia_set_primitive_topology) + one_if(h.ps_set_shader_resources);
    (h, n)
}

/// Hooking an already hooked context patches nothing more.
pub proof fn lemma_rehook_is_idempotent(installed: ContextHooks, draw_enabled: bool)
    ensures
        ({
            let applied = spec_context_hooks_to_apply(installed, draw_enabled);
            let after = ContextHooks {
                query_interface: installed.query_interface || applied.query_interface,
                release: installed.release || applied.release,
                draw_indexed: installed.draw_indexed || applied.draw_indexed,
                ia_set_vertex_buffers: installed.ia_set_vertex_buffers || applied.ia_set_vertex_buffers,
                ia_set_input_layout: installed.ia_set_input_layout || applied.ia_set_input_layout,
                ia_set_primitive_topology: installed.ia_set_primitive_topology || applied.ia_set_primitive_topology,
                ps_set_shader_resources: installed.ps_set_shader_resources || applied.ps_set_shader_resources,
            };
            hook_count(spec_context_hooks_to_apply(after, draw_enabled)) == 0
        }),
{
}

} // verus!
