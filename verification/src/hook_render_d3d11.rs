//! What the D3D11 context hooks record: the vertex buffers bound for the
//! next draw, and how often setting constant buffers found the context
//! unhooked.
use vstd::prelude::*;
use crate::dx11rs::DX11RenderState;
use crate::types::DX11Metrics;

verus! {

/// The vertex buffer state after binding `buffers` (each slot's byte width
/// and stride, `None` for a null buffer): every non-null buffer is added
/// with its slot, and the earlier state is dropped when slot 0 holds a
/// buffer (a call with one null buffer, as some games make before a draw,
/// keeps it).
pub open spec fn bound_after(state: Seq<(u32, u32, u32)>, buffers: Seq<Option<(u32, u32)>>) -> Seq<(u32, u32, u32)>
    decreases buffers.len(),
{
    if buffers.len() == 0 {
        state
    } else {
        let k = buffers.len() - 1;
        let before = bound_after(state, buffers.drop_last());
        match buffers[k] {
            None => before,
            Some((bw, stride)) => if k == 0 {
                seq![(0u32, bw, stride)]
            } else {
                before.push((k as u32, bw, stride))
            },
        }
    }
}

/// The vertex buffer state after `IASetVertexBuffers` with `buffers` (`None`
/// for a null array): binding no buffers clears the state.
pub open spec fn spec_set_vertex_buffers(
    state: Seq<(u32, u32, u32)>,
    buffers: Option<Seq<Option<(u32, u32)>>>,
) -> Seq<(u32, u32, u32)> {
    match buffers {
        Some(b) => if b.len() > 0 {
            bound_after(state, b)
        } else {
            Seq::empty()
        },
        None => state,
    }
}

/// Records the vertex buffers the game binds.
pub fn set_vertex_buffers(rs: &mut DX11RenderState, buffers: Option<&Vec<Option<(u32, u32)>>>)
    requires
        buffers matches Some(b) ==> b@.len() <= u32::MAX,
    ensures
        final(rs).vb_state@ == spec_set_vertex_buffers(
            old(rs).vb_state@,
            match buffers {
                Some(b) => Some(b@),
                None => None,
            },
        ),
        final(rs).current_input_layout == old(rs).current_input_layout,
        final(rs).context_input_layouts_by_ptr == old(rs).context_input_layouts_by_ptr,
        final(rs).device_index_buffer_data == old(rs).device_index_buffer_data,
        final(rs).device_vertex_buffer_data == old(rs).device_vertex_buffer_data,
{
    let b = match buffers {
        Some(b) => b,
        None => {
            return;
        },
    };
    if b.len() == 0 {
        rs.vb_state = Vec::new();
        return;
    }
    let ghost s0 = rs.vb_state@;
    let mut i: usize = 0;
    while i < b.len()
        invariant
            i <= b@.len() <= u32::MAX,
            rs.vb_state@ == bound_after(s0, b@.take(i as int)),
            rs.current_input_layout == old(rs).current_input_layout,
            rs.context_input_layouts_by_ptr == old(rs).context_input_layouts_by_ptr,
            rs.device_index_buffer_data == old(rs).device_index_buffer_data,
            rs.device_vertex_buffer_data == old(rs).device_vertex_buffer_data,
        decreases b@.len() - i,
    {
        proof {
            assert(b@.take(i + 1).drop_last() =~= b@.take(i as int));
            assert(b@.take(i + 1)[i as int] == b@[i as int]);
        }
        match b[i] {
            Some((bw, stride)) => {
                if i == 0 {
                    rs.vb_state = Vec::new();
                }
                rs.vb_state.push((i as u32, bw, stride));
                proof {
                    if i == 0 {
                        assert(rs.vb_state@ =~= seq![(0u32, bw, stride)]);
                    }
                }
            },
            None => {},
        }
        i = i + 1;
    }
    proof {
        assert(b@.take(b@.len() as int) =~= b@);
    }
}

/// Counts a `VSSetConstantBuffers` call; `rehooked` is the number of context
/// functions that had to be hooked again (`None` if rehooking failed).  A
/// call that rehooked something is counted as a hook.
pub fn note_vs_set_constant_buffers(m: &mut DX11Metrics, rehooked: Option<i32>)
    requires
        old(m).vs_set_const_buffers_calls < u32::MAX,
        old(m).vs_set_const_buffers_hooks < u32::MAX,
    ensures
        final(m).vs_set_const_buffers_calls == old(m).vs_set_const_buffers_calls + 1,
        final(m).vs_set_const_buffers_hooks == old(m).vs_set_const_buffers_hooks + (if rehooked matches Some(n)
            && n > 0 {
            1int
        } else {
            0
        }),
        final(m).last_reset == old(m).last_reset,
        final(m).drawn_recently == old(m).drawn_recently,
        final(m).rehook_time_nanos == old(m).rehook_time_nanos,
        final(m).rehook_calls == old(m).rehook_calls,
{
    m.vs_set_const_buffers_calls = m.vs_set_const_buffers_calls + 1;
    match rehooked {
        Some(n) => {
            if n > 0 {
                m.vs_set_const_buffers_hooks = m.vs_set_const_buffers_hooks + 1;
            }
        },
        None => {},
    }
}

} // verus!
