//! Data exchanged with the managed side.
use vstd::prelude::*;

verus! {

/// The draw call a snapshot is taken of, as handed to the managed side.
pub struct SnapshotData {
    pub sd_size: u32,
    pub prim_type: i32,
    pub base_vertex_index: i32,
    pub min_vertex_index: u32,
    pub num_vertices: u32,
    pub start_index: u32,
    pub prim_count: u32,
    /// Address of the vertex declaration.
    pub vert_decl: usize,
    /// Address of the index buffer.
    pub index_buffer: usize,
}

} // verus!
