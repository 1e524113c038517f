//! The database of loaded mods: mods grouped by the key of the reference
//! geometry they apply to, an index from mod name to that key, and the variant
//! selected for each key.
use vstd::prelude::*;
use fnv::FnvHashMap;
use crate::fnv_maps::{fnv_map_new, name_map_new, name_index};
use crate::native_mod::NativeModData;

verus! {

pub struct LoadedModState {
    /// Mods by reference-geometry key (see `NativeModData::mod_key`).
    pub mods: FnvHashMap<u32, Vec<NativeModData>>,
    /// Mod key by (lowercased) mod name.
    pub mods_by_name: FnvHashMap<String, u32>,
    /// Index of the selected variant within `mods[key]`, by key.
    pub selected_variant: FnvHashMap<u32, usize>,
}

impl LoadedModState {
    /// A state with no mods, no names and no variant selections.
    pub fn new() -> (s: LoadedModState)
        ensures
            s.mods@.dom() == Set::<u32>::empty(),
            name_index(s.mods_by_name).dom() == Set::<Seq<char>>::empty(),
            s.selected_variant@.dom() == Set::<u32>::empty(),
    {
        LoadedModState {
            mods: fnv_map_new(),
            mods_by_name: name_map_new(),
            selected_variant: fnv_map_new(),
        }
    }
}

} // verus!
