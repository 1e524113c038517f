//! Snapshot configuration: how long a snapshot window lasts, whether
//! animations are captured, how many shader constants are kept, and which
//! meshes are snapped automatically.
use vstd::prelude::*;
use crate::text::{decimal, u64_to_decimal};
use crate::snap_plugin::{debug_text, str_debug};

verus! {

/// A mesh identified by its primitive and vertex counts.
#[derive(Clone, Copy, Debug, PartialEq, Eq, Hash, Structural)]
pub struct AutoSnapMesh {
    pub prims: u32,
    pub verts: u32,
}

impl AutoSnapMesh {
    pub fn new(prims: u32, verts: u32) -> (r: AutoSnapMesh)
        ensures
            r == (AutoSnapMesh { prims, verts }),
    {
        AutoSnapMesh { prims, verts }
    }
}

/// The snapshot configuration.
pub struct SnapConfig {
    /// Length of the snapshot window in milliseconds.
    pub snap_ms: u32,
    pub snap_anim: bool,
    pub require_gpu: Option<bool>,
    pub snap_anim_on_count: u32,
    pub vconsts_to_capture: usize,
    pub pconsts_to_capture: usize,
    /// Meshes snapped automatically during an animation snapshot (each once).
    pub autosnap: Option<Vec<AutoSnapMesh>>,
    pub plugins: Option<Vec<String>>,
    pub clear_sd_on_reset: bool,
}

impl SnapConfig {
    /// The default configuration: a 250 ms window, no animation, 224 vertex
    /// and pixel constants, no automatic snapping and no plugins.
    pub fn new() -> (r: SnapConfig)
        ensures
            r.snap_ms == 250,
            !r.snap_anim,
            r.require_gpu is None,
            r.snap_anim_on_count == 1,
            r.vconsts_to_capture == 224,
            r.pconsts_to_capture == 224,
            r.autosnap is None,
            r.plugins is None,
            !r.clear_sd_on_reset,
    {
        SnapConfig {
            snap_ms: 250,
            snap_anim: false,
            require_gpu: None,
            snap_anim_on_count: 1,
            vconsts_to_capture: 224,
            pconsts_to_capture: 224,
            autosnap: None,
            plugins: None,
            clear_sd_on_reset: false,
        }
    }

    /// 4096 constant sequences per whole second of the window, and at
    /// least 4096.
    pub open spec fn spec_max_const_sequences(self) -> nat {
        let seqs = (self.snap_ms / 1000) as nat * 4096;
        if seqs < 4096 {
            4096
        } else {
            seqs
        }
    }

    /// The number of constant sequences an animation snapshot can hold.
    /// The count must fit a `u32`.
    pub fn max_const_sequences(&self) -> (r: usize)
        requires
            self.snap_ms / 1000 * 4096 <= u32::MAX,
        ensures
            r == self.spec_max_const_sequences(),
    {
        let mut seqs: u32 = self.snap_ms / 1000 * 4096;
        if seqs < 4096 {
            seqs = 4096;
        }
        seqs as usize
    }

    /// The configuration as text, one setting per line.
    pub open spec fn spec_describe(self) -> Seq<char> {
        "SnapConfig {\n"@ + "  snap_ms: "@ + decimal(self.snap_ms as nat) + "\n"@ + "  clear_sd_on_reset: "@
            + bool_text(self.clear_sd_on_reset) + "\n"@ + "  snap_anim: "@ + bool_text(self.snap_anim) + "\n"@
            + (if self.snap_anim {
            "  require gpu: true (due to snap anim)\n"@
        } else {
            "  require gpu: "@ + option_bool_debug(self.require_gpu) + "\n"@
        }) + "  snap_anim_on_count: "@ + decimal(self.snap_anim_on_count as nat) + "\n"@
            + "  vconsts_to_capture: "@ + decimal(self.vconsts_to_capture as nat) + "\n"@
            + "  pconsts_to_capture: "@ + decimal(self.pconsts_to_capture as nat) + "\n"@ + (if self.snap_anim {
            "  max sequences: "@ + decimal(self.spec_max_const_sequences()) + "\n"@
        } else {
            Seq::empty()
        }) + autosnap_text(self.autosnap) + "  plugins: "@ + plugins_debug(self.plugins) + "\n"@ + "}\n"@
    }

    /// Describes the configuration, as its `Display` does.  With animation
    /// snapshots, the number of constant sequences must fit a `u32`.
    pub fn describe(&self) -> (r: String)
        requires
            self.snap_anim ==> self.snap_ms / 1000 * 4096 <= u32::MAX,
        ensures
            r@ == self.spec_describe(),
    {
        let mut s = String::from_str("SnapConfig {\n");
        s.append("  snap_ms: ");
        s.append(u64_to_decimal(self.snap_ms as u64).as_str());
        s.append("\n");
        s.append("  clear_sd_on_reset: ");
        s.append(bool_str(self.clear_sd_on_reset));
        s.append("\n");
        s.append("  snap_anim: ");
        s.append(bool_str(self.snap_anim));
        s.append("\n");
        if self.snap_anim {
            s.append("  require gpu: true (due to snap anim)\n");
        } else {
            s.append("  require gpu: ");
            s.append(option_bool_str(self.require_gpu));
            s.append("\n");
        }
        s.append("  snap_anim_on_count: ");
        s.append(u64_to_decimal(self.snap_anim_on_count as u64).as_str());
        s.append("\n");
        s.append("  vconsts_to_capture: ");
        s.append(u64_to_decimal(self.vconsts_to_capture as u64).as_str());
        s.append("\n");
        s.append("  pconsts_to_capture: ");
        s.append(u64_to_decimal(self.pconsts_to_capture as u64).as_str());
        s.append("\n");
        if self.snap_anim {
            s.append("  max sequences: ");
            s.append(u64_to_decimal(self.max_const_sequences() as u64).as_str());
            s.append("\n");
        }
        let a = autosnap_lines(&self.autosnap);
        s.append(a.as_str());
        s.append("  plugins: ");
        let p = plugins_str(&self.plugins);
        s.append(p.as_str());
        s.append("\n");
        s.append("}\n");
        s
    }
}

/// How `{}` prints a `bool`.
pub open spec fn bool_text(b: bool) -> Seq<char> {
    if b {
        "true"@
    } else {
        "false"@
    }
}

fn bool_str(b: bool) -> (r: &'static str)
    ensures
        r@ == bool_text(b),
{
    if b {
        "true"
    } else {
        "false"
    }
}

/// How `{:?}` prints an `Option<bool>`.
pub open spec fn option_bool_debug(o: Option<bool>) -> Seq<char> {
    match o {
        None => "None"@,
        Some(b) => if b {
            "Some(true)"@
        } else {
            "Some(false)"@
        },
    }
}

fn option_bool_str(o: Option<bool>) -> (r: &'static str)
    ensures
        r@ == option_bool_debug(o),
{
    match o {
        None => "None",
        Some(b) => if b {
            "Some(true)"
        } else {
            "Some(false)"
        },
    }
}

/// One line per automatically snapped mesh: `<prims>p <verts>v`.
pub open spec fn mesh_lines(v: Seq<AutoSnapMesh>) -> Seq<char>
    decreases v.len(),
{
    if v.len() == 0 {
        Seq::empty()
    } else {
        mesh_lines(v.drop_last()) + "    "@ + decimal(v.last().prims as nat) + "p "@ + decimal(v.last().verts as nat)
            + "v\n"@
    }
}

/// The automatic snapshot part of the description.
pub open spec fn autosnap_text(a: Option<Vec<AutoSnapMesh>>) -> Seq<char> {
    match a {
        None => "  no autosnap meshes\n"@,
        Some(v) => "  autosnap meshes:\n"@ + mesh_lines(v@),
    }
}

fn autosnap_lines(a: &Option<Vec<AutoSnapMesh>>) -> (r: String)
    ensures
        r@ == autosnap_text(*a),
{
    match a {
        None => String::from_str("  no autosnap meshes\n"),
        Some(v) => {
            let mut s = String::from_str("  autosnap meshes:\n");
            let ghost head = s@;
            let mut i: usize = 0;
            while i < v.len()
                invariant
                    i <= v@.len(),
                    head == "  autosnap meshes:\n"@,
                    s@ == head + mesh_lines(v@.take(i as int)),
                decreases v@.len() - i,
            {
                proof {
                    assert(v@.take(i + 1).drop_last() =~= v@.take(i as int));
                }
                let m = v[i];
                s.append("    ");
                s.append(u64_to_decimal(m.prims as u64).as_str());
                s.append("p ");
                s.append(u64_to_decimal(m.verts as u64).as_str());
                s.append("v\n");
                i = i + 1;
                proof {
                    assert(s@ =~= head + mesh_lines(v@.take(i as int)));
                }
            }
            proof {
                assert(v@.take(v@.len() as int) =~= v@);
            }
            s
        },
    }
}

/// The `{:?}` text of a list of strings, without the brackets.
pub open spec fn debug_items(v: Seq<String>) -> Seq<char>
    decreases v.len(),
{
    if v.len() == 0 {
        Seq::empty()
    } else if v.len() == 1 {
        str_debug(v[0]@)
    } else {
        debug_items(v.drop_last()) + ", "@ + str_debug(v.last()@)
    }
}

/// How `{:?}` prints an `Option<Vec<String>>`.
pub open spec fn plugins_debug(p: Option<Vec<String>>) -> Seq<char> {
    match p {
        None => "None"@,
        Some(v) => "Some(["@ + debug_items(v@) + "])"@,
    }
}

fn plugins_str(p: &Option<Vec<String>>) -> (r: String)
    ensures
        r@ == plugins_debug(*p),
{
    match p {
        None => String::from_str("None"),
        Some(v) => {
            let mut items = String::new();
            let mut i: usize = 0;
            while i < v.len()
                invariant
                    i <= v@.len(),
                    items@ == debug_items(v@.take(i as int)),
                decreases v@.len() - i,
            {
                proof {
                    assert(v@.take(i + 1).drop_last() =~= v@.take(i as int));
                }
                if i > 0 {
                    items.append(", ");
                }
                let d = debug_text(v[i].as_str());
                items.append(d.as_str());
                i = i + 1;
            }
            proof {
                assert(v@.take(v@.len() as int) =~= v@);
            }
            let mut s = String::from_str("Some([");
            s.append(items.as_str());
            s.append("])");
            s
        },
    }
}

} // verus!
