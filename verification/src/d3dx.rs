//! Where the D3DX helper library is looked for.  The D3D9 version ships in
//! ModelMod's `TPLib` folder; the D3D11 version is first looked up by name
//! (so a system copy wins), then in an architecture folder under `TPLib`,
//! then as an architecture-suffixed file in `TPLib`.
use vstd::prelude::*;

verus! {

/// The architecture name used in file and folder names.
pub open spec fn arch_name(is_64bit: bool) -> Seq<char> {
    if is_64bit {
        "x86_64"@
    } else {
        "x86"@
    }
}

/// ModelMod's third-party library folder, with a trailing separator.
pub open spec fn tplib_dir(mm_root: Seq<char>) -> Seq<char> {
    mm_root + "\\TPLib\\"@
}

/// The D3D9 library, in `TPLib`.
pub open spec fn spec_d3dx9_path(mm_root: Seq<char>, is_64bit: bool) -> Seq<char> {
    tplib_dir(mm_root) + if is_64bit {
        "D3DX9_43_x86_64.dll"@
    } else {
        "D3DX9_43_x86.dll"@
    }
}

/// The places the D3D11 library is looked for, in order: each name alone
/// (the system search path), then each in `TPLib\<arch>\`, then each with
/// `_<arch>` before the extension in `TPLib`.  The last four are the ones
/// reported as searched when none loads.
pub open spec fn spec_d3dx11_paths(mm_root: Seq<char>, is_64bit: bool) -> Seq<Seq<char>> {
    let dir = tplib_dir(mm_root);
    let arch = arch_name(is_64bit);
    seq![
        "d3dx11_43.dll"@,
        "d3dx11_42.dll"@,
        dir + arch + "\\"@ + "d3dx11_43.dll"@,
        dir + arch + "\\"@ + "d3dx11_42.dll"@,
        dir + "d3dx11_43"@ + "_"@ + arch + ".dll"@,
        dir + "d3dx11_42"@ + "_"@ + arch + ".dll"@,
    ]
}

fn arch_str(is_64bit: bool) -> (r: &'static str)
    ensures
        r@ == arch_name(is_64bit),
{
    if is_64bit {
        "x86_64"
    } else {
        "x86"
    }
}

fn tplib(mm_root: &str) -> (r: String)
    ensures
        r@ == tplib_dir(mm_root@),
{
    let mut p = String::from_str(mm_root);
    p.append("\\TPLib\\");
    p
}

/// The path of the D3D9 library.
pub fn d3dx9_path(mm_root: &str, is_64bit: bool) -> (r: String)
    ensures
        r@ == spec_d3dx9_path(mm_root@, is_64bit),
{
    let mut p = tplib(mm_root);
    if is_64bit {
        p.append("D3DX9_43_x86_64.dll");
    } else {
        p.append("D3DX9_43_x86.dll");
    }
    p
}

/// The places to try, in order, for the D3D11 library.
pub fn d3dx11_paths(mm_root: &str, is_64bit: bool) -> (r: Vec<String>)
    ensures
        r@.len() == 6,
        forall|i: int| 0 <= i < 6 ==> #[trigger] r@[i]@ == spec_d3dx11_paths(mm_root@, is_64bit)[i],
{
    let arch = arch_str(is_64bit);
    let dir = tplib(mm_root);
    let mut r: Vec<String> = Vec::new();
    r.push(String::from_str("d3dx11_43.dll"));
    r.push(String::from_str("d3dx11_42.dll"));
    let mut p = dir.clone();
    p.append(arch);
    p.append("\\");
    p.append("d3dx11_43.dll");
    r.push(p);
    let mut p = dir.clone();
    p.append(arch);
    p.append("\\");
    p.append("d3dx11_42.dll");
    r.push(p);
    let mut p = dir.clone();
    p.append("d3dx11_43");
    p.append("_");
    p.append(arch);
    p.append(".dll");
    r.push(p);
    let mut p = dir.clone();
    p.append("d3dx11_42");
    p.append("_");
    p.append(arch);
    p.append(".dll");
    r.push(p);
    r
}

} // verus!
