//! Starting the managed side: the contexts the managed runtime can be
//! started in, the name of the copy of the managed library that is loaded,
//! the argument its entry point receives and what its return code means.
use vstd::prelude::*;
use crate::text::{decimal, u64_to_decimal};

verus! {

/// Running outside of any known D3D renderer (as in tests).
pub const RUN_CONTEXT_MMNATIVE: &'static str = "mm_native";

/// Running in a D3D9 renderer.
pub const RUN_CONTEXT_D3D9: &'static str = "d3d9";

/// Running in a D3D11 renderer.
pub const RUN_CONTEXT_D3D11: &'static str = "d3d11";

/// The context assumed when none is given: D3D9.
pub fn get_run_context() -> (r: &'static str)
    ensures
        r@ == "d3d9"@,
{
    "d3d9"
}


/// The version of the native code the managed side must match.
pub const NATIVE_CODE_VERSION: i32 = 4;

/// `n` in decimal, padded with zeros to at least three digits.
pub open spec fn pad3(n: nat) -> Seq<char> {
    if n < 10 {
        "00"@ + decimal(n)
    } else if n < 100 {
        "0"@ + decimal(n)
    } else {
        decimal(n)
    }
}

/// The name of the `idx`-th temporary copy of the managed library (the
/// library is loaded from a copy so that its file can be replaced).
pub open spec fn spec_temp_dll_name(idx: nat) -> Seq<char> {
    "TempMMManaged"@ + pad3(idx) + ".dll"@
}

/// `format!("TempMMManaged{:03}.dll", idx)`.
pub fn temp_dll_name(idx: u32) -> (r: String)
    ensures
        r@ == spec_temp_dll_name(idx as nat),
{
    let mut s = String::from_str("TempMMManaged");
    if idx < 10 {
        s.append("00");
    } else if idx < 100 {
        s.append("0");
    }
    s.append(u64_to_decimal(idx as u64).as_str());
    s.append(".dll");
    s
}

/// The argument of the managed entry point: fields separated by `|`, as
/// only one string can be passed: the address of the shared state, the run
/// context, the native code version and the sizes of the two structures
/// the sides exchange.
pub open spec fn spec_init_argument(
    state_ptr: usize,
    run_context: Seq<char>,
    mod_size: usize,
    profile_size: usize,
) -> Seq<char> {
    decimal(state_ptr as nat) + "|"@ + run_context + "|"@ + decimal(NATIVE_CODE_VERSION as nat)
        + "|mod_structsize="@ + decimal(mod_size as nat) + "|mod_snapprofile_structsize="@ + decimal(
        profile_size as nat,
    )
}

/// Builds the argument of the managed entry point.
pub fn init_argument(state_ptr: usize, run_context: &str, mod_size: usize, profile_size: usize) -> (r: String)
    ensures
        r@ == spec_init_argument(state_ptr, run_context@, mod_size, profile_size),
{
    let mut s = u64_to_decimal(state_ptr as u64);
    s.append("|");
    s.append(run_context);
    s.append("|");
    s.append(u64_to_decimal(NATIVE_CODE_VERSION as u64).as_str());
    s.append("|mod_structsize=");
    s.append(u64_to_decimal(mod_size as u64).as_str());
    s.append("|mod_snapprofile_structsize=");
    s.append(u64_to_decimal(profile_size as u64).as_str());
    s
}

/// The managed side's return code for a native code version it does not match.
pub const MANAGED_VERSION_MISMATCH: u32 = 48;

/// The message for a managed entry point's return code (none for 0, success).
pub open spec fn spec_init_error(ret: u32) -> Option<Seq<char>> {
    if ret == 0 {
        None
    } else if ret == MANAGED_VERSION_MISMATCH {
        Some(
            "Error: Managed code version mismatch.  Ensure that the d3d9.dll loaded by the game is the latest version.  You may need to copy the new version in from your ModelMod directory.  Click 'Start' in the ModelMod Launcher for more details."@,
        )
    } else {
        Some("Error: Managed code failed to initialize; return code: "@ + decimal(ret as nat))
    }
}

/// What went wrong when the managed entry point returned `ret`.
pub fn init_error(ret: u32) -> (r: Option<String>)
    ensures
        match r {
            Some(m) => spec_init_error(ret) == Some(m@),
            None => spec_init_error(ret) is None,
        },
{
    if ret == 0 {
        None
    } else if ret == MANAGED_VERSION_MISMATCH {
        Some(
            String::from_str(
                "Error: Managed code version mismatch.  Ensure that the d3d9.dll loaded by the game is the latest version.  You may need to copy the new version in from your ModelMod directory.  Click 'Start' in the ModelMod Launcher for more details.",
            ),
        )
    } else {
        let mut s = String::from_str("Error: Managed code failed to initialize; return code: ");
        s.append(u64_to_decimal(ret as u64).as_str());
        Some(s)
    }
}

} // verus!
