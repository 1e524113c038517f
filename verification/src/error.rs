//! The library's error type.
use vstd::prelude::*;

verus! {

/// Errors of the hooking layer.  Variants that carry an error value of the
/// standard library in the hooking code carry its message here.
#[derive(Debug)]
pub enum HookError {
    ProtectFailed,
    LoadLibFailed(String),
    GetProcAddressFailed(String),
    CLRInitFailed(String),
    NulError(String),
    BadStateError(String),
    GlobalStateCopyFailed,
    Direct3D9InstanceNotFound,
    CreateDeviceFailed(i32),
    ConfReadFailed(String),
    FailedToConvertString(String),
    WinApiError(String),
    ModuleNameError(String),
    UnableToLocatedManagedDLL(String),
    D3D9HookFailed,
    D3D9DeviceHookFailed,
    GlobalLockError,
    IOError(String),
    DInputCreateFailed(String),
    DInputError(String),
    TimeConversionError(String),
    CStrConvertFailed(String),
    SnapshotFailed(String),
    CaptureFailed(String),
    SnapshotPluginError(String),
    MeshUpdateFailed(String),
    NoShader(),
    SerdeError(String),
    D3D11DeviceHookFailed(String),
    D3D11NoContext,
    D3D11Unsupported(String),
}

} // verus!
