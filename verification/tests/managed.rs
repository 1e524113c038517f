use modelmod::d3dx::{d3dx11_paths, d3dx9_path};
use modelmod::dnclr::{init_argument, init_error, temp_dll_name};

#[test]
fn d3dx_locations() {
    assert_eq!(d3dx9_path("C:\\MM", true), "C:\\MM\\TPLib\\D3DX9_43_x86_64.dll");
    assert_eq!(d3dx9_path("C:\\MM", false), "C:\\MM\\TPLib\\D3DX9_43_x86.dll");
    assert_eq!(
        d3dx11_paths("C:\\MM", false),
        vec![
            "d3dx11_43.dll".to_string(),
            "d3dx11_42.dll".to_string(),
            "C:\\MM\\TPLib\\x86\\d3dx11_43.dll".to_string(),
            "C:\\MM\\TPLib\\x86\\d3dx11_42.dll".to_string(),
            "C:\\MM\\TPLib\\d3dx11_43_x86.dll".to_string(),
            "C:\\MM\\TPLib\\d3dx11_42_x86.dll".to_string(),
        ]
    );
}

#[test]
fn managed_library_copies_and_argument() {
    assert_eq!(temp_dll_name(0), "TempMMManaged000.dll");
    assert_eq!(temp_dll_name(7), "TempMMManaged007.dll");
    assert_eq!(temp_dll_name(42), "TempMMManaged042.dll");
    assert_eq!(temp_dll_name(254), "TempMMManaged254.dll");
    assert_eq!(
        init_argument(1234, "d3d11", 100, 20),
        "1234|d3d11|4|mod_structsize=100|mod_snapprofile_structsize=20"
    );
}

#[test]
fn managed_return_codes() {
    assert_eq!(init_error(0), None);
    assert!(init_error(48).unwrap().starts_with("Error: Managed code version mismatch."));
    assert_eq!(
        init_error(3),
        Some("Error: Managed code failed to initialize; return code: 3".to_string())
    );
}
