use modelmod::dx11rs::{
    InputElement, VertexFormat, DXGI_FORMAT_R16G16B16A16_SINT, DXGI_FORMAT_R16G16_SINT,
    DXGI_FORMAT_R32G32B32_FLOAT, DXGI_FORMAT_R32G32_FLOAT, DXGI_FORMAT_R32G32B32A32_FLOAT,
    DXGI_FORMAT_R8G8B8A8_UNORM,
};
use modelmod::mesh_update::{
    check_vector_write, find_element, mesh_update_settings, read_elements, tangent_elements,
    MeshLayoutError, MeshProfile, MeshRegistry, MeshUpdateSettings, ReadElements, VectorKind,
};

fn elem(name: &str, index: u32, format: u32, offset: u32) -> InputElement {
    InputElement {
        semantic_name: Some(name.as_bytes().to_vec()),
        semantic_index: index,
        format,
        input_slot: 0,
        aligned_byte_offset: offset,
        input_slot_class: 0,
        instance_data_step_rate: 0,
    }
}

fn layout(elems: Vec<InputElement>) -> VertexFormat {
    VertexFormat { layout: elems, size: 32 }
}

fn no_registry() -> MeshRegistry {
    MeshRegistry { update_normals: None, update_tangents: None, reverse_normals: None, normal_flags: None }
}

fn profile(valid: bool, flip: bool, enc: &str) -> MeshProfile {
    MeshProfile { valid, flip_tangent: flip, vec_encoding: enc.to_string() }
}

fn tangents_only() -> MeshUpdateSettings {
    MeshUpdateSettings {
        update_normals: false,
        update_tangents: true,
        reverse: false,
        normal_flags: 0,
        enc_vec_octa: false,
        flip_tangent: false,
    }
}

#[test]
fn settings_default_to_tangents_only() {
    let s = mesh_update_settings(&profile(false, true, "octa"), &no_registry(), -1);
    assert_eq!(s, tangents_only());
}

#[test]
fn settings_profile_encoding_is_case_and_space_insensitive() {
    let s = mesh_update_settings(&profile(true, true, "  OcTa \n"), &no_registry(), -1);
    assert!(s.enc_vec_octa);
    assert!(s.flip_tangent);
    let s = mesh_update_settings(&profile(true, false, "packed"), &no_registry(), -1);
    assert!(!s.enc_vec_octa);
    let s = mesh_update_settings(&profile(true, false, "weird"), &no_registry(), -1);
    assert!(!s.enc_vec_octa);
}

#[test]
fn settings_registry_and_mod_wish() {
    let reg = MeshRegistry {
        update_normals: Some(1),
        update_tangents: Some(0),
        reverse_normals: Some(3),
        normal_flags: None,
    };
    let s = mesh_update_settings(&profile(false, false, ""), &reg, -1);
    assert!(s.update_normals);
    assert!(!s.update_tangents);
    assert!(s.reverse);
    assert_eq!(s.normal_flags, 0);
    // the mod asks for tangents
    let s = mesh_update_settings(&profile(false, false, ""), &reg, 1);
    assert!(s.update_tangents);
    // flags are read when normals are updated
    let reg = MeshRegistry { normal_flags: Some(2), ..reg };
    assert_eq!(mesh_update_settings(&profile(false, false, ""), &reg, 7).normal_flags, 2);
    // an unknown mod wish keeps the registry setting
    assert!(!mesh_update_settings(&profile(false, false, ""), &reg, 7).update_tangents);
}

#[test]
fn settings_mod_wish_overrides_registry() {
    let reg = MeshRegistry {
        update_normals: Some(0),
        update_tangents: Some(0),
        reverse_normals: None,
        normal_flags: Some(4),
    };
    let s = mesh_update_settings(&profile(false, false, ""), &reg, 1);
    assert!(!s.update_normals);
    assert!(s.update_tangents);
    // flags are not read while normals are not updated
    assert_eq!(s.normal_flags, 0);
    assert!(!mesh_update_settings(&profile(false, false, ""), &reg, -1).update_tangents);
    // the mod can also turn tangents off
    let s = mesh_update_settings(&profile(false, false, ""), &no_registry(), 0);
    assert!(!s.update_tangents);
}

fn packed_layout() -> VertexFormat {
    layout(vec![
        elem("POSITION", 0, DXGI_FORMAT_R32G32B32_FLOAT, 0),
        elem("NORMAL", 0, DXGI_FORMAT_R16G16B16A16_SINT, 12),
        elem("TEXCOORD", 1, DXGI_FORMAT_R32G32_FLOAT, 20),
        elem("TEXCOORD", 0, DXGI_FORMAT_R32G32_FLOAT, 28),
        elem("BINORMAL", 0, DXGI_FORMAT_R16G16_SINT, 36),
    ])
}

#[test]
fn find_element_ignores_case_and_takes_first() {
    let l = packed_layout();
    assert_eq!(find_element(&l.layout, b"texcoord", false), Some(2));
    assert_eq!(find_element(&l.layout, b"texcoord", true), Some(3));
    assert_eq!(find_element(&l.layout, b"norm", false), Some(1));
    assert_eq!(find_element(&l.layout, b"color", false), None);
}

#[test]
fn read_elements_of_packed_layout() {
    let l = packed_layout();
    let r = read_elements(&l, &tangents_only(), 3);
    assert_eq!(r, Ok(ReadElements { position: 0, normal: 1, texcoord: Some(3) }));
    let t = tangent_elements(&l, 1);
    // no tangent element: the packed normal holds it; the binormal is the bitangent
    assert_eq!(t, Ok((1, 4)));
}

#[test]
fn read_elements_errors_in_order() {
    let l = layout(vec![elem("NORMAL", 0, DXGI_FORMAT_R16G16B16A16_SINT, 0)]);
    assert_eq!(read_elements(&l, &tangents_only(), 3), Err(MeshLayoutError::MissingPosition));
    let l = layout(vec![elem("POSITION", 0, DXGI_FORMAT_R32G32_FLOAT, 0)]);
    assert_eq!(read_elements(&l, &tangents_only(), 3), Err(MeshLayoutError::UnsupportedPositionFormat));
    let l = layout(vec![elem("POSITION", 0, DXGI_FORMAT_R32G32B32A32_FLOAT, 0)]);
    assert_eq!(read_elements(&l, &tangents_only(), 3), Err(MeshLayoutError::MissingNormal));
    let l = layout(vec![
        elem("POSITION", 0, DXGI_FORMAT_R32G32B32_FLOAT, 0),
        elem("NORMAL", 0, DXGI_FORMAT_R32G32B32_FLOAT, 12),
    ]);
    assert_eq!(read_elements(&l, &tangents_only(), 3), Err(MeshLayoutError::MissingTexcoord));
    let l = layout(vec![
        elem("POSITION", 0, DXGI_FORMAT_R32G32B32_FLOAT, 0),
        elem("NORMAL", 0, DXGI_FORMAT_R32G32B32_FLOAT, 12),
        elem("TEXCOORD", 0, DXGI_FORMAT_R32G32_FLOAT, 24),
    ]);
    assert_eq!(
        read_elements(&l, &tangents_only(), 3),
        Err(MeshLayoutError::UnsupportedNormalFormat(DXGI_FORMAT_R32G32B32_FLOAT))
    );
    // with no vertices the formats are never looked at
    assert!(read_elements(&l, &tangents_only(), 0).is_ok());
}

#[test]
fn tangent_elements_need_tangent_or_packed_normal() {
    let l = layout(vec![
        elem("POSITION", 0, DXGI_FORMAT_R32G32B32_FLOAT, 0),
        elem("NORMAL", 0, DXGI_FORMAT_R8G8B8A8_UNORM, 12),
        elem("BITANGENT", 0, DXGI_FORMAT_R8G8B8A8_UNORM, 16),
    ]);
    assert_eq!(tangent_elements(&l, 1), Err(MeshLayoutError::MissingTangent));
    let l = layout(vec![
        elem("POSITION", 0, DXGI_FORMAT_R32G32B32_FLOAT, 0),
        elem("NORMAL", 0, DXGI_FORMAT_R8G8B8A8_UNORM, 12),
        elem("TANGENT", 0, DXGI_FORMAT_R8G8B8A8_UNORM, 16),
    ]);
    assert_eq!(tangent_elements(&l, 1), Err(MeshLayoutError::MissingBitangent));
}

#[test]
fn vector_write_formats() {
    assert_eq!(check_vector_write(VectorKind::Normal, DXGI_FORMAT_R16G16B16A16_SINT), Ok(()));
    assert_eq!(check_vector_write(VectorKind::Bitangent, DXGI_FORMAT_R16G16_SINT), Ok(()));
    assert_eq!(check_vector_write(VectorKind::Tangent, DXGI_FORMAT_R8G8B8A8_UNORM), Ok(()));
    assert_eq!(
        check_vector_write(VectorKind::Tangent, DXGI_FORMAT_R16G16_SINT),
        Err(MeshLayoutError::UnsupportedVectorFormat(DXGI_FORMAT_R16G16_SINT))
    );
    assert_eq!(
        check_vector_write(VectorKind::Bitangent, DXGI_FORMAT_R16G16B16A16_SINT),
        Err(MeshLayoutError::UnsupportedVectorFormat(DXGI_FORMAT_R16G16B16A16_SINT))
    );
}
