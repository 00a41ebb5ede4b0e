use renderware::chunk::{
    expect_chunk, TAG_CLUMP, TAG_EXTENSION, TAG_FRAME_LIST, TAG_GEOMETRY, TAG_GEOMETRY_LIST,
    TAG_HANIM_PLUGIN, TAG_MATERIAL, TAG_MATERIAL_LIST, TAG_NODE_NAME, TAG_STRING, TAG_STRUCT,
    TAG_TEXTURE, TAG_TEXTURE_DICTIONARY,
};
use renderware::clump::{decode_clump_body, decode_frame_list_body, decode_model, Clump};
use renderware::cursor::{Cursor, Float32};
use renderware::error::DecodeError;
use renderware::extension::{decode_extension_body, read_extensions, Extension};
use renderware::geometry::{
    decode_geometry_body, decode_geometry_list_body, read_geometries, read_geometry,
    GeometryFields, FLAG_STORE_NORMALS, FLAG_TEX_COORDS_1, FLAG_TEX_COORDS_2, FLAG_TRIANGLE_STRIP,
    FLAG_VERTEX_COLORS, LEGACY_VERSION_LIMIT,
};
use renderware::material::{
    decode_material_body, decode_material_list_body, decode_texture_body, read_material_list,
    read_materials, read_name, read_textures, Material, MaterialList, Texture,
};
use renderware::records::{
    check_count, read_frames, read_words, BoundingSphere, Frame, LegacyColors, Matrix3, Triangle,
    Uv, Vec3,
};

const VERSION: u32 = 0x1803_FFFF;

fn chunk(tag: u32, version: u32, body: &[u8]) -> Vec<u8> {
    let mut out = Vec::new();
    out.extend_from_slice(&tag.to_le_bytes());
    out.extend_from_slice(&(body.len() as u32).to_le_bytes());
    out.extend_from_slice(&version.to_le_bytes());
    out.extend_from_slice(body);
    out
}

fn words(values: &[u32]) -> Vec<u8> {
    let mut out = Vec::new();
    for v in values {
        out.extend_from_slice(&v.to_le_bytes());
    }
    out
}

fn floats(values: &[f32]) -> Vec<u8> {
    let mut out = Vec::new();
    for v in values {
        out.extend_from_slice(&v.to_le_bytes());
    }
    out
}

fn fl(value: f32) -> Float32 {
    Float32 { bits: value.to_bits() }
}

fn v3(x: f32, y: f32, z: f32) -> Vec3 {
    Vec3 { x: fl(x), y: fl(y), z: fl(z) }
}

fn count_struct(count: u32) -> Vec<u8> {
    chunk(TAG_STRUCT, VERSION, &words(&[count]))
}

fn frame_bytes(seed: f32, parent: i32, flags: u32) -> Vec<u8> {
    let mut out = floats(&[
        seed,
        seed + 1.0,
        seed + 2.0,
        seed + 3.0,
        seed + 4.0,
        seed + 5.0,
        seed + 6.0,
        seed + 7.0,
        seed + 8.0,
        seed + 9.0,
        seed + 10.0,
        seed + 11.0,
    ]);
    out.extend_from_slice(&parent.to_le_bytes());
    out.extend_from_slice(&flags.to_le_bytes());
    out
}

fn frame_value(seed: f32, parent: i32, flags: u32) -> Frame {
    Frame {
        rotation: Matrix3 {
            a: v3(seed, seed + 1.0, seed + 2.0),
            b: v3(seed + 3.0, seed + 4.0, seed + 5.0),
            c: v3(seed + 6.0, seed + 7.0, seed + 8.0),
        },
        position: v3(seed + 9.0, seed + 10.0, seed + 11.0),
        parent_index: parent,
        matrix_flags: flags,
    }
}

fn texture_chunk(filter: u16, name: &[u8], alpha: &[u8]) -> Vec<u8> {
    let mut body = Vec::new();
    let mut fields = Vec::new();
    fields.extend_from_slice(&filter.to_le_bytes());
    fields.extend_from_slice(&1u16.to_le_bytes());
    body.extend(chunk(TAG_STRUCT, VERSION, &fields));
    body.extend(chunk(TAG_STRING, VERSION, name));
    body.extend(chunk(TAG_STRING, VERSION, alpha));
    body.extend(chunk(TAG_EXTENSION, VERSION, &[]));
    chunk(TAG_TEXTURE, VERSION, &body)
}

fn material_chunk(color: u32, textures: &[Vec<u8>]) -> Vec<u8> {
    let mut fields = words(&[0x11, color, 0x22, textures.len() as u32]);
    fields.extend(floats(&[1.0, 0.5, 0.25]));
    let mut body = chunk(TAG_STRUCT, VERSION, &fields);
    for t in textures {
        body.extend_from_slice(t);
    }
    body.extend(chunk(TAG_EXTENSION, VERSION, &[]));
    chunk(TAG_MATERIAL, VERSION, &body)
}

fn material_list_chunk(materials: &[Vec<u8>]) -> Vec<u8> {
    let mut body = count_struct(materials.len() as u32);
    for _ in materials {
        body.extend_from_slice(&0xffff_ffffu32.to_le_bytes());
    }
    for m in materials {
        body.extend_from_slice(m);
    }
    chunk(TAG_MATERIAL_LIST, VERSION, &body)
}

fn fields_bytes(flags: u16, tris: u32, verts: u32) -> Vec<u8> {
    let mut out = Vec::new();
    out.extend_from_slice(&flags.to_le_bytes());
    out.push(1);
    out.push(0x7f);
    out.extend_from_slice(&tris.to_le_bytes());
    out.extend_from_slice(&verts.to_le_bytes());
    out.extend_from_slice(&1u32.to_le_bytes());
    out
}

fn bounds_bytes() -> Vec<u8> {
    let mut out = floats(&[0.5, 1.5, 2.5, 10.0]);
    out.extend(words(&[1, 0]));
    out
}

fn bounds_value() -> BoundingSphere {
    BoundingSphere { center: v3(0.5, 1.5, 2.5), radius: fl(10.0), positions: 1, normals: 0 }
}

/// The body of a geometry chunk with two vertices and one triangle, with
/// every array that `flags` and `legacy` call for.
fn geometry_body(flags: u16, legacy: bool) -> Vec<u8> {
    let mut body = chunk(TAG_STRUCT, VERSION, &fields_bytes(flags, 1, 2));
    if legacy {
        body.extend(words(&[0xa, 0xb, 0xc]));
    }
    if flags & FLAG_VERTEX_COLORS != 0 {
        body.extend(words(&[0xff00_00ff, 0x00ff_00ff]));
    }
    if flags & (FLAG_TEX_COORDS_1 | FLAG_TEX_COORDS_2) != 0 {
        body.extend(floats(&[0.0, 1.0, 0.25, 0.75]));
    }
    for v in [0u16, 1, 5, 1] {
        body.extend_from_slice(&v.to_le_bytes());
    }
    body.extend(bounds_bytes());
    body.extend(floats(&[1.0, 2.0, 3.0, 4.0, 5.0, 6.0]));
    if flags & FLAG_STORE_NORMALS != 0 {
        body.extend(floats(&[0.0, 0.0, 1.0, 0.0, 1.0, 0.0]));
    }
    body.extend(material_list_chunk(&[]));
    body
}

fn simple_model() -> Vec<u8> {
    let mut body = count_struct(3);
    let mut frame_list = count_struct(2);
    frame_list.extend(frame_bytes(1.0, -1, 3));
    frame_list.extend(frame_bytes(100.0, 0, 0));
    body.extend(chunk(TAG_FRAME_LIST, VERSION, &frame_list));
    let mut extension = chunk(TAG_HANIM_PLUGIN, VERSION, &[1, 2, 3, 4]);
    extension.extend(chunk(TAG_NODE_NAME, VERSION, b"root"));
    body.extend(chunk(TAG_EXTENSION, VERSION, &extension));
    body.extend(chunk(TAG_EXTENSION, VERSION, &chunk(TAG_NODE_NAME, VERSION, b"wheel")));
    let mut geometry_list = count_struct(1);
    let mut geometry = chunk(
        TAG_STRUCT,
        VERSION,
        &fields_bytes(FLAG_VERTEX_COLORS | FLAG_TEX_COORDS_1 | FLAG_STORE_NORMALS, 1, 2),
    );
    geometry.extend(words(&[0xff00_00ff, 0x00ff_00ff]));
    geometry.extend(floats(&[0.0, 1.0, 0.25, 0.75]));
    for v in [0u16, 1, 5, 1] {
        geometry.extend_from_slice(&v.to_le_bytes());
    }
    geometry.extend(bounds_bytes());
    geometry.extend(floats(&[1.0, 2.0, 3.0, 4.0, 5.0, 6.0]));
    geometry.extend(floats(&[0.0, 0.0, 1.0, 0.0, 1.0, 0.0]));
    geometry.extend(material_list_chunk(&[
        material_chunk(0xff80_4020, &[texture_chunk(0x1106, b"body\0\0\0\0", b"\0\0\0\0")]),
        material_chunk(0x0102_0304, &[]),
    ]));
    geometry.extend(chunk(TAG_EXTENSION, VERSION, &[]));
    geometry_list.extend(chunk(TAG_GEOMETRY, VERSION, &geometry));
    body.extend(chunk(TAG_GEOMETRY_LIST, VERSION, &geometry_list));
    chunk(TAG_CLUMP, VERSION, &body)
}

#[test]
fn decodes_a_whole_model() {
    let data = simple_model();
    let clump = decode_model(&data).unwrap();
    assert_eq!(clump.atomic_count, 3);
    assert_eq!(clump.frames, vec![frame_value(1.0, -1, 3), frame_value(100.0, 0, 0)]);
    assert_eq!(
        clump.extensions,
        vec![
            Extension { node_name: Some(b"root".to_vec()), has_bone_info: true },
            Extension { node_name: Some(b"wheel".to_vec()), has_bone_info: false },
        ]
    );
    assert_eq!(clump.geometries.len(), 1);
    let g = &clump.geometries[0];
    assert_eq!(g.version, VERSION);
    assert_eq!(
        g.fields,
        GeometryFields {
            flags: 0x1c,
            uv_set_count: 1,
            native_flags: 0x7f,
            triangle_count: 1,
            vertex_count: 2,
            frame_count: 1,
        }
    );
    assert_eq!(g.legacy_colors, None);
    assert_eq!(g.vertex_colors, vec![0xff00_00ff, 0x00ff_00ff]);
    assert_eq!(g.uvs, vec![Uv { u: fl(0.0), v: fl(1.0) }, Uv { u: fl(0.25), v: fl(0.75) }]);
    assert_eq!(g.triangles, vec![Triangle { first: 0, second: 1, attrib: 5, third: 1 }]);
    assert_eq!(g.bounds, bounds_value());
    assert_eq!(g.positions, vec![v3(1.0, 2.0, 3.0), v3(4.0, 5.0, 6.0)]);
    assert_eq!(g.normals, vec![v3(0.0, 0.0, 1.0), v3(0.0, 1.0, 0.0)]);
    assert_eq!(
        g.materials,
        MaterialList {
            slots: vec![0xffff_ffff, 0xffff_ffff],
            materials: vec![
                Material {
                    reserved_a: 0x11,
                    color: 0xff80_4020,
                    reserved_b: 0x22,
                    texture_count: 1,
                    ambient: fl(1.0),
                    specular: fl(0.5),
                    diffuse: fl(0.25),
                    textures: vec![Texture {
                        filter_flags: 0x1106,
                        unknown: 1,
                        name: b"body".to_vec(),
                        alpha_name: vec![],
                    }],
                },
                Material {
                    reserved_a: 0x11,
                    color: 0x0102_0304,
                    reserved_b: 0x22,
                    texture_count: 0,
                    ambient: fl(1.0),
                    specular: fl(0.5),
                    diffuse: fl(0.25),
                    textures: vec![],
                },
            ],
        }
    );
}

#[test]
fn decoding_is_a_function_of_the_buffer() {
    let data = simple_model();
    let first: Result<Clump, DecodeError> = decode_model(&data);
    let second = decode_model(&data.clone());
    assert_eq!(first, second);
}

#[test]
fn every_truncation_of_a_model_is_an_error_and_none_panics() {
    let data = simple_model();
    for len in 0..data.len() {
        let r = decode_model(&data[..len]);
        assert!(
            matches!(
                r,
                Err(DecodeError::TruncatedData)
                    | Err(DecodeError::CountOutOfBounds)
                    | Err(DecodeError::MalformedChunk)
            ),
            "length {}",
            len
        );
    }
    let mut longer = data.clone();
    longer.extend_from_slice(&[1, 2, 3]);
    assert_eq!(decode_model(&longer), decode_model(&data));
}

#[test]
fn corrupting_any_one_byte_never_panics() {
    let data = simple_model();
    for at in 0..data.len() {
        for value in [0u8, 1, 0x7f, 0xff] {
            let mut copy = data.clone();
            copy[at] = value;
            let _ = decode_model(&copy);
        }
    }
}

#[test]
fn root_that_is_not_a_clump_is_unexpected_format() {
    let data = simple_model();
    let mut wrong = data.clone();
    wrong[0] = TAG_TEXTURE_DICTIONARY as u8;
    assert_eq!(decode_model(&wrong), Err(DecodeError::UnexpectedFormat));
    let other = chunk(TAG_GEOMETRY, VERSION, &data[12..]);
    assert_eq!(decode_model(&other), Err(DecodeError::UnexpectedFormat));
    let unknown = chunk(0xdead_beef, VERSION, &[]);
    assert_eq!(decode_model(&unknown), Err(DecodeError::UnexpectedFormat));
    // The tag is checked before the declared size.
    let mut oversized = chunk(TAG_STRUCT, VERSION, &[]);
    oversized[4] = 99;
    assert_eq!(decode_model(&oversized), Err(DecodeError::UnexpectedFormat));
}

#[test]
fn root_clump_longer_than_the_buffer_is_truncated_data() {
    let mut data = simple_model();
    let declared = u32::from_le_bytes([data[4], data[5], data[6], data[7]]);
    data[4..8].copy_from_slice(&(declared + 1).to_le_bytes());
    assert_eq!(decode_model(&data), Err(DecodeError::TruncatedData));
    assert_eq!(decode_model(&[]), Err(DecodeError::TruncatedData));
    assert_eq!(decode_model(&[0x10, 0, 0, 0]), Err(DecodeError::TruncatedData));
}

#[test]
fn unknown_sibling_chunks_are_skipped() {
    let mut body = chunk(0x0000_0501, VERSION, &[1, 2, 3]);
    body.extend(count_struct(7));
    body.extend(chunk(0x0000_0502, VERSION, &[]));
    let mut frame_list = chunk(TAG_STRING, VERSION, b"x\0\0\0");
    frame_list.extend(count_struct(1));
    frame_list.extend(frame_bytes(2.0, -1, 0));
    body.extend(chunk(TAG_FRAME_LIST, VERSION, &frame_list));
    let mut extension = chunk(0x0000_0503, VERSION, &[9; 7]);
    extension.extend(chunk(TAG_NODE_NAME, VERSION, b"n"));
    extension.extend(chunk(0x0000_0504, VERSION, &[]));
    body.extend(chunk(TAG_EXTENSION, VERSION, &extension));
    body.extend(chunk(0x0000_0505, VERSION, &[4; 5]));
    // An extension behind another chunk is no longer part of the run.
    body.extend(chunk(TAG_EXTENSION, VERSION, &chunk(TAG_HANIM_PLUGIN, VERSION, &[])));
    let mut geometry_list = chunk(0x0000_0506, VERSION, &[]);
    geometry_list.extend(count_struct(0));
    body.extend(chunk(TAG_GEOMETRY_LIST, VERSION, &geometry_list));
    let data = chunk(TAG_CLUMP, VERSION, &body);
    let clump = decode_model(&data).unwrap();
    assert_eq!(
        clump,
        Clump {
            atomic_count: 7,
            frames: vec![frame_value(2.0, -1, 0)],
            extensions: vec![Extension { node_name: Some(b"n".to_vec()), has_bone_info: false }],
            geometries: vec![],
        }
    );
}

#[test]
fn model_without_extensions_decodes() {
    let mut body = count_struct(0);
    body.extend(chunk(TAG_FRAME_LIST, VERSION, &count_struct(0)));
    body.extend(chunk(TAG_GEOMETRY_LIST, VERSION, &count_struct(0)));
    let data = chunk(TAG_CLUMP, VERSION, &body);
    assert_eq!(
        decode_model(&data),
        Ok(Clump { atomic_count: 0, frames: vec![], extensions: vec![], geometries: vec![] })
    );
}

#[test]
fn model_without_a_geometry_list_is_truncated_data() {
    let mut body = count_struct(0);
    body.extend(chunk(TAG_FRAME_LIST, VERSION, &count_struct(0)));
    body.extend(chunk(TAG_EXTENSION, VERSION, &[]));
    let data = chunk(TAG_CLUMP, VERSION, &body);
    assert_eq!(decode_model(&data), Err(DecodeError::TruncatedData));
    let body = Cursor::new(&[]);
    assert_eq!(decode_clump_body(body), Err(DecodeError::TruncatedData));
}

#[test]
fn nested_chunk_that_does_not_fit_its_parent_is_malformed() {
    let mut body = count_struct(0);
    let mut frame_list = chunk(TAG_FRAME_LIST, VERSION, &count_struct(0));
    frame_list[4] = 200;
    body.extend(frame_list);
    let data = chunk(TAG_CLUMP, VERSION, &body);
    assert_eq!(decode_model(&data), Err(DecodeError::MalformedChunk));
}

#[test]
fn frame_count_is_held_against_what_remains() {
    let mut frame_list = count_struct(2);
    frame_list.extend(frame_bytes(1.0, -1, 0));
    frame_list.extend(&frame_bytes(5.0, 0, 0)[..55]);
    assert_eq!(
        decode_frame_list_body(Cursor::new(&frame_list)),
        Err(DecodeError::CountOutOfBounds)
    );
    let mut huge = count_struct(0xffff_ffff);
    huge.extend(frame_bytes(1.0, -1, 0));
    assert_eq!(decode_frame_list_body(Cursor::new(&huge)), Err(DecodeError::CountOutOfBounds));
    let mut exact = count_struct(1);
    exact.extend(frame_bytes(1.0, 7, 9));
    assert_eq!(decode_frame_list_body(Cursor::new(&exact)), Ok(vec![frame_value(1.0, 7, 9)]));
    let short = chunk(TAG_STRUCT, VERSION, &[1, 0, 0]);
    assert_eq!(decode_frame_list_body(Cursor::new(&short)), Err(DecodeError::TruncatedData));
}

#[test]
fn read_frames_leaves_the_cursor_after_the_frames() {
    let mut data = frame_bytes(1.0, -1, 2);
    data.extend(frame_bytes(3.0, 0, 4));
    data.push(0x55);
    let mut cursor = Cursor::new(&data);
    assert_eq!(read_frames(&mut cursor, 3), Err(DecodeError::CountOutOfBounds));
    assert_eq!(cursor.position(), 0);
    assert_eq!(
        read_frames(&mut cursor, 2),
        Ok(vec![frame_value(1.0, -1, 2), frame_value(3.0, 0, 4)])
    );
    assert_eq!(cursor.position(), 112);
    assert_eq!(read_frames(&mut cursor, 0), Ok(vec![]));
    assert_eq!(cursor.read_u8(), Ok(0x55));
}

#[test]
fn check_count_multiplies_count_and_size() {
    let data = [0u8; 24];
    let cursor = Cursor::new(&data);
    assert_eq!(check_count(&cursor, 2, 12), Ok(()));
    assert_eq!(check_count(&cursor, 3, 12), Err(DecodeError::CountOutOfBounds));
    assert_eq!(check_count(&cursor, 6, 4), Ok(()));
    assert_eq!(check_count(&cursor, 7, 4), Err(DecodeError::CountOutOfBounds));
    assert_eq!(check_count(&cursor, 0, 1000), Ok(()));
    assert_eq!(check_count(&cursor, u32::MAX, usize::MAX), Err(DecodeError::CountOutOfBounds));
    assert_eq!(check_count(&cursor, u32::MAX, 0), Ok(()));
}

#[test]
fn read_words_decodes_little_endian_words() {
    let data = words(&[1, 0x8000_0000, 0xdead_beef]);
    let mut cursor = Cursor::new(&data);
    assert_eq!(read_words(&mut cursor, 4), Err(DecodeError::CountOutOfBounds));
    assert_eq!(read_words(&mut cursor, 3), Ok(vec![1, 0x8000_0000, 0xdead_beef]));
    assert_eq!(cursor.remaining(), 0);
}

#[test]
fn legacy_color_block_is_gated_by_the_version_limit() {
    assert_eq!(LEGACY_VERSION_LIMIT, 0x1003_FFFF);
    // At the limit: no block; the bytes are laid out without one.
    let modern = geometry_body(0, false);
    let g = decode_geometry_body(Cursor::new(&modern), LEGACY_VERSION_LIMIT).unwrap();
    assert_eq!(g.legacy_colors, None);
    assert_eq!(g.triangles, vec![Triangle { first: 0, second: 1, attrib: 5, third: 1 }]);
    assert_eq!(g.bounds, bounds_value());
    let g = decode_geometry_body(Cursor::new(&modern), u32::MAX).unwrap();
    assert_eq!(g.legacy_colors, None);
    // One below the limit: the block is there.
    let old = geometry_body(0, true);
    let g = decode_geometry_body(Cursor::new(&old), LEGACY_VERSION_LIMIT - 1).unwrap();
    assert_eq!(g.legacy_colors, Some(LegacyColors { ambient: 0xa, diffuse: 0xb, specular: 0xc }));
    assert_eq!(g.triangles, vec![Triangle { first: 0, second: 1, attrib: 5, third: 1 }]);
    assert_eq!(g.bounds, bounds_value());
    assert_eq!(g.positions, vec![v3(1.0, 2.0, 3.0), v3(4.0, 5.0, 6.0)]);
    let g = decode_geometry_body(Cursor::new(&old), 0).unwrap();
    assert_eq!(g.legacy_colors, Some(LegacyColors { ambient: 0xa, diffuse: 0xb, specular: 0xc }));
}

#[test]
fn versions_below_the_limit_carry_the_legacy_color_block() {
    // Both of these versions lie below the limit of 0x1003FFFF.
    let old = geometry_body(0, true);
    for version in [0x1000_0000u32, 0x1000_0000 - 1] {
        let g = decode_geometry_body(Cursor::new(&old), version).unwrap();
        assert_eq!(g.version, version);
        assert_eq!(
            g.legacy_colors,
            Some(LegacyColors { ambient: 0xa, diffuse: 0xb, specular: 0xc })
        );
        assert_eq!(g.bounds, bounds_value());
    }
}

#[test]
fn geometry_version_comes_from_its_chunk_header() {
    let mut list = count_struct(2);
    list.extend(chunk(TAG_GEOMETRY, LEGACY_VERSION_LIMIT - 1, &geometry_body(0, true)));
    list.extend(chunk(TAG_GEOMETRY, LEGACY_VERSION_LIMIT, &geometry_body(0, false)));
    let geometries = decode_geometry_list_body(Cursor::new(&list)).unwrap();
    assert_eq!(geometries.len(), 2);
    assert_eq!(geometries[0].version, LEGACY_VERSION_LIMIT - 1);
    assert!(geometries[0].legacy_colors.is_some());
    assert_eq!(geometries[1].version, LEGACY_VERSION_LIMIT);
    assert!(geometries[1].legacy_colors.is_none());
    assert_eq!(geometries[0].bounds, geometries[1].bounds);
}

#[test]
fn vertex_colors_are_gated_by_their_flag() {
    let without = geometry_body(FLAG_TRIANGLE_STRIP, false);
    let g = decode_geometry_body(Cursor::new(&without), VERSION).unwrap();
    assert!(!g.fields.stores_vertex_colors());
    assert_eq!(g.vertex_colors.len(), 0);
    // Trailing bytes do not turn into colours.
    let mut trailing = without.clone();
    trailing.extend(words(&[1, 2, 3, 4]));
    let g = decode_geometry_body(Cursor::new(&trailing), VERSION).unwrap();
    assert_eq!(g.vertex_colors.len(), 0);
    let with = geometry_body(FLAG_VERTEX_COLORS, false);
    let g = decode_geometry_body(Cursor::new(&with), VERSION).unwrap();
    assert!(g.fields.stores_vertex_colors());
    assert_eq!(g.fields.vertex_count, 2);
    assert_eq!(g.vertex_colors, vec![0xff00_00ff, 0x00ff_00ff]);
    assert_eq!(g.uvs, vec![]);
    assert_eq!(g.normals, vec![]);
    assert_eq!(g.positions.len(), 2);
}

#[test]
fn texture_coordinates_are_gated_by_either_flag() {
    for flags in [FLAG_TEX_COORDS_1, FLAG_TEX_COORDS_2, FLAG_TEX_COORDS_1 | FLAG_TEX_COORDS_2] {
        let body = geometry_body(flags, false);
        let g = decode_geometry_body(Cursor::new(&body), VERSION).unwrap();
        assert!(g.fields.stores_uvs());
        assert_eq!(g.uvs, vec![Uv { u: fl(0.0), v: fl(1.0) }, Uv { u: fl(0.25), v: fl(0.75) }]);
        assert_eq!(g.vertex_colors, vec![]);
    }
    let body = geometry_body(0x63, false);
    let g = decode_geometry_body(Cursor::new(&body), VERSION).unwrap();
    assert!(!g.fields.stores_uvs());
    assert_eq!(g.uvs, vec![]);
}

#[test]
fn normals_are_gated_by_their_flag() {
    assert_eq!(FLAG_STORE_NORMALS, 0x10);
    assert_eq!(FLAG_TEX_COORDS_2, 0x80);
    let body = geometry_body(FLAG_STORE_NORMALS, false);
    let g = decode_geometry_body(Cursor::new(&body), VERSION).unwrap();
    assert!(g.fields.stores_normals());
    assert!(g.fields.flag(0x10));
    assert!(!g.fields.flag(0x20));
    assert_eq!(g.normals, vec![v3(0.0, 0.0, 1.0), v3(0.0, 1.0, 0.0)]);
    // Sixteen written in decimal digits as a hex literal is another set of bits.
    let body = geometry_body(0x06, false);
    let g = decode_geometry_body(Cursor::new(&body), VERSION).unwrap();
    assert!(!g.fields.stores_normals());
    assert_eq!(g.normals, vec![]);
}

#[test]
fn geometry_arrays_that_do_not_fit_are_count_out_of_bounds() {
    let mut body = chunk(TAG_STRUCT, VERSION, &fields_bytes(FLAG_VERTEX_COLORS, 0, 0xffff_ffff));
    body.extend(words(&[1, 2, 3]));
    assert_eq!(
        decode_geometry_body(Cursor::new(&body), VERSION),
        Err(DecodeError::CountOutOfBounds)
    );
    let mut body = chunk(TAG_STRUCT, VERSION, &fields_bytes(0, 3, 0));
    body.extend(&[0u8; 23]);
    assert_eq!(
        decode_geometry_body(Cursor::new(&body), VERSION),
        Err(DecodeError::CountOutOfBounds)
    );
    // No triangles, no vertices, but no room for the bounding sphere.
    let mut body = chunk(TAG_STRUCT, VERSION, &fields_bytes(0, 0, 0));
    body.extend(&[0u8; 23]);
    assert_eq!(decode_geometry_body(Cursor::new(&body), VERSION), Err(DecodeError::TruncatedData));
    // An old version with too little room for its colour block.
    let mut body = chunk(TAG_STRUCT, VERSION, &fields_bytes(0, 0, 0));
    body.extend(&[0u8; 11]);
    assert_eq!(decode_geometry_body(Cursor::new(&body), 0), Err(DecodeError::TruncatedData));
    // Fixed fields cut short.
    let body = chunk(TAG_STRUCT, VERSION, &fields_bytes(0, 0, 0)[..15]);
    assert_eq!(decode_geometry_body(Cursor::new(&body), VERSION), Err(DecodeError::TruncatedData));
}

#[test]
fn geometry_count_is_held_against_what_remains() {
    let mut list = count_struct(2);
    list.extend(chunk(TAG_GEOMETRY, VERSION, &geometry_body(0, false))[..23].to_vec());
    assert_eq!(decode_geometry_list_body(Cursor::new(&list)), Err(DecodeError::CountOutOfBounds));
    let list = count_struct(0xffff_ffff);
    assert_eq!(decode_geometry_list_body(Cursor::new(&list)), Err(DecodeError::CountOutOfBounds));
    // Room for two headers, but only one geometry.
    let mut list = count_struct(2);
    list.extend(chunk(TAG_GEOMETRY, VERSION, &geometry_body(0, false)));
    assert_eq!(decode_geometry_list_body(Cursor::new(&list)), Err(DecodeError::TruncatedData));
}

#[test]
fn material_list_with_an_impossible_count_is_count_out_of_bounds() {
    let mut body = count_struct(0xffff_ffff);
    body.extend(words(&[0, 0, 0, 0]));
    assert_eq!(decode_material_list_body(Cursor::new(&body)), Err(DecodeError::CountOutOfBounds));
    let mut geometry = chunk(TAG_STRUCT, VERSION, &fields_bytes(0, 0, 0));
    geometry.extend(bounds_bytes());
    geometry.extend(chunk(TAG_MATERIAL_LIST, VERSION, &body));
    assert_eq!(
        decode_geometry_body(Cursor::new(&geometry), VERSION),
        Err(DecodeError::CountOutOfBounds)
    );
    // Enough room for the slots, not for the material chunks.
    let mut body = count_struct(3);
    body.extend(words(&[0; 11]));
    assert_eq!(decode_material_list_body(Cursor::new(&body)), Err(DecodeError::CountOutOfBounds));
    let mut body = count_struct(3);
    body.extend(words(&[0; 2]));
    assert_eq!(decode_material_list_body(Cursor::new(&body)), Err(DecodeError::CountOutOfBounds));
}

#[test]
fn material_list_keeps_its_slots_as_they_are() {
    let mut body = count_struct(2);
    body.extend(words(&[0xffff_ffff, 0x0000_0001]));
    body.extend(material_chunk(5, &[]));
    body.extend(chunk(0x0000_0999, VERSION, &[1, 2]));
    body.extend(material_chunk(6, &[]));
    let list = decode_material_list_body(Cursor::new(&body)).unwrap();
    assert_eq!(list.slots, vec![0xffff_ffff, 1]);
    assert_eq!(list.materials.len(), 2);
    assert_eq!(list.materials[0].color, 5);
    assert_eq!(list.materials[1].color, 6);
    let empty = decode_material_list_body(Cursor::new(&count_struct(0))).unwrap();
    assert_eq!(empty, MaterialList { slots: vec![], materials: vec![] });
}

#[test]
fn material_texture_count_is_held_against_what_remains() {
    let mut fields = words(&[0, 0, 0, 0xffff_ffff]);
    fields.extend(floats(&[0.0, 0.0, 0.0]));
    let mut body = chunk(TAG_STRUCT, VERSION, &fields);
    body.extend(texture_chunk(0, b"a\0\0\0", b"\0\0\0\0"));
    assert_eq!(decode_material_body(Cursor::new(&body)), Err(DecodeError::CountOutOfBounds));
    let short = chunk(TAG_STRUCT, VERSION, &fields[..27]);
    assert_eq!(decode_material_body(Cursor::new(&short)), Err(DecodeError::TruncatedData));
}

#[test]
fn material_decodes_its_fields_and_textures() {
    let data = material_chunk(
        0x0a0b_0c0d,
        &[texture_chunk(1, b"one\0", b"\0\0\0\0"), texture_chunk(2, b"two\0", b"mask")],
    );
    let material = decode_material_body(Cursor::new(&data[12..])).unwrap();
    assert_eq!(material.reserved_a, 0x11);
    assert_eq!(material.color, 0x0a0b_0c0d);
    assert_eq!(material.reserved_b, 0x22);
    assert_eq!(material.texture_count, 2);
    assert_eq!(f32::from_bits(material.ambient.bits), 1.0);
    assert_eq!(f32::from_bits(material.specular.bits), 0.5);
    assert_eq!(f32::from_bits(material.diffuse.bits), 0.25);
    assert_eq!(
        material.textures,
        vec![
            Texture { filter_flags: 1, unknown: 1, name: b"one".to_vec(), alpha_name: vec![] },
            Texture {
                filter_flags: 2,
                unknown: 1,
                name: b"two".to_vec(),
                alpha_name: b"mask".to_vec()
            },
        ]
    );
}

#[test]
fn texture_names_are_read_by_the_tag_of_their_chunk() {
    // A String chunk is NUL-padded text.
    let data = chunk(TAG_STRING, VERSION, b"wall\0\0\0\0");
    assert_eq!(read_name(&mut Cursor::new(&data)), Ok(b"wall".to_vec()));
    let data = chunk(TAG_STRING, VERSION, b"full");
    assert_eq!(read_name(&mut Cursor::new(&data)), Ok(b"full".to_vec()));
    let data = chunk(TAG_STRING, VERSION, b"a\0b\0");
    assert_eq!(read_name(&mut Cursor::new(&data)), Ok(b"a".to_vec()));
    // Any other chunk is text as long as its declared size.
    let data = chunk(0x0000_0444, VERSION, b"a\0b\0");
    assert_eq!(read_name(&mut Cursor::new(&data)), Ok(b"a\0b\0".to_vec()));
    let data = chunk(TAG_STRING, VERSION, b"");
    let mut cursor = Cursor::new(&data);
    assert_eq!(read_name(&mut cursor), Ok(vec![]));
    assert_eq!(cursor.remaining(), 0);
    assert_eq!(read_name(&mut cursor), Err(DecodeError::TruncatedData));
}

#[test]
fn texture_needs_its_fields_and_both_names() {
    let whole = texture_chunk(0x0102, b"skin\0\0\0\0", b"skina\0\0\0");
    let body = &whole[12..];
    assert_eq!(
        decode_texture_body(Cursor::new(body)),
        Ok(Texture {
            filter_flags: 0x0102,
            unknown: 1,
            name: b"skin".to_vec(),
            alpha_name: b"skina".to_vec()
        })
    );
    // Cut inside the alpha name chunk.
    assert_eq!(
        decode_texture_body(Cursor::new(&body[..16 + 20 + 12 + 4])),
        Err(DecodeError::MalformedChunk)
    );
    // Cut before the alpha name chunk.
    assert_eq!(decode_texture_body(Cursor::new(&body[..16 + 20])), Err(DecodeError::TruncatedData));
    let short = chunk(TAG_STRUCT, VERSION, &[1, 2, 3]);
    assert_eq!(decode_texture_body(Cursor::new(&short)), Err(DecodeError::TruncatedData));
}

#[test]
fn extension_body_collects_name_and_bone_flag() {
    let empty = decode_extension_body(Cursor::new(&[])).unwrap();
    assert_eq!(empty, Extension { node_name: None, has_bone_info: false });
    let mut body = chunk(TAG_NODE_NAME, VERSION, b"first");
    body.extend(chunk(0x0000_0777, VERSION, &[1, 2, 3]));
    body.extend(chunk(TAG_HANIM_PLUGIN, VERSION, &[0; 12]));
    body.extend(chunk(TAG_NODE_NAME, VERSION, b"last\0"));
    assert_eq!(
        decode_extension_body(Cursor::new(&body)),
        Ok(Extension { node_name: Some(b"last\0".to_vec()), has_bone_info: true })
    );
    let only_bones = chunk(TAG_HANIM_PLUGIN, VERSION, &[]);
    assert_eq!(
        decode_extension_body(Cursor::new(&only_bones)),
        Ok(Extension { node_name: None, has_bone_info: true })
    );
    let mut trailing = chunk(TAG_NODE_NAME, VERSION, b"n");
    trailing.push(0);
    assert_eq!(decode_extension_body(Cursor::new(&trailing)), Err(DecodeError::TruncatedData));
    let mut broken = chunk(TAG_NODE_NAME, VERSION, b"n");
    broken[4] = 2;
    assert_eq!(decode_extension_body(Cursor::new(&broken)), Err(DecodeError::MalformedChunk));
}

#[test]
fn extensions_stop_before_the_first_other_chunk() {
    let mut data = chunk(TAG_EXTENSION, VERSION, &chunk(TAG_NODE_NAME, VERSION, b"a"));
    data.extend(chunk(TAG_EXTENSION, VERSION, &[]));
    let stop = data.len();
    data.extend(chunk(TAG_GEOMETRY_LIST, VERSION, &count_struct(0)));
    let mut cursor = Cursor::new(&data);
    assert_eq!(
        read_extensions(&mut cursor),
        Ok(vec![
            Extension { node_name: Some(b"a".to_vec()), has_bone_info: false },
            Extension { node_name: None, has_bone_info: false },
        ])
    );
    assert_eq!(cursor.position(), stop);
    assert_eq!(read_extensions(&mut cursor), Ok(vec![]));
    assert_eq!(cursor.position(), stop);
    let mut cursor = Cursor::new(&data[..stop]);
    assert_eq!(read_extensions(&mut cursor), Err(DecodeError::TruncatedData));
}

#[test]
fn failed_reads_leave_the_cursor_where_it_was() {
    // Two chunks that can be passed over, then a chunk cut short.
    let mut data = vec![0xeeu8];
    data.extend(chunk(TAG_STRING, VERSION, b"ab"));
    data.extend(texture_chunk(1, b"a\0\0\0", b"\0\0\0\0"));
    let mut broken = chunk(TAG_MATERIAL, VERSION, &[1, 2, 3]);
    broken[4] = 200;
    data.extend(broken);

    let mut cursor = Cursor::new(&data);
    cursor.skip(1).unwrap();
    assert!(expect_chunk(&mut cursor, TAG_STRUCT).is_err());
    assert_eq!(cursor.position(), 1);
    assert_eq!(read_textures(&mut cursor, 2), Err(DecodeError::MalformedChunk));
    assert_eq!(cursor.position(), 1);
    assert_eq!(read_materials(&mut cursor, 1), Err(DecodeError::MalformedChunk));
    assert_eq!(cursor.position(), 1);
    assert_eq!(read_material_list(&mut cursor), Err(DecodeError::MalformedChunk));
    assert_eq!(read_geometry(&mut cursor), Err(DecodeError::MalformedChunk));
    assert_eq!(read_geometries(&mut cursor, 1), Err(DecodeError::MalformedChunk));
    assert_eq!(read_extensions(&mut cursor), Ok(vec![]));
    assert_eq!(cursor.position(), 1);
    // What can be read is read, and the cursor moves past it.
    let textures = read_textures(&mut cursor, 1).unwrap();
    assert_eq!(textures[0].name, b"a".to_vec());
    assert_eq!(cursor.position(), data.len() - 15);
    assert_eq!(read_textures(&mut cursor, 0), Ok(vec![]));
    assert_eq!(cursor.position(), data.len() - 15);
}

/// A small linear congruential generator: the tests need arbitrary bytes,
/// not good ones.
fn next_random(state: &mut u64) -> u32 {
    *state = state.wrapping_mul(6364136223846793005).wrapping_add(1442695040888963407);
    (*state >> 33) as u32
}

#[test]
fn random_buffers_are_decoded_or_refused_without_panic() {
    let mut state = 0x1234_5678_9abc_def0u64;
    for round in 0..2000u32 {
        let len = (next_random(&mut state) % 200) as usize;
        let mut data = Vec::with_capacity(len);
        for _ in 0..len {
            data.push(next_random(&mut state) as u8);
        }
        if len >= 12 && round % 2 == 0 {
            // Half of the buffers start with a plausible root header.
            data[..4].copy_from_slice(&TAG_CLUMP.to_le_bytes());
            data[4..8].copy_from_slice(&((len - 12) as u32).to_le_bytes());
        }
        match decode_model(&data) {
            Ok(_) => {}
            Err(e) => assert!(matches!(
                e,
                DecodeError::TruncatedData
                    | DecodeError::UnexpectedFormat
                    | DecodeError::CountOutOfBounds
                    | DecodeError::MalformedChunk
            )),
        }
    }
}

#[test]
fn randomly_damaged_models_are_decoded_or_refused_without_panic() {
    let good = simple_model();
    let mut state = 42u64;
    for _ in 0..2000 {
        let mut data = good.clone();
        let hits = 1 + next_random(&mut state) % 4;
        for _ in 0..hits {
            let at = next_random(&mut state) as usize % data.len();
            data[at] = next_random(&mut state) as u8;
        }
        let cut = next_random(&mut state) as usize % (data.len() + 1);
        if next_random(&mut state) % 3 == 0 {
            data.truncate(cut);
        }
        if let Ok(clump) = decode_model(&data) {
            for g in &clump.geometries {
                let verts = g.fields.vertex_count as usize;
                assert_eq!(g.positions.len(), verts);
                assert_eq!(g.triangles.len(), g.fields.triangle_count as usize);
                assert_eq!(
                    g.vertex_colors.len(),
                    if g.fields.stores_vertex_colors() { verts } else { 0 }
                );
                assert_eq!(g.uvs.len(), if g.fields.stores_uvs() { verts } else { 0 });
                assert_eq!(g.normals.len(), if g.fields.stores_normals() { verts } else { 0 });
                assert_eq!(g.legacy_colors.is_some(), g.version < LEGACY_VERSION_LIMIT);
                assert_eq!(g.materials.slots.len(), g.materials.materials.len());
                for m in &g.materials.materials {
                    assert_eq!(m.textures.len(), m.texture_count as usize);
                }
            }
        }
    }
}
