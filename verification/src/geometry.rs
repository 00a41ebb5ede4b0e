//! Geometries and the list that holds them.
//!
//! The body of a `Geometry` chunk starts with a `Struct` chunk of fixed
//! fields. What follows depends on them and on the chunk's version, strictly
//! in this order: the legacy colour block (old versions only), the vertex
//! colours (flag-gated), the texture coordinates (flag-gated), the triangles,
//! the bounding sphere, the vertex positions, the vertex normals
//! (flag-gated), and the material list. Nothing is guessed from how many
//! bytes are left.

use crate::chunk::{
    expect_chunk, lemma_expect_chunk_bounds, lemma_expect_chunk_local, spec_expect_chunk,
    HEADER_SIZE, TAG_GEOMETRY, TAG_STRUCT,
};
use crate::cursor::{Cursor, CursorView};
use crate::error::DecodeError;
use crate::material::{
    lemma_material_list_consistent, lemma_material_list_local, read_material_list,
    spec_material_list, MaterialList, MaterialListView,
};
use crate::outcome::{alike, fails, gives, views, yields, Decoded};
use crate::records::{
    check_count, fits, legacy_colors_at, lemma_arrays_local, read_bounds, read_legacy_colors,
    read_triangles, read_uvs, read_vec3s, read_words, spec_bounds, spec_triangles, spec_uvs,
    spec_vec3s, spec_words, BoundingSphere, LegacyColors, Triangle, Uv, Vec3,
};
use vstd::prelude::*;

verus! {

/// Geometry chunks with a version below this one carry the legacy colour
/// block.
pub const LEGACY_VERSION_LIMIT: u32 = 0x1003_FFFF;

/// The size of the fixed fields of a geometry.
pub const GEOMETRY_FIELDS_SIZE: usize = 16;

/// The triangles form a strip.
pub const FLAG_TRIANGLE_STRIP: u16 = 0x01;

/// The vertices carry positions.
pub const FLAG_VERTEX_TRANSLATION: u16 = 0x02;

/// The vertices carry one set of texture coordinates.
pub const FLAG_TEX_COORDS_1: u16 = 0x04;

/// The vertices carry colours.
pub const FLAG_VERTEX_COLORS: u16 = 0x08;

/// The vertices carry normals.
pub const FLAG_STORE_NORMALS: u16 = 0x10;

/// The geometry is lit dynamically.
pub const FLAG_DYNAMIC_LIGHTING: u16 = 0x20;

/// The material colour modulates the vertex colours.
pub const FLAG_MATERIAL_COLOR: u16 = 0x40;

/// The vertices carry a second set of texture coordinates.
pub const FLAG_TEX_COORDS_2: u16 = 0x80;

/// The fixed fields of a geometry.
#[derive(Clone, Copy, Debug, PartialEq, Eq, Structural)]
pub struct GeometryFields {
    pub flags: u16,
    pub uv_set_count: u8,
    pub native_flags: u8,
    pub triangle_count: u32,
    pub vertex_count: u32,
    pub frame_count: u32,
}

impl GeometryFields {
    /// Whether `bit` is set in the flags.
    pub open spec fn has(self, bit: u16) -> bool {
        self.flags & bit != 0
    }

    /// Whether the geometry stores a colour for each vertex.
    pub open spec fn has_vertex_colors(self) -> bool {
        self.has(FLAG_VERTEX_COLORS)
    }

    /// Whether the geometry stores a texture coordinate for each vertex:
    /// either of the two texture-coordinate flags asks for it.
    pub open spec fn has_uvs(self) -> bool {
        self.has(FLAG_TEX_COORDS_1) || self.has(FLAG_TEX_COORDS_2)
    }

    /// Whether the geometry stores a normal for each vertex.
    pub open spec fn has_normals(self) -> bool {
        self.has(FLAG_STORE_NORMALS)
    }

    /// The number of vertex colours that the geometry stores.
    pub open spec fn color_count(self) -> nat {
        if self.has_vertex_colors() {
            self.vertex_count as nat
        } else {
            0
        }
    }

    /// The number of texture coordinates that the geometry stores.
    pub open spec fn uv_count(self) -> nat {
        if self.has_uvs() {
            self.vertex_count as nat
        } else {
            0
        }
    }

    /// The number of vertex normals that the geometry stores.
    pub open spec fn normal_count(self) -> nat {
        if self.has_normals() {
            self.vertex_count as nat
        } else {
            0
        }
    }

    /// Whether `bit` is set in the flags.
    pub fn flag(&self, bit: u16) -> (set: bool)
        ensures
            set == self.has(bit),
    {
        self.flags & bit != 0
    }

    /// Whether the geometry stores a colour for each vertex.
    pub fn stores_vertex_colors(&self) -> (set: bool)
        ensures
            set == self.has_vertex_colors(),
    {
        self.flag(FLAG_VERTEX_COLORS)
    }

    /// Whether the geometry stores a texture coordinate for each vertex.
    pub fn stores_uvs(&self) -> (set: bool)
        ensures
            set == self.has_uvs(),
    {
        self.flag(FLAG_TEX_COORDS_1) || self.flag(FLAG_TEX_COORDS_2)
    }

    /// Whether the geometry stores a normal for each vertex.
    pub fn stores_normals(&self) -> (set: bool)
        ensures
            set == self.has_normals(),
    {
        self.flag(FLAG_STORE_NORMALS)
    }
}

/// A mesh: its fixed fields, the arrays they call for, and its materials.
#[derive(Clone, Debug, PartialEq, Eq)]
pub struct Geometry {
    /// The version of the `Geometry` chunk.
    pub version: u32,
    pub fields: GeometryFields,
    pub legacy_colors: Option<LegacyColors>,
    pub vertex_colors: Vec<u32>,
    pub uvs: Vec<Uv>,
    pub triangles: Vec<Triangle>,
    pub bounds: BoundingSphere,
    pub positions: Vec<Vec3>,
    pub normals: Vec<Vec3>,
    pub materials: MaterialList,
}

/// A geometry, its arrays as sequences.
pub struct GeometryView {
    pub version: u32,
    pub fields: GeometryFields,
    pub legacy_colors: Option<LegacyColors>,
    pub vertex_colors: Seq<u32>,
    pub uvs: Seq<Uv>,
    pub triangles: Seq<Triangle>,
    pub bounds: BoundingSphere,
    pub positions: Seq<Vec3>,
    pub normals: Seq<Vec3>,
    pub materials: MaterialListView,
}

impl View for Geometry {
    type V = GeometryView;

    open spec fn view(&self) -> GeometryView {
        GeometryView {
            version: self.version,
            fields: self.fields,
            legacy_colors: self.legacy_colors,
            vertex_colors: self.vertex_colors@,
            uvs: self.uvs@,
            triangles: self.triangles@,
            bounds: self.bounds,
            positions: self.positions@,
            normals: self.normals@,
            materials: self.materials@,
        }
    }
}

impl GeometryView {
    /// The arrays are the ones that the fixed fields and the version call
    /// for: the legacy colour block is there exactly for an old version, each
    /// flag-gated array is empty when its flag is not set, and every array
    /// that is there has one element per vertex (or per triangle). The
    /// material list is consistent in its turn.
    pub open spec fn consistent(self) -> bool {
        &&& self.legacy_colors is Some <==> is_legacy(self.version)
        &&& self.vertex_colors.len() == self.fields.color_count()
        &&& self.uvs.len() == self.fields.uv_count()
        &&& self.triangles.len() == self.fields.triangle_count
        &&& self.positions.len() == self.fields.vertex_count
        &&& self.normals.len() == self.fields.normal_count()
        &&& self.materials.consistent()
    }
}

/// Whether a geometry chunk of this version carries the legacy colour block.
pub open spec fn is_legacy(version: u32) -> bool {
    version < LEGACY_VERSION_LIMIT
}

/// The fixed fields encoded by the 16 bytes at the position of `c`.
pub open spec fn fields_at(c: CursorView) -> GeometryFields {
    GeometryFields {
        flags: c.u16_at(0),
        uv_set_count: c.u8_at(2),
        native_flags: c.u8_at(3),
        triangle_count: c.u32_at(4),
        vertex_count: c.u32_at(8),
        frame_count: c.u32_at(12),
    }
}

/// The fixed fields of a geometry: `TruncatedData` unless 16 bytes are left.
pub open spec fn spec_fields(c: CursorView) -> Result<GeometryFields, DecodeError> {
    if c.remaining() < 16 {
        Err(DecodeError::TruncatedData)
    } else {
        Ok(fields_at(c))
    }
}

/// The legacy colour block: there if and only if the version is an old one.
pub open spec fn spec_legacy_colors(c: CursorView, version: u32) -> Decoded<Option<LegacyColors>> {
    if !is_legacy(version) {
        Ok((None, c))
    } else if c.remaining() < 12 {
        Err(DecodeError::TruncatedData)
    } else {
        Ok((Some(legacy_colors_at(c.buf, c.pos)), c.advance(12)))
    }
}

/// What follows the fixed fields in the body of a `Geometry` chunk.
pub open spec fn spec_geometry_arrays(
    c: CursorView,
    version: u32,
    fields: GeometryFields,
) -> Result<GeometryView, DecodeError> {
    match spec_legacy_colors(c, version) {
        Err(e) => Err(e),
        Ok((legacy_colors, c)) => match spec_words(c, fields.color_count()) {
            Err(e) => Err(e),
            Ok((vertex_colors, c)) => match spec_uvs(c, fields.uv_count()) {
                Err(e) => Err(e),
                Ok((uvs, c)) => match spec_triangles(c, fields.triangle_count as nat) {
                    Err(e) => Err(e),
                    Ok((triangles, c)) => match spec_bounds(c) {
                        Err(e) => Err(e),
                        Ok((bounds, c)) => match spec_vec3s(c, fields.vertex_count as nat) {
                            Err(e) => Err(e),
                            Ok((positions, c)) => match spec_vec3s(c, fields.normal_count()) {
                                Err(e) => Err(e),
                                Ok((normals, c)) => match spec_material_list(c) {
                                    Err(e) => Err(e),
                                    Ok((materials, _)) => Ok(
                                        GeometryView {
                                            version,
                                            fields,
                                            legacy_colors,
                                            vertex_colors,
                                            uvs,
                                            triangles,
                                            bounds,
                                            positions,
                                            normals,
                                            materials,
                                        },
                                    ),
                                },
                            },
                        },
                    },
                },
            },
        },
    }
}

/// The body of a `Geometry` chunk of the given version.
pub open spec fn spec_geometry_body(c: CursorView, version: u32) -> Result<
    GeometryView,
    DecodeError,
> {
    match spec_expect_chunk(c, TAG_STRUCT) {
        Err(e) => Err(e),
        Ok(span) => match spec_fields(span.body) {
            Err(e) => Err(e),
            Ok(fields) => spec_geometry_arrays(span.rest, version, fields),
        },
    }
}

/// The next `Geometry` chunk of a stream.
pub open spec fn spec_geometry(c: CursorView) -> Decoded<GeometryView> {
    match spec_expect_chunk(c, TAG_GEOMETRY) {
        Err(e) => Err(e),
        Ok(span) => match spec_geometry_body(span.body, span.header.version) {
            Err(e) => Err(e),
            Ok(geometry) => Ok((geometry, span.rest)),
        },
    }
}

/// `done`, followed by the next `count` geometries of a stream.
pub open spec fn spec_geometries(c: CursorView, count: nat, done: Seq<GeometryView>) -> Decoded<
    Seq<GeometryView>,
>
    decreases count,
{
    if count == 0 {
        Ok((done, c))
    } else {
        match spec_geometry(c) {
            Err(e) => Err(e),
            Ok((geometry, rest)) => spec_geometries(rest, (count - 1) as nat, done.push(geometry)),
        }
    }
}

/// The body of a `GeometryList` chunk.
pub open spec fn spec_geometry_list_body(c: CursorView) -> Result<Seq<GeometryView>, DecodeError> {
    match spec_expect_chunk(c, TAG_STRUCT) {
        Err(e) => Err(e),
        Ok(span) => if span.body.remaining() < 4 {
            Err(DecodeError::TruncatedData)
        } else {
            let count = span.body.u32_at(0) as nat;
            if !fits(span.rest, count, 12) {
                Err(DecodeError::CountOutOfBounds)
            } else {
                match spec_geometries(span.rest, count, Seq::empty()) {
                    Err(e) => Err(e),
                    Ok((geometries, _)) => Ok(geometries),
                }
            }
        },
    }
}

/// A geometry that is decoded leaves its stream inside the buffer, and so
/// does a run of geometries.
pub proof fn lemma_geometries_stay_in_bounds(c: CursorView, count: nat, done: Seq<GeometryView>)
    requires
        c.wf(),
    ensures
        spec_geometry(c) matches Ok((_, rest)) ==> rest.wf() && c.precedes(rest),
        spec_geometries(c, count, done) matches Ok((_, rest)) ==> rest.wf() && c.precedes(rest),
    decreases count,
{
    lemma_expect_chunk_bounds(c, TAG_GEOMETRY);
    if count > 0 {
        match spec_geometry(c) {
            Err(_) => {},
            Ok((geometry, rest)) => {
                lemma_geometries_stay_in_bounds(rest, (count - 1) as nat, done.push(geometry));
            },
        }
    }
}

/// Which arrays and materials are decoded depends on the bytes inside the
/// window alone.
proof fn lemma_geometry_arrays_local(
    a: CursorView,
    b: CursorView,
    version: u32,
    fields: GeometryFields,
)
    requires
        a.agrees(b),
    ensures
        spec_geometry_arrays(a, version, fields) == spec_geometry_arrays(b, version, fields),
{
    let triangles = fields.triangle_count as nat;
    let vertices = fields.vertex_count as nat;
    if let (Ok((_, a)), Ok((_, b))) = (
        spec_legacy_colors(a, version),
        spec_legacy_colors(b, version),
    ) {
        lemma_arrays_local(a, b, fields.color_count());
        if let (Ok((_, a)), Ok((_, b))) = (
            spec_words(a, fields.color_count()),
            spec_words(b, fields.color_count()),
        ) {
            lemma_arrays_local(a, b, fields.uv_count());
            if let (Ok((_, a)), Ok((_, b))) = (
                spec_uvs(a, fields.uv_count()),
                spec_uvs(b, fields.uv_count()),
            ) {
                lemma_arrays_local(a, b, triangles);
                if let (Ok((_, a)), Ok((_, b))) = (
                    spec_triangles(a, triangles),
                    spec_triangles(b, triangles),
                ) {
                    lemma_arrays_local(a, b, vertices);
                    if let (Ok((_, a)), Ok((_, b))) = (spec_bounds(a), spec_bounds(b)) {
                        lemma_arrays_local(a, b, vertices);
                        if let (Ok((_, a)), Ok((_, b))) = (
                            spec_vec3s(a, vertices),
                            spec_vec3s(b, vertices),
                        ) {
                            lemma_arrays_local(a, b, fields.normal_count());
                            if let (Ok((_, a)), Ok((_, b))) = (
                                spec_vec3s(a, fields.normal_count()),
                                spec_vec3s(b, fields.normal_count()),
                            ) {
                                lemma_material_list_local(a, b);
                            }
                        }
                    }
                }
            }
        }
    }
}

/// Which geometry body is decoded depends on the bytes inside the window
/// alone.
proof fn lemma_geometry_body_local(a: CursorView, b: CursorView, version: u32)
    requires
        a.agrees(b),
    ensures
        spec_geometry_body(a, version) == spec_geometry_body(b, version),
{
    lemma_expect_chunk_local(a, b, TAG_STRUCT);
    match (spec_expect_chunk(a, TAG_STRUCT), spec_expect_chunk(b, TAG_STRUCT)) {
        (Ok(x), Ok(y)) => {
            if x.body.remaining() >= 16 {
                lemma_geometry_arrays_local(x.rest, y.rest, version, fields_at(x.body));
            }
        },
        _ => {},
    }
}

/// Which geometry is decoded depends on the bytes inside the window alone.
pub proof fn lemma_geometry_local(a: CursorView, b: CursorView, version: u32)
    requires
        a.agrees(b),
    ensures
        spec_geometry_body(a, version) == spec_geometry_body(b, version),
        alike(spec_geometry(a), spec_geometry(b)),
{
    lemma_geometry_body_local(a, b, version);
    lemma_expect_chunk_local(a, b, TAG_GEOMETRY);
    match (spec_expect_chunk(a, TAG_GEOMETRY), spec_expect_chunk(b, TAG_GEOMETRY)) {
        (Ok(x), Ok(y)) => {
            lemma_geometry_body_local(x.body, y.body, x.header.version);
        },
        _ => {},
    }
}

/// Which geometries are decoded depends on the bytes inside the window alone.
pub proof fn lemma_geometries_local(
    a: CursorView,
    b: CursorView,
    count: nat,
    done: Seq<GeometryView>,
)
    requires
        a.agrees(b),
    ensures
        alike(spec_geometries(a, count, done), spec_geometries(b, count, done)),
    decreases count,
{
    if count > 0 {
        lemma_geometry_local(a, b, 0);
        match (spec_geometry(a), spec_geometry(b)) {
            (Ok((geometry, rest_a)), Ok((_, rest_b))) => {
                lemma_geometries_local(rest_a, rest_b, (count - 1) as nat, done.push(geometry));
            },
            _ => {},
        }
    }
}

/// Which geometry list is decoded depends on the bytes inside the window
/// alone.
pub proof fn lemma_geometry_list_local(a: CursorView, b: CursorView)
    requires
        a.agrees(b),
    ensures
        spec_geometry_list_body(a) == spec_geometry_list_body(b),
{
    lemma_expect_chunk_local(a, b, TAG_STRUCT);
    match (spec_expect_chunk(a, TAG_STRUCT), spec_expect_chunk(b, TAG_STRUCT)) {
        (Ok(x), Ok(y)) => {
            if x.body.remaining() >= 4 {
                lemma_geometries_local(x.rest, y.rest, x.body.u32_at(0) as nat, Seq::empty());
            }
        },
        _ => {},
    }
}

/// The legacy colour block is decoded for the versions below the limit and
/// for no other: at the limit itself, and above it, there is none, and no
/// byte is taken for it.
pub proof fn lemma_legacy_colors_gated_by_version(c: CursorView, version: u32)
    ensures
        version >= LEGACY_VERSION_LIMIT ==> yields(
            spec_legacy_colors(c, version),
            None::<LegacyColors>,
            c,
        ),
        version < LEGACY_VERSION_LIMIT && c.remaining() >= 12 ==> yields(
            spec_legacy_colors(c, version),
            Some(legacy_colors_at(c.buf, c.pos)),
            c.advance(12),
        ),
        version < LEGACY_VERSION_LIMIT && c.remaining() < 12 ==> fails(
            spec_legacy_colors(c, version),
            DecodeError::TruncatedData,
        ),
{
}

/// Every geometry that is decoded is consistent: whatever bytes follow, a
/// geometry without the vertex-colours flag has no vertex colours and one
/// with the flag has one per vertex, and likewise for the texture
/// coordinates, the normals and the legacy colour block.
pub proof fn lemma_geometry_arrays_consistent(c: CursorView, version: u32, fields: GeometryFields)
    ensures
        spec_geometry_arrays(c, version, fields) matches Ok(geometry) ==> {
            &&& geometry.version == version
            &&& geometry.fields == fields
            &&& geometry.consistent()
            &&& !fields.has_vertex_colors() ==> geometry.vertex_colors.len() == 0
            &&& fields.has_vertex_colors() ==> geometry.vertex_colors.len() == fields.vertex_count
        },
{
    if let Ok(geometry) = spec_geometry_arrays(c, version, fields) {
        let c = spec_legacy_colors(c, version)->Ok_0.1;
        let c = spec_words(c, fields.color_count())->Ok_0.1;
        let c = spec_uvs(c, fields.uv_count())->Ok_0.1;
        let c = spec_triangles(c, fields.triangle_count as nat)->Ok_0.1;
        let c = spec_bounds(c)->Ok_0.1;
        let c = spec_vec3s(c, fields.vertex_count as nat)->Ok_0.1;
        let c = spec_vec3s(c, fields.normal_count())->Ok_0.1;
        lemma_material_list_consistent(c);
    }
}

/// The geometry decoded from a chunk body is consistent, and carries the
/// version it was decoded under.
pub proof fn lemma_geometry_consistent(c: CursorView, version: u32)
    ensures
        spec_geometry_body(c, version) matches Ok(geometry) ==> geometry.version == version
            && geometry.consistent(),
{
    match spec_expect_chunk(c, TAG_STRUCT) {
        Err(_) => {},
        Ok(span) => match spec_fields(span.body) {
            Err(_) => {},
            Ok(fields) => {
                lemma_geometry_arrays_consistent(span.rest, version, fields);
            },
        },
    }
}

/// A list of geometries is decoded to as many geometries as were asked for,
/// each of them consistent, after those that were there before.
pub proof fn lemma_geometries_consistent(c: CursorView, count: nat, done: Seq<GeometryView>)
    requires
        forall|i: int| 0 <= i < done.len() ==> (#[trigger] done[i]).consistent(),
    ensures
        spec_geometries(c, count, done) matches Ok((all, _)) ==> {
            &&& all.len() == done.len() + count
            &&& forall|i: int| 0 <= i < all.len() ==> (#[trigger] all[i]).consistent()
        },
    decreases count,
{
    if count > 0 {
        match spec_geometry(c) {
            Err(_) => {},
            Ok((geometry, rest)) => {
                let span = spec_expect_chunk(c, TAG_GEOMETRY)->Ok_0;
                lemma_geometry_consistent(span.body, span.header.version);
                lemma_geometries_consistent(rest, (count - 1) as nat, done.push(geometry));
            },
        }
    }
}

/// A geometry list holds as many geometries as it declares, each of them
/// consistent.
pub proof fn lemma_geometry_list_consistent(c: CursorView)
    ensures
        spec_geometry_list_body(c) matches Ok(geometries) ==> {
            &&& spec_expect_chunk(c, TAG_STRUCT) matches Ok(span) && geometries.len()
                == span.body.u32_at(0)
            &&& forall|i: int|
                0 <= i < geometries.len() ==> (#[trigger] geometries[i]).consistent()
        },
{
    match spec_expect_chunk(c, TAG_STRUCT) {
        Err(_) => {},
        Ok(span) => {
            lemma_geometries_consistent(span.rest, span.body.u32_at(0) as nat, Seq::empty());
        },
    }
}

/// Reads the fixed fields of a geometry from the body of its `Struct` chunk.
pub fn read_fields(body: Cursor) -> (r: Result<GeometryFields, DecodeError>)
    ensures
        match r {
            Ok(fields) => gives(spec_fields(body@), fields),
            Err(e) => fails(spec_fields(body@), e),
        },
{
    let mut rest = body;
    if rest.remaining() < GEOMETRY_FIELDS_SIZE {
        return Err(DecodeError::TruncatedData);
    }
    let flags: u16 = rest.read_u16()?;
    let uv_set_count: u8 = rest.read_u8()?;
    let native_flags: u8 = rest.read_u8()?;
    let triangle_count: u32 = rest.read_u32()?;
    let vertex_count: u32 = rest.read_u32()?;
    let frame_count: u32 = rest.read_u32()?;
    Ok(
        GeometryFields {
            flags,
            uv_set_count,
            native_flags,
            triangle_count,
            vertex_count,
            frame_count,
        },
    )
}

/// Reads the legacy colour block if the version calls for one.
pub fn read_optional_legacy_colors(cursor: &mut Cursor, version: u32) -> (r: Result<
    Option<LegacyColors>,
    DecodeError,
>)
    ensures
        final(cursor)@.wf(),
        match r {
            Ok(block) => yields(spec_legacy_colors(old(cursor)@, version), block, final(cursor)@),
            Err(e) => fails(
                spec_legacy_colors(old(cursor)@, version),
                e,
            ) && final(cursor)@ == old(cursor)@,
        },
{
    proof {
        use_type_invariant(&*cursor);
    }
    if version < LEGACY_VERSION_LIMIT {
        let block = read_legacy_colors(cursor)?;
        Ok(Some(block))
    } else {
        Ok(None)
    }
}

/// Decodes what follows the fixed fields in the body of a `Geometry` chunk.
pub fn decode_geometry_arrays(rest: Cursor, version: u32, fields: GeometryFields) -> (r: Result<
    Geometry,
    DecodeError,
>)
    ensures
        match r {
            Ok(geometry) => gives(spec_geometry_arrays(rest@, version, fields), geometry@),
            Err(e) => fails(spec_geometry_arrays(rest@, version, fields), e),
        },
{
    let mut cursor = rest;
    let color_count: u32 = if fields.stores_vertex_colors() {
        fields.vertex_count
    } else {
        0
    };
    let uv_count: u32 = if fields.stores_uvs() {
        fields.vertex_count
    } else {
        0
    };
    let normal_count: u32 = if fields.stores_normals() {
        fields.vertex_count
    } else {
        0
    };
    let legacy_colors = read_optional_legacy_colors(&mut cursor, version)?;
    let vertex_colors = read_words(&mut cursor, color_count)?;
    let uvs = read_uvs(&mut cursor, uv_count)?;
    let triangles = read_triangles(&mut cursor, fields.triangle_count)?;
    let bounds = read_bounds(&mut cursor)?;
    let positions = read_vec3s(&mut cursor, fields.vertex_count)?;
    let normals = read_vec3s(&mut cursor, normal_count)?;
    let materials = read_material_list(&mut cursor)?;
    Ok(
        Geometry {
            version,
            fields,
            legacy_colors,
            vertex_colors,
            uvs,
            triangles,
            bounds,
            positions,
            normals,
            materials,
        },
    )
}

/// Decodes the body of a `Geometry` chunk of the given version.
pub fn decode_geometry_body(body: Cursor, version: u32) -> (r: Result<Geometry, DecodeError>)
    ensures
        match r {
            Ok(geometry) => gives(spec_geometry_body(body@, version), geometry@),
            Err(e) => fails(spec_geometry_body(body@, version), e),
        },
        r matches Ok(geometry) ==> geometry@.version == version && geometry@.consistent(),
{
    proof {
        lemma_geometry_consistent(body@, version);
    }
    let mut rest = body;
    let (_, fields_body) = expect_chunk(&mut rest, TAG_STRUCT)?;
    let fields = read_fields(fields_body)?;
    decode_geometry_arrays(rest, version, fields)
}

/// Finds and decodes the next `Geometry` chunk.
pub fn read_geometry(cursor: &mut Cursor) -> (r: Result<Geometry, DecodeError>)
    ensures
        final(cursor)@.wf(),
        old(cursor)@.precedes(final(cursor)@),
        match r {
            Ok(geometry) => yields(spec_geometry(old(cursor)@), geometry@, final(cursor)@),
            Err(e) => fails(spec_geometry(old(cursor)@), e) && final(cursor)@ == old(cursor)@,
        },
{
    let mut work = cursor.fork();
    let (header, body) = expect_chunk(&mut work, TAG_GEOMETRY)?;
    let geometry = decode_geometry_body(body, header.version)?;
    *cursor = work;
    Ok(geometry)
}

/// Finds and decodes the next `count` `Geometry` chunks.
pub fn read_geometries(cursor: &mut Cursor, count: u32) -> (r: Result<Vec<Geometry>, DecodeError>)
    ensures
        final(cursor)@.wf(),
        old(cursor)@.precedes(final(cursor)@),
        match r {
            Ok(geometries) => yields(
                spec_geometries(old(cursor)@, count as nat, Seq::empty()),
                views(geometries@),
                final(cursor)@,
            ),
            Err(e) => fails(
                spec_geometries(old(cursor)@, count as nat, Seq::empty()),
                e,
            ) && final(cursor)@ == old(cursor)@,
        },
{
    let mut work = cursor.fork();
    let mut out: Vec<Geometry> = Vec::new();
    let mut i: u32 = 0;
    assert(views(out@) =~= Seq::<GeometryView>::empty());
    while i < count
        invariant
            i <= count,
            work@.wf(),
            cursor@.wf(),
            cursor@ == old(cursor)@,
            cursor@.precedes(work@),
            spec_geometries(old(cursor)@, count as nat, Seq::empty()) == spec_geometries(
                work@,
                (count - i) as nat,
                views(out@),
            ),
        decreases count - i,
    {
        let ghost before = views(out@);
        let geometry = read_geometry(&mut work)?;
        out.push(geometry);
        i = i + 1;
        assert(views(out@) =~= before.push(geometry@));
    }
    *cursor = work;
    Ok(out)
}

/// Decodes the body of a `GeometryList` chunk.
pub fn decode_geometry_list_body(body: Cursor) -> (r: Result<Vec<Geometry>, DecodeError>)
    ensures
        match r {
            Ok(geometries) => gives(spec_geometry_list_body(body@), views(geometries@)),
            Err(e) => fails(spec_geometry_list_body(body@), e),
        },
{
    let mut rest = body;
    let (_, mut fields) = expect_chunk(&mut rest, TAG_STRUCT)?;
    let count: u32 = fields.read_u32()?;
    check_count(&rest, count, HEADER_SIZE)?;
    read_geometries(&mut rest, count)
}

} // verus!
