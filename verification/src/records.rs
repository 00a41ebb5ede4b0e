//! The fixed-layout records of a model, and arrays of them.
//!
//! Each record has a spec function that says which value the bytes at an
//! offset encode, and a reader that takes it from a cursor. An array is read
//! only after its declared count has been held against the bytes that remain.

use crate::bytes::{le_i32, le_u16, le_u32};
use crate::cursor::{Cursor, CursorView, Float32};
use crate::error::DecodeError;
use crate::outcome::{alike, fails, yields, Decoded};
use vstd::prelude::*;

verus! {

/// The size of a vector of three floats.
pub const VEC3_SIZE: usize = 12;

/// The size of a frame record: a rotation, a position and two words.
pub const FRAME_SIZE: usize = 56;

/// The size of a vertex colour.
pub const COLOR_SIZE: usize = 4;

/// The size of a texture coordinate.
pub const UV_SIZE: usize = 8;

/// The size of a triangle record.
pub const TRIANGLE_SIZE: usize = 8;

/// The size of a bounding-sphere record.
pub const BOUNDS_SIZE: usize = 24;

/// The size of the legacy colour block.
pub const LEGACY_COLORS_SIZE: usize = 12;

/// Three floats.
#[derive(Clone, Copy, Debug, PartialEq, Eq, Structural)]
pub struct Vec3 {
    pub x: Float32,
    pub y: Float32,
    pub z: Float32,
}

/// A rotation, as three row vectors.
#[derive(Clone, Copy, Debug, PartialEq, Eq, Structural)]
pub struct Matrix3 {
    pub a: Vec3,
    pub b: Vec3,
    pub c: Vec3,
}

/// A node of the transform hierarchy. `parent_index` is an index into the
/// frame list that holds the frame, or negative for a root.
#[derive(Clone, Copy, Debug, PartialEq, Eq, Structural)]
pub struct Frame {
    pub rotation: Matrix3,
    pub position: Vec3,
    pub parent_index: i32,
    pub matrix_flags: u32,
}

/// A texture coordinate.
#[derive(Clone, Copy, Debug, PartialEq, Eq, Structural)]
pub struct Uv {
    pub u: Float32,
    pub v: Float32,
}

/// A triangle: three vertex indices and a material attribute, in the order
/// in which the format stores them.
#[derive(Clone, Copy, Debug, PartialEq, Eq, Structural)]
pub struct Triangle {
    pub first: u16,
    pub second: u16,
    pub attrib: u16,
    pub third: u16,
}

/// The bounding sphere of a geometry, with the two words that follow it.
#[derive(Clone, Copy, Debug, PartialEq, Eq, Structural)]
pub struct BoundingSphere {
    pub center: Vec3,
    pub radius: Float32,
    pub positions: u32,
    pub normals: u32,
}

/// The colour block that geometries of old format versions carry.
#[derive(Clone, Copy, Debug, PartialEq, Eq, Structural)]
pub struct LegacyColors {
    pub ambient: u32,
    pub diffuse: u32,
    pub specular: u32,
}

/// The float whose bit pattern is the little-endian word at `buf[at..]`.
pub open spec fn float_at(buf: Seq<u8>, at: int) -> Float32 {
    Float32 { bits: le_u32(buf, at) }
}

/// The vector encoded by the 12 bytes at `buf[at..]`.
pub open spec fn vec3_at(buf: Seq<u8>, at: int) -> Vec3 {
    Vec3 { x: float_at(buf, at), y: float_at(buf, at + 4), z: float_at(buf, at + 8) }
}

/// The rotation encoded by the 36 bytes at `buf[at..]`, row by row.
pub open spec fn matrix3_at(buf: Seq<u8>, at: int) -> Matrix3 {
    Matrix3 { a: vec3_at(buf, at), b: vec3_at(buf, at + 12), c: vec3_at(buf, at + 24) }
}

/// The frame encoded by the 56 bytes at `buf[at..]`.
pub open spec fn frame_at(buf: Seq<u8>, at: int) -> Frame {
    Frame {
        rotation: matrix3_at(buf, at),
        position: vec3_at(buf, at + 36),
        parent_index: le_i32(buf, at + 48),
        matrix_flags: le_u32(buf, at + 52),
    }
}

/// The texture coordinate encoded by the 8 bytes at `buf[at..]`.
pub open spec fn uv_at(buf: Seq<u8>, at: int) -> Uv {
    Uv { u: float_at(buf, at), v: float_at(buf, at + 4) }
}

/// The triangle encoded by the 8 bytes at `buf[at..]`.
pub open spec fn triangle_at(buf: Seq<u8>, at: int) -> Triangle {
    Triangle {
        first: le_u16(buf, at),
        second: le_u16(buf, at + 2),
        attrib: le_u16(buf, at + 4),
        third: le_u16(buf, at + 6),
    }
}

/// The bounding sphere encoded by the 24 bytes at `buf[at..]`.
pub open spec fn bounds_at(buf: Seq<u8>, at: int) -> BoundingSphere {
    BoundingSphere {
        center: vec3_at(buf, at),
        radius: float_at(buf, at + 12),
        positions: le_u32(buf, at + 16),
        normals: le_u32(buf, at + 20),
    }
}

/// The colour block encoded by the 12 bytes at `buf[at..]`.
pub open spec fn legacy_colors_at(buf: Seq<u8>, at: int) -> LegacyColors {
    LegacyColors {
        ambient: le_u32(buf, at),
        diffuse: le_u32(buf, at + 4),
        specular: le_u32(buf, at + 8),
    }
}

/// The `count` frames stored back to back from `buf[at]` on.
pub open spec fn frames_at(buf: Seq<u8>, at: int, count: nat) -> Seq<Frame> {
    Seq::new(count, |i: int| frame_at(buf, at + 56 * i))
}

/// The `count` little-endian words stored back to back from `buf[at]` on.
pub open spec fn words_at(buf: Seq<u8>, at: int, count: nat) -> Seq<u32> {
    Seq::new(count, |i: int| le_u32(buf, at + 4 * i))
}

/// The `count` texture coordinates stored back to back from `buf[at]` on.
pub open spec fn uvs_at(buf: Seq<u8>, at: int, count: nat) -> Seq<Uv> {
    Seq::new(count, |i: int| uv_at(buf, at + 8 * i))
}

/// The `count` triangles stored back to back from `buf[at]` on.
pub open spec fn triangles_at(buf: Seq<u8>, at: int, count: nat) -> Seq<Triangle> {
    Seq::new(count, |i: int| triangle_at(buf, at + 8 * i))
}

/// The `count` vectors stored back to back from `buf[at]` on.
pub open spec fn vec3s_at(buf: Seq<u8>, at: int, count: nat) -> Seq<Vec3> {
    Seq::new(count, |i: int| vec3_at(buf, at + 12 * i))
}

/// Whether `count` elements of `size` bytes each fit in what is left of `c`.
pub open spec fn fits(c: CursorView, count: nat, size: nat) -> bool {
    count * size <= c.remaining()
}

/// An array of `count` frames: `CountOutOfBounds` unless all of them fit.
pub open spec fn spec_frames(c: CursorView, count: nat) -> Decoded<Seq<Frame>> {
    if !fits(c, count, 56) {
        Err(DecodeError::CountOutOfBounds)
    } else {
        Ok((frames_at(c.buf, c.pos, count), c.advance(56 * count as int)))
    }
}

/// An array of `count` words: `CountOutOfBounds` unless all of them fit.
pub open spec fn spec_words(c: CursorView, count: nat) -> Decoded<Seq<u32>> {
    if !fits(c, count, 4) {
        Err(DecodeError::CountOutOfBounds)
    } else {
        Ok((words_at(c.buf, c.pos, count), c.advance(4 * count as int)))
    }
}

/// An array of `count` texture coordinates.
pub open spec fn spec_uvs(c: CursorView, count: nat) -> Decoded<Seq<Uv>> {
    if !fits(c, count, 8) {
        Err(DecodeError::CountOutOfBounds)
    } else {
        Ok((uvs_at(c.buf, c.pos, count), c.advance(8 * count as int)))
    }
}

/// An array of `count` triangles.
pub open spec fn spec_triangles(c: CursorView, count: nat) -> Decoded<Seq<Triangle>> {
    if !fits(c, count, 8) {
        Err(DecodeError::CountOutOfBounds)
    } else {
        Ok((triangles_at(c.buf, c.pos, count), c.advance(8 * count as int)))
    }
}

/// An array of `count` vectors.
pub open spec fn spec_vec3s(c: CursorView, count: nat) -> Decoded<Seq<Vec3>> {
    if !fits(c, count, 12) {
        Err(DecodeError::CountOutOfBounds)
    } else {
        Ok((vec3s_at(c.buf, c.pos, count), c.advance(12 * count as int)))
    }
}

/// The bounding sphere at the cursor: `TruncatedData` unless it fits.
pub open spec fn spec_bounds(c: CursorView) -> Decoded<BoundingSphere> {
    if c.remaining() < 24 {
        Err(DecodeError::TruncatedData)
    } else {
        Ok((bounds_at(c.buf, c.pos), c.advance(24)))
    }
}

/// An array that was decoded has exactly the declared number of elements, and
/// the stream continues right after them, inside the buffer.
pub proof fn lemma_arrays_bounds(c: CursorView, count: nat)
    requires
        c.wf(),
    ensures
        spec_frames(c, count) matches Ok((v, rest)) ==> v.len() == count && rest.wf()
            && c.precedes(rest),
        spec_words(c, count) matches Ok((v, rest)) ==> v.len() == count && rest.wf() && c.precedes(
            rest,
        ),
        spec_uvs(c, count) matches Ok((v, rest)) ==> v.len() == count && rest.wf() && c.precedes(
            rest,
        ),
        spec_triangles(c, count) matches Ok((v, rest)) ==> v.len() == count && rest.wf()
            && c.precedes(rest),
        spec_vec3s(c, count) matches Ok((v, rest)) ==> v.len() == count && rest.wf() && c.precedes(
            rest,
        ),
        spec_bounds(c) matches Ok((v, rest)) ==> rest.wf() && c.precedes(rest),
{
}

/// A count that does not fit is refused as `CountOutOfBounds`, whichever
/// array it is the count of; one that fits is accepted.
pub proof fn lemma_arrays_refuse_oversized_count(c: CursorView, count: nat)
    ensures
        spec_frames(c, count) is Err <==> 56 * count > c.remaining(),
        spec_words(c, count) is Err <==> 4 * count > c.remaining(),
        spec_uvs(c, count) is Err <==> 8 * count > c.remaining(),
        spec_triangles(c, count) is Err <==> 8 * count > c.remaining(),
        spec_vec3s(c, count) is Err <==> 12 * count > c.remaining(),
        spec_frames(c, count) matches Err(e) ==> e == DecodeError::CountOutOfBounds,
        spec_words(c, count) matches Err(e) ==> e == DecodeError::CountOutOfBounds,
        spec_uvs(c, count) matches Err(e) ==> e == DecodeError::CountOutOfBounds,
        spec_triangles(c, count) matches Err(e) ==> e == DecodeError::CountOutOfBounds,
        spec_vec3s(c, count) matches Err(e) ==> e == DecodeError::CountOutOfBounds,
{
}

/// Which array is decoded depends on the bytes inside the window alone.
pub proof fn lemma_arrays_local(a: CursorView, b: CursorView, count: nat)
    requires
        a.agrees(b),
    ensures
        alike(spec_frames(a, count), spec_frames(b, count)),
        alike(spec_words(a, count), spec_words(b, count)),
        alike(spec_uvs(a, count), spec_uvs(b, count)),
        alike(spec_triangles(a, count), spec_triangles(b, count)),
        alike(spec_vec3s(a, count), spec_vec3s(b, count)),
        alike(spec_bounds(a), spec_bounds(b)),
{
    if fits(a, count, 56) {
        assert(frames_at(a.buf, a.pos, count) =~= frames_at(b.buf, b.pos, count));
    }
    if fits(a, count, 4) {
        assert(words_at(a.buf, a.pos, count) =~= words_at(b.buf, b.pos, count));
    }
    if fits(a, count, 8) {
        assert(uvs_at(a.buf, a.pos, count) =~= uvs_at(b.buf, b.pos, count));
        assert(triangles_at(a.buf, a.pos, count) =~= triangles_at(b.buf, b.pos, count));
    }
    if fits(a, count, 12) {
        assert(vec3s_at(a.buf, a.pos, count) =~= vec3s_at(b.buf, b.pos, count));
    }
}

/// Holds a declared count against the bytes that remain, before anything is
/// allocated for it.
pub fn check_count(cursor: &Cursor, count: u32, size: usize) -> (r: Result<(), DecodeError>)
    ensures
        cursor@.wf(),
        match r {
            Ok(_) => fits(cursor@, count as nat, size as nat),
            Err(e) => {
                &&& e == DecodeError::CountOutOfBounds
                &&& !fits(cursor@, count as nat, size as nat)
            },
        },
{
    let left: usize = cursor.remaining();
    match (count as usize).checked_mul(size) {
        Some(needed) => if needed > left {
            Err(DecodeError::CountOutOfBounds)
        } else {
            Ok(())
        },
        None => Err(DecodeError::CountOutOfBounds),
    }
}

/// Reads three floats.
pub fn read_vec3(cursor: &mut Cursor) -> (r: Result<Vec3, DecodeError>)
    ensures
        final(cursor)@.wf(),
        match r {
            Ok(v) => {
                &&& old(cursor)@.remaining() >= 12
                &&& v == vec3_at(old(cursor)@.buf, old(cursor)@.pos)
                &&& final(cursor)@ == old(cursor)@.advance(12)
            },
            Err(e) => {
                &&& e == DecodeError::TruncatedData
                &&& old(cursor)@.remaining() < 12
                &&& final(cursor)@ == old(cursor)@
            },
        },
{
    if cursor.remaining() < VEC3_SIZE {
        return Err(DecodeError::TruncatedData);
    }
    let x = cursor.read_f32()?;
    let y = cursor.read_f32()?;
    let z = cursor.read_f32()?;
    Ok(Vec3 { x, y, z })
}

/// Reads one frame record.
pub fn read_frame(cursor: &mut Cursor) -> (r: Result<Frame, DecodeError>)
    ensures
        final(cursor)@.wf(),
        match r {
            Ok(v) => {
                &&& old(cursor)@.remaining() >= 56
                &&& v == frame_at(old(cursor)@.buf, old(cursor)@.pos)
                &&& final(cursor)@ == old(cursor)@.advance(56)
            },
            Err(e) => {
                &&& e == DecodeError::TruncatedData
                &&& old(cursor)@.remaining() < 56
                &&& final(cursor)@ == old(cursor)@
            },
        },
{
    if cursor.remaining() < FRAME_SIZE {
        return Err(DecodeError::TruncatedData);
    }
    let a = read_vec3(cursor)?;
    let b = read_vec3(cursor)?;
    let c = read_vec3(cursor)?;
    let position = read_vec3(cursor)?;
    let parent_index: i32 = cursor.read_i32()?;
    let matrix_flags: u32 = cursor.read_u32()?;
    Ok(Frame { rotation: Matrix3 { a, b, c }, position, parent_index, matrix_flags })
}

/// Reads one texture coordinate.
pub fn read_uv(cursor: &mut Cursor) -> (r: Result<Uv, DecodeError>)
    ensures
        final(cursor)@.wf(),
        match r {
            Ok(v) => {
                &&& old(cursor)@.remaining() >= 8
                &&& v == uv_at(old(cursor)@.buf, old(cursor)@.pos)
                &&& final(cursor)@ == old(cursor)@.advance(8)
            },
            Err(e) => {
                &&& e == DecodeError::TruncatedData
                &&& old(cursor)@.remaining() < 8
                &&& final(cursor)@ == old(cursor)@
            },
        },
{
    if cursor.remaining() < UV_SIZE {
        return Err(DecodeError::TruncatedData);
    }
    let u = cursor.read_f32()?;
    let v = cursor.read_f32()?;
    Ok(Uv { u, v })
}

/// Reads one triangle.
pub fn read_triangle(cursor: &mut Cursor) -> (r: Result<Triangle, DecodeError>)
    ensures
        final(cursor)@.wf(),
        match r {
            Ok(v) => {
                &&& old(cursor)@.remaining() >= 8
                &&& v == triangle_at(old(cursor)@.buf, old(cursor)@.pos)
                &&& final(cursor)@ == old(cursor)@.advance(8)
            },
            Err(e) => {
                &&& e == DecodeError::TruncatedData
                &&& old(cursor)@.remaining() < 8
                &&& final(cursor)@ == old(cursor)@
            },
        },
{
    if cursor.remaining() < TRIANGLE_SIZE {
        return Err(DecodeError::TruncatedData);
    }
    let first: u16 = cursor.read_u16()?;
    let second: u16 = cursor.read_u16()?;
    let attrib: u16 = cursor.read_u16()?;
    let third: u16 = cursor.read_u16()?;
    Ok(Triangle { first, second, attrib, third })
}

/// Reads the bounding sphere of a geometry.
pub fn read_bounds(cursor: &mut Cursor) -> (r: Result<BoundingSphere, DecodeError>)
    ensures
        final(cursor)@.wf(),
        match r {
            Ok(v) => yields(spec_bounds(old(cursor)@), v, final(cursor)@),
            Err(e) => fails(spec_bounds(old(cursor)@), e)
                && final(cursor)@ == old(cursor)@,
        },
{
    if cursor.remaining() < BOUNDS_SIZE {
        return Err(DecodeError::TruncatedData);
    }
    let center = read_vec3(cursor)?;
    let radius = cursor.read_f32()?;
    let positions: u32 = cursor.read_u32()?;
    let normals: u32 = cursor.read_u32()?;
    Ok(BoundingSphere { center, radius, positions, normals })
}

/// Reads the colour block of an old-format geometry.
pub fn read_legacy_colors(cursor: &mut Cursor) -> (r: Result<LegacyColors, DecodeError>)
    ensures
        final(cursor)@.wf(),
        match r {
            Ok(v) => {
                &&& old(cursor)@.remaining() >= 12
                &&& v == legacy_colors_at(old(cursor)@.buf, old(cursor)@.pos)
                &&& final(cursor)@ == old(cursor)@.advance(12)
            },
            Err(e) => {
                &&& e == DecodeError::TruncatedData
                &&& old(cursor)@.remaining() < 12
                &&& final(cursor)@ == old(cursor)@
            },
        },
{
    if cursor.remaining() < LEGACY_COLORS_SIZE {
        return Err(DecodeError::TruncatedData);
    }
    let ambient: u32 = cursor.read_u32()?;
    let diffuse: u32 = cursor.read_u32()?;
    let specular: u32 = cursor.read_u32()?;
    Ok(LegacyColors { ambient, diffuse, specular })
}

/// Reads `count` frames, after checking that they fit.
pub fn read_frames(cursor: &mut Cursor, count: u32) -> (r: Result<Vec<Frame>, DecodeError>)
    ensures
        final(cursor)@.wf(),
        match r {
            Ok(v) => yields(spec_frames(old(cursor)@, count as nat), v@, final(cursor)@),
            Err(e) => fails(
                spec_frames(old(cursor)@, count as nat),
                e,
            ) && final(cursor)@ == old(cursor)@,
        },
{
    check_count(cursor, count, FRAME_SIZE)?;
    let mut out: Vec<Frame> = Vec::with_capacity(count as usize);
    let mut i: u32 = 0;
    while i < count
        invariant
            i <= count,
            old(cursor)@.wf(),
            fits(old(cursor)@, count as nat, 56),
            cursor@ == old(cursor)@.advance(56 * i),
            out@ == frames_at(old(cursor)@.buf, old(cursor)@.pos, i as nat),
        decreases count - i,
    {
        let item = read_frame(cursor)?;
        out.push(item);
        i = i + 1;
    }
    Ok(out)
}

/// Reads `count` little-endian words, after checking that they fit.
pub fn read_words(cursor: &mut Cursor, count: u32) -> (r: Result<Vec<u32>, DecodeError>)
    ensures
        final(cursor)@.wf(),
        match r {
            Ok(v) => yields(spec_words(old(cursor)@, count as nat), v@, final(cursor)@),
            Err(e) => fails(spec_words(old(cursor)@, count as nat), e)
                && final(cursor)@ == old(cursor)@,
        },
{
    check_count(cursor, count, COLOR_SIZE)?;
    let mut out: Vec<u32> = Vec::with_capacity(count as usize);
    let mut i: u32 = 0;
    while i < count
        invariant
            i <= count,
            old(cursor)@.wf(),
            fits(old(cursor)@, count as nat, 4),
            cursor@ == old(cursor)@.advance(4 * i),
            out@ == words_at(old(cursor)@.buf, old(cursor)@.pos, i as nat),
        decreases count - i,
    {
        let item: u32 = cursor.read_u32()?;
        out.push(item);
        i = i + 1;
    }
    Ok(out)
}

/// Reads `count` texture coordinates, after checking that they fit.
pub fn read_uvs(cursor: &mut Cursor, count: u32) -> (r: Result<Vec<Uv>, DecodeError>)
    ensures
        final(cursor)@.wf(),
        match r {
            Ok(v) => yields(spec_uvs(old(cursor)@, count as nat), v@, final(cursor)@),
            Err(e) => fails(spec_uvs(old(cursor)@, count as nat), e)
                && final(cursor)@ == old(cursor)@,
        },
{
    check_count(cursor, count, UV_SIZE)?;
    let mut out: Vec<Uv> = Vec::with_capacity(count as usize);
    let mut i: u32 = 0;
    while i < count
        invariant
            i <= count,
            old(cursor)@.wf(),
            fits(old(cursor)@, count as nat, 8),
            cursor@ == old(cursor)@.advance(8 * i),
            out@ == uvs_at(old(cursor)@.buf, old(cursor)@.pos, i as nat),
        decreases count - i,
    {
        let item = read_uv(cursor)?;
        out.push(item);
        i = i + 1;
    }
    Ok(out)
}

/// Reads `count` triangles, after checking that they fit.
pub fn read_triangles(cursor: &mut Cursor, count: u32) -> (r: Result<Vec<Triangle>, DecodeError>)
    ensures
        final(cursor)@.wf(),
        match r {
            Ok(v) => yields(spec_triangles(old(cursor)@, count as nat), v@, final(cursor)@),
            Err(e) => fails(
                spec_triangles(old(cursor)@, count as nat),
                e,
            ) && final(cursor)@ == old(cursor)@,
        },
{
    check_count(cursor, count, TRIANGLE_SIZE)?;
    let mut out: Vec<Triangle> = Vec::with_capacity(count as usize);
    let mut i: u32 = 0;
    while i < count
        invariant
            i <= count,
            old(cursor)@.wf(),
            fits(old(cursor)@, count as nat, 8),
            cursor@ == old(cursor)@.advance(8 * i),
            out@ == triangles_at(old(cursor)@.buf, old(cursor)@.pos, i as nat),
        decreases count - i,
    {
        let item = read_triangle(cursor)?;
        out.push(item);
        i = i + 1;
    }
    Ok(out)
}

/// Reads `count` vectors, after checking that they fit.
pub fn read_vec3s(cursor: &mut Cursor, count: u32) -> (r: Result<Vec<Vec3>, DecodeError>)
    ensures
        final(cursor)@.wf(),
        match r {
            Ok(v) => yields(spec_vec3s(old(cursor)@, count as nat), v@, final(cursor)@),
            Err(e) => fails(spec_vec3s(old(cursor)@, count as nat), e)
                && final(cursor)@ == old(cursor)@,
        },
{
    check_count(cursor, count, VEC3_SIZE)?;
    let mut out: Vec<Vec3> = Vec::with_capacity(count as usize);
    let mut i: u32 = 0;
    while i < count
        invariant
            i <= count,
            old(cursor)@.wf(),
            fits(old(cursor)@, count as nat, 12),
            cursor@ == old(cursor)@.advance(12 * i),
            out@ == vec3s_at(old(cursor)@.buf, old(cursor)@.pos, i as nat),
        decreases count - i,
    {
        let item = read_vec3(cursor)?;
        out.push(item);
        i = i + 1;
    }
    Ok(out)
}

} // verus!
