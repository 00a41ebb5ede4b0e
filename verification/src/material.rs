//! Material lists, materials and the textures they name.
//!
//! A material list is a `Struct` chunk with the material count, one 4-byte
//! slot per material, and then the `Material` chunks. A material is a
//! `Struct` chunk of fixed fields followed by its `Texture` chunks; a texture
//! is a `Struct` chunk followed by a name chunk and an alpha-name chunk.

use crate::bytes::{lemma_until_nul_local, until_nul};
use crate::chunk::{
    expect_chunk, lemma_expect_chunk_bounds, lemma_expect_chunk_local, lemma_read_chunk_bounds,
    lemma_read_chunk_local, read_chunk, spec_expect_chunk, spec_read_chunk, HEADER_SIZE,
    TAG_MATERIAL, TAG_MATERIAL_LIST, TAG_STRING, TAG_STRUCT, TAG_TEXTURE,
};
use crate::cursor::{Cursor, CursorView, Float32};
use crate::error::DecodeError;
use crate::outcome::{alike, fails, gives, views, yields, Decoded};
use crate::records::{check_count, fits, lemma_arrays_local, read_words, spec_words};
use vstd::prelude::*;

verus! {

/// The size of the fixed fields of a material.
pub const MATERIAL_FIELDS_SIZE: usize = 28;

/// The size of the fixed fields of a texture.
pub const TEXTURE_FIELDS_SIZE: usize = 4;

/// A texture reference of a material. The names are text: bytes, in no
/// particular encoding.
#[derive(Clone, Debug, PartialEq, Eq)]
pub struct Texture {
    pub filter_flags: u16,
    pub unknown: u16,
    pub name: Vec<u8>,
    pub alpha_name: Vec<u8>,
}

/// A texture reference, its names as sequences of bytes.
pub struct TextureView {
    pub filter_flags: u16,
    pub unknown: u16,
    pub name: Seq<u8>,
    pub alpha_name: Seq<u8>,
}

impl View for Texture {
    type V = TextureView;

    open spec fn view(&self) -> TextureView {
        TextureView {
            filter_flags: self.filter_flags,
            unknown: self.unknown,
            name: self.name@,
            alpha_name: self.alpha_name@,
        }
    }
}

/// A material: fixed fields and the textures it owns.
#[derive(Clone, Debug, PartialEq, Eq)]
pub struct Material {
    pub reserved_a: u32,
    pub color: u32,
    pub reserved_b: u32,
    pub texture_count: u32,
    pub ambient: Float32,
    pub specular: Float32,
    pub diffuse: Float32,
    pub textures: Vec<Texture>,
}

/// A material, its textures as a sequence.
pub struct MaterialView {
    pub reserved_a: u32,
    pub color: u32,
    pub reserved_b: u32,
    pub texture_count: u32,
    pub ambient: Float32,
    pub specular: Float32,
    pub diffuse: Float32,
    pub textures: Seq<TextureView>,
}

impl View for Material {
    type V = MaterialView;

    open spec fn view(&self) -> MaterialView {
        MaterialView {
            reserved_a: self.reserved_a,
            color: self.color,
            reserved_b: self.reserved_b,
            texture_count: self.texture_count,
            ambient: self.ambient,
            specular: self.specular,
            diffuse: self.diffuse,
            textures: views(self.textures@),
        }
    }
}

/// The materials of a geometry. `slots` holds the 4-byte slot that the list
/// stores for each material, as a little-endian word, uninterpreted.
#[derive(Clone, Debug, PartialEq, Eq)]
pub struct MaterialList {
    pub slots: Vec<u32>,
    pub materials: Vec<Material>,
}

/// A material list, its slots and materials as sequences.
pub struct MaterialListView {
    pub slots: Seq<u32>,
    pub materials: Seq<MaterialView>,
}

impl View for MaterialList {
    type V = MaterialListView;

    open spec fn view(&self) -> MaterialListView {
        MaterialListView { slots: self.slots@, materials: views(self.materials@) }
    }
}

impl MaterialView {
    /// The material owns as many textures as its fields declare.
    pub open spec fn consistent(self) -> bool {
        self.textures.len() == self.texture_count
    }
}

impl MaterialListView {
    /// The list has one slot for each material, and each material is
    /// consistent.
    pub open spec fn consistent(self) -> bool {
        &&& self.slots.len() == self.materials.len()
        &&& forall|i: int|
            0 <= i < self.materials.len() ==> (#[trigger] self.materials[i]).consistent()
    }
}

/// The text that a name chunk holds. The body of a `String` chunk is
/// NUL-padded, and its text ends before the first NUL; the body of a chunk
/// with any other tag is text from end to end.
pub open spec fn name_text(tag: u32, body: CursorView) -> Seq<u8> {
    if tag == TAG_STRING {
        until_nul(body.buf, body.pos, body.limit)
    } else {
        body.rest()
    }
}

/// A name: the next chunk, whatever its tag, read as text.
pub open spec fn spec_name(c: CursorView) -> Decoded<Seq<u8>> {
    match spec_read_chunk(c) {
        Err(e) => Err(e),
        Ok(span) => Ok((name_text(span.header.tag, span.body), span.rest)),
    }
}

/// The body of a `Texture` chunk.
pub open spec fn spec_texture_body(c: CursorView) -> Result<TextureView, DecodeError> {
    match spec_expect_chunk(c, TAG_STRUCT) {
        Err(e) => Err(e),
        Ok(fields) => if fields.body.remaining() < 4 {
            Err(DecodeError::TruncatedData)
        } else {
            match spec_name(fields.rest) {
                Err(e) => Err(e),
                Ok((name, after_name)) => match spec_name(after_name) {
                    Err(e) => Err(e),
                    Ok((alpha_name, _)) => Ok(
                        TextureView {
                            filter_flags: fields.body.u16_at(0),
                            unknown: fields.body.u16_at(2),
                            name,
                            alpha_name,
                        },
                    ),
                },
            }
        },
    }
}

/// The next `Texture` chunk of a stream.
pub open spec fn spec_texture(c: CursorView) -> Decoded<TextureView> {
    match spec_expect_chunk(c, TAG_TEXTURE) {
        Err(e) => Err(e),
        Ok(span) => match spec_texture_body(span.body) {
            Err(e) => Err(e),
            Ok(texture) => Ok((texture, span.rest)),
        },
    }
}

/// `done`, followed by the next `count` textures of a stream.
pub open spec fn spec_textures(c: CursorView, count: nat, done: Seq<TextureView>) -> Decoded<
    Seq<TextureView>,
>
    decreases count,
{
    if count == 0 {
        Ok((done, c))
    } else {
        match spec_texture(c) {
            Err(e) => Err(e),
            Ok((texture, rest)) => spec_textures(rest, (count - 1) as nat, done.push(texture)),
        }
    }
}

/// The body of a `Material` chunk.
pub open spec fn spec_material_body(c: CursorView) -> Result<MaterialView, DecodeError> {
    match spec_expect_chunk(c, TAG_STRUCT) {
        Err(e) => Err(e),
        Ok(fields) => if fields.body.remaining() < 28 {
            Err(DecodeError::TruncatedData)
        } else {
            let texture_count = fields.body.u32_at(12);
            if !fits(fields.rest, texture_count as nat, 12) {
                Err(DecodeError::CountOutOfBounds)
            } else {
                match spec_textures(fields.rest, texture_count as nat, Seq::empty()) {
                    Err(e) => Err(e),
                    Ok((textures, _)) => Ok(
                        MaterialView {
                            reserved_a: fields.body.u32_at(0),
                            color: fields.body.u32_at(4),
                            reserved_b: fields.body.u32_at(8),
                            texture_count,
                            ambient: fields.body.f32_at(16),
                            specular: fields.body.f32_at(20),
                            diffuse: fields.body.f32_at(24),
                            textures,
                        },
                    ),
                }
            }
        },
    }
}

/// The next `Material` chunk of a stream.
pub open spec fn spec_material(c: CursorView) -> Decoded<MaterialView> {
    match spec_expect_chunk(c, TAG_MATERIAL) {
        Err(e) => Err(e),
        Ok(span) => match spec_material_body(span.body) {
            Err(e) => Err(e),
            Ok(material) => Ok((material, span.rest)),
        },
    }
}

/// `done`, followed by the next `count` materials of a stream.
pub open spec fn spec_materials(c: CursorView, count: nat, done: Seq<MaterialView>) -> Decoded<
    Seq<MaterialView>,
>
    decreases count,
{
    if count == 0 {
        Ok((done, c))
    } else {
        match spec_material(c) {
            Err(e) => Err(e),
            Ok((material, rest)) => spec_materials(rest, (count - 1) as nat, done.push(material)),
        }
    }
}

/// The body of a `MaterialList` chunk.
pub open spec fn spec_material_list_body(c: CursorView) -> Result<MaterialListView, DecodeError> {
    match spec_expect_chunk(c, TAG_STRUCT) {
        Err(e) => Err(e),
        Ok(fields) => if fields.body.remaining() < 4 {
            Err(DecodeError::TruncatedData)
        } else {
            let count = fields.body.u32_at(0) as nat;
            match spec_words(fields.rest, count) {
                Err(e) => Err(e),
                Ok((slots, after_slots)) => if !fits(after_slots, count, 12) {
                    Err(DecodeError::CountOutOfBounds)
                } else {
                    match spec_materials(after_slots, count, Seq::empty()) {
                        Err(e) => Err(e),
                        Ok((materials, _)) => Ok(MaterialListView { slots, materials }),
                    }
                },
            }
        },
    }
}

/// The next `MaterialList` chunk of a stream.
pub open spec fn spec_material_list(c: CursorView) -> Decoded<MaterialListView> {
    match spec_expect_chunk(c, TAG_MATERIAL_LIST) {
        Err(e) => Err(e),
        Ok(span) => match spec_material_list_body(span.body) {
            Err(e) => Err(e),
            Ok(list) => Ok((list, span.rest)),
        },
    }
}

/// A material list that declares more materials than it has room for slots
/// is refused as `CountOutOfBounds`, before any slot or material is read.
pub proof fn lemma_material_count_out_of_bounds(c: CursorView)
    ensures
        spec_expect_chunk(c, TAG_STRUCT) matches Ok(fields) ==> fields.body.remaining() >= 4 && 4
            * fields.body.u32_at(0) > fields.rest.remaining() ==> fails(
                spec_material_list_body(c),
                DecodeError::CountOutOfBounds,
            ),
{
}

/// A material is decoded with as many textures as its fields declare.
pub proof fn lemma_material_consistent(c: CursorView)
    ensures
        spec_material_body(c) matches Ok(material) ==> material.consistent(),
        spec_material(c) matches Ok((material, _)) ==> material.consistent(),
{
    match spec_expect_chunk(c, TAG_STRUCT) {
        Err(_) => {},
        Ok(fields) => {
            lemma_textures_length(fields.rest, fields.body.u32_at(12) as nat, Seq::empty());
        },
    }
    match spec_expect_chunk(c, TAG_MATERIAL) {
        Err(_) => {},
        Ok(span) => {
            match spec_expect_chunk(span.body, TAG_STRUCT) {
                Err(_) => {},
                Ok(fields) => {
                    lemma_textures_length(
                        fields.rest,
                        fields.body.u32_at(12) as nat,
                        Seq::empty(),
                    );
                },
            }
        },
    }
}

/// `count` more materials make the sequence `count` longer, and each of them
/// is consistent.
pub proof fn lemma_materials_consistent(c: CursorView, count: nat, done: Seq<MaterialView>)
    requires
        forall|i: int| 0 <= i < done.len() ==> (#[trigger] done[i]).consistent(),
    ensures
        spec_materials(c, count, done) matches Ok((all, _)) ==> {
            &&& all.len() == done.len() + count
            &&& forall|i: int| 0 <= i < all.len() ==> (#[trigger] all[i]).consistent()
        },
    decreases count,
{
    if count > 0 {
        match spec_material(c) {
            Err(_) => {},
            Ok((material, rest)) => {
                lemma_material_consistent(c);
                lemma_materials_consistent(rest, (count - 1) as nat, done.push(material));
            },
        }
    }
}

/// A material list is decoded to as many slots and as many materials as it
/// declares, each material with as many textures as it declares.
pub proof fn lemma_material_list_consistent(c: CursorView)
    ensures
        spec_material_list_body(c) matches Ok(list) ==> {
            &&& list.consistent()
            &&& spec_expect_chunk(c, TAG_STRUCT) matches Ok(fields) && list.materials.len()
                == fields.body.u32_at(0)
        },
        spec_material_list(c) matches Ok((list, _)) ==> list.consistent(),
{
    lemma_material_list_body_consistent(c);
    match spec_expect_chunk(c, TAG_MATERIAL_LIST) {
        Err(_) => {},
        Ok(span) => {
            lemma_material_list_body_consistent(span.body);
        },
    }
}

/// The body of a material list is decoded to a consistent list.
proof fn lemma_material_list_body_consistent(c: CursorView)
    ensures
        spec_material_list_body(c) matches Ok(list) ==> {
            &&& list.consistent()
            &&& spec_expect_chunk(c, TAG_STRUCT) matches Ok(fields) && list.materials.len()
                == fields.body.u32_at(0)
        },
{
    match spec_expect_chunk(c, TAG_STRUCT) {
        Err(_) => {},
        Ok(fields) => {
            let count = fields.body.u32_at(0) as nat;
            match spec_words(fields.rest, count) {
                Err(_) => {},
                Ok((slots, after_slots)) => {
                    lemma_materials_consistent(after_slots, count, Seq::empty());
                },
            }
        },
    }
}

/// `count` more textures make the sequence `count` longer.
pub proof fn lemma_textures_length(c: CursorView, count: nat, done: Seq<TextureView>)
    ensures
        spec_textures(c, count, done) matches Ok((all, _)) ==> all.len() == done.len() + count,
    decreases count,
{
    if count > 0 {
        match spec_texture(c) {
            Err(_) => {},
            Ok((texture, rest)) => {
                lemma_textures_length(rest, (count - 1) as nat, done.push(texture));
            },
        }
    }
}

/// Whatever is decoded from a stream of materials, the stream continues
/// inside its buffer, not before where it stood and not beyond its limit.
pub proof fn lemma_material_streams_stay_in_bounds(c: CursorView)
    requires
        c.wf(),
    ensures
        spec_name(c) matches Ok((_, rest)) ==> rest.wf() && c.precedes(rest),
        spec_texture(c) matches Ok((_, rest)) ==> rest.wf() && c.precedes(rest),
        spec_material(c) matches Ok((_, rest)) ==> rest.wf() && c.precedes(rest),
        spec_material_list(c) matches Ok((_, rest)) ==> rest.wf() && c.precedes(rest),
{
    lemma_read_chunk_bounds(c);
    lemma_expect_chunk_bounds(c, TAG_TEXTURE);
    lemma_expect_chunk_bounds(c, TAG_MATERIAL);
    lemma_expect_chunk_bounds(c, TAG_MATERIAL_LIST);
}

/// A run of textures that is decoded ends inside the buffer.
pub proof fn lemma_textures_stay_in_bounds(c: CursorView, count: nat, done: Seq<TextureView>)
    requires
        c.wf(),
    ensures
        spec_textures(c, count, done) matches Ok((_, rest)) ==> rest.wf() && c.precedes(rest),
    decreases count,
{
    if count > 0 {
        lemma_material_streams_stay_in_bounds(c);
        match spec_texture(c) {
            Err(_) => {},
            Ok((texture, rest)) => {
                lemma_textures_stay_in_bounds(rest, (count - 1) as nat, done.push(texture));
            },
        }
    }
}

/// A run of materials that is decoded ends inside the buffer.
pub proof fn lemma_materials_stay_in_bounds(c: CursorView, count: nat, done: Seq<MaterialView>)
    requires
        c.wf(),
    ensures
        spec_materials(c, count, done) matches Ok((_, rest)) ==> rest.wf() && c.precedes(rest),
    decreases count,
{
    if count > 0 {
        lemma_material_streams_stay_in_bounds(c);
        match spec_material(c) {
            Err(_) => {},
            Ok((material, rest)) => {
                lemma_materials_stay_in_bounds(rest, (count - 1) as nat, done.push(material));
            },
        }
    }
}

/// Which name is read depends on the bytes inside the window alone.
pub proof fn lemma_name_local(a: CursorView, b: CursorView)
    requires
        a.agrees(b),
    ensures
        alike(spec_name(a), spec_name(b)),
{
    lemma_read_chunk_local(a, b);
    match (spec_read_chunk(a), spec_read_chunk(b)) {
        (Ok(x), Ok(y)) => {
            lemma_until_nul_local(x.body.buf, y.body.buf, x.body.pos, x.body.limit);
            assert(x.body.rest() =~= y.body.rest());
        },
        _ => {},
    }
}

/// Which texture is decoded depends on the bytes inside the window alone.
pub proof fn lemma_texture_local(a: CursorView, b: CursorView)
    requires
        a.agrees(b),
    ensures
        spec_texture_body(a) == spec_texture_body(b),
        alike(spec_texture(a), spec_texture(b)),
{
    lemma_texture_body_local(a, b);
    lemma_expect_chunk_local(a, b, TAG_TEXTURE);
    match (spec_expect_chunk(a, TAG_TEXTURE), spec_expect_chunk(b, TAG_TEXTURE)) {
        (Ok(x), Ok(y)) => {
            lemma_texture_body_local(x.body, y.body);
        },
        _ => {},
    }
}

/// Which texture body is decoded depends on the bytes inside the window
/// alone.
proof fn lemma_texture_body_local(a: CursorView, b: CursorView)
    requires
        a.agrees(b),
    ensures
        spec_texture_body(a) == spec_texture_body(b),
{
    lemma_expect_chunk_local(a, b, TAG_STRUCT);
    match (spec_expect_chunk(a, TAG_STRUCT), spec_expect_chunk(b, TAG_STRUCT)) {
        (Ok(x), Ok(y)) => {
            lemma_name_local(x.rest, y.rest);
            match (spec_name(x.rest), spec_name(y.rest)) {
                (Ok((_, after_x)), Ok((_, after_y))) => {
                    lemma_name_local(after_x, after_y);
                },
                _ => {},
            }
        },
        _ => {},
    }
}

/// Which textures are decoded depends on the bytes inside the window alone.
pub proof fn lemma_textures_local(a: CursorView, b: CursorView, count: nat, done: Seq<TextureView>)
    requires
        a.agrees(b),
    ensures
        alike(spec_textures(a, count, done), spec_textures(b, count, done)),
    decreases count,
{
    if count > 0 {
        lemma_texture_local(a, b);
        match (spec_texture(a), spec_texture(b)) {
            (Ok((texture, rest_a)), Ok((_, rest_b))) => {
                lemma_textures_local(rest_a, rest_b, (count - 1) as nat, done.push(texture));
            },
            _ => {},
        }
    }
}

/// Which material body is decoded depends on the bytes inside the window
/// alone.
proof fn lemma_material_body_local(a: CursorView, b: CursorView)
    requires
        a.agrees(b),
    ensures
        spec_material_body(a) == spec_material_body(b),
{
    lemma_expect_chunk_local(a, b, TAG_STRUCT);
    match (spec_expect_chunk(a, TAG_STRUCT), spec_expect_chunk(b, TAG_STRUCT)) {
        (Ok(x), Ok(y)) => {
            if x.body.remaining() >= 28 {
                lemma_textures_local(x.rest, y.rest, x.body.u32_at(12) as nat, Seq::empty());
            }
        },
        _ => {},
    }
}

/// Which material is decoded depends on the bytes inside the window alone.
pub proof fn lemma_material_local(a: CursorView, b: CursorView)
    requires
        a.agrees(b),
    ensures
        spec_material_body(a) == spec_material_body(b),
        alike(spec_material(a), spec_material(b)),
{
    lemma_material_body_local(a, b);
    lemma_expect_chunk_local(a, b, TAG_MATERIAL);
    match (spec_expect_chunk(a, TAG_MATERIAL), spec_expect_chunk(b, TAG_MATERIAL)) {
        (Ok(x), Ok(y)) => {
            lemma_material_body_local(x.body, y.body);
        },
        _ => {},
    }
}

/// Which materials are decoded depends on the bytes inside the window alone.
pub proof fn lemma_materials_local(
    a: CursorView,
    b: CursorView,
    count: nat,
    done: Seq<MaterialView>,
)
    requires
        a.agrees(b),
    ensures
        alike(spec_materials(a, count, done), spec_materials(b, count, done)),
    decreases count,
{
    if count > 0 {
        lemma_material_local(a, b);
        match (spec_material(a), spec_material(b)) {
            (Ok((material, rest_a)), Ok((_, rest_b))) => {
                lemma_materials_local(rest_a, rest_b, (count - 1) as nat, done.push(material));
            },
            _ => {},
        }
    }
}

/// Which material list body is decoded depends on the bytes inside the
/// window alone.
proof fn lemma_material_list_body_local(a: CursorView, b: CursorView)
    requires
        a.agrees(b),
    ensures
        spec_material_list_body(a) == spec_material_list_body(b),
{
    lemma_expect_chunk_local(a, b, TAG_STRUCT);
    match (spec_expect_chunk(a, TAG_STRUCT), spec_expect_chunk(b, TAG_STRUCT)) {
        (Ok(x), Ok(y)) => {
            if x.body.remaining() >= 4 {
                let count = x.body.u32_at(0) as nat;
                lemma_arrays_local(x.rest, y.rest, count);
                match (spec_words(x.rest, count), spec_words(y.rest, count)) {
                    (Ok((_, after_x)), Ok((_, after_y))) => {
                        lemma_materials_local(after_x, after_y, count, Seq::empty());
                    },
                    _ => {},
                }
            }
        },
        _ => {},
    }
}

/// Which material list is decoded depends on the bytes inside the window
/// alone.
pub proof fn lemma_material_list_local(a: CursorView, b: CursorView)
    requires
        a.agrees(b),
    ensures
        spec_material_list_body(a) == spec_material_list_body(b),
        alike(spec_material_list(a), spec_material_list(b)),
{
    lemma_material_list_body_local(a, b);
    lemma_expect_chunk_local(a, b, TAG_MATERIAL_LIST);
    match (spec_expect_chunk(a, TAG_MATERIAL_LIST), spec_expect_chunk(b, TAG_MATERIAL_LIST)) {
        (Ok(x), Ok(y)) => {
            lemma_material_list_body_local(x.body, y.body);
        },
        _ => {},
    }
}

/// Reads the next chunk as a name.
pub fn read_name(cursor: &mut Cursor) -> (r: Result<Vec<u8>, DecodeError>)
    ensures
        final(cursor)@.wf(),
        old(cursor)@.precedes(final(cursor)@),
        match r {
            Ok(name) => yields(spec_name(old(cursor)@), name@, final(cursor)@),
            Err(e) => fails(spec_name(old(cursor)@), e) && final(cursor)@ == old(cursor)@,
        },
{
    let (header, mut body) = read_chunk(cursor)?;
    let len: usize = body.remaining();
    if header.tag == TAG_STRING {
        body.read_fixed_string(len)
    } else {
        body.read_fixed_bytes(len)
    }
}

/// Decodes the body of a `Texture` chunk.
pub fn decode_texture_body(body: Cursor) -> (r: Result<Texture, DecodeError>)
    ensures
        match r {
            Ok(texture) => gives(spec_texture_body(body@), texture@),
            Err(e) => fails(spec_texture_body(body@), e),
        },
{
    let mut body = body;
    let (_, mut fields) = expect_chunk(&mut body, TAG_STRUCT)?;
    if fields.remaining() < TEXTURE_FIELDS_SIZE {
        return Err(DecodeError::TruncatedData);
    }
    let filter_flags: u16 = fields.read_u16()?;
    let unknown: u16 = fields.read_u16()?;
    let name = read_name(&mut body)?;
    let alpha_name = read_name(&mut body)?;
    Ok(Texture { filter_flags, unknown, name, alpha_name })
}

/// Finds and decodes the next `Texture` chunk.
pub fn read_texture(cursor: &mut Cursor) -> (r: Result<Texture, DecodeError>)
    ensures
        final(cursor)@.wf(),
        old(cursor)@.precedes(final(cursor)@),
        match r {
            Ok(texture) => yields(spec_texture(old(cursor)@), texture@, final(cursor)@),
            Err(e) => fails(spec_texture(old(cursor)@), e) && final(cursor)@ == old(cursor)@,
        },
{
    let mut work = cursor.fork();
    let (_, body) = expect_chunk(&mut work, TAG_TEXTURE)?;
    let texture = decode_texture_body(body)?;
    *cursor = work;
    Ok(texture)
}

/// Finds and decodes the next `count` `Texture` chunks.
pub fn read_textures(cursor: &mut Cursor, count: u32) -> (r: Result<Vec<Texture>, DecodeError>)
    ensures
        final(cursor)@.wf(),
        old(cursor)@.precedes(final(cursor)@),
        match r {
            Ok(textures) => yields(
                spec_textures(old(cursor)@, count as nat, Seq::empty()),
                views(textures@),
                final(cursor)@,
            ),
            Err(e) => fails(
                spec_textures(old(cursor)@, count as nat, Seq::empty()),
                e,
            ) && final(cursor)@ == old(cursor)@,
        },
{
    let mut work = cursor.fork();
    let mut out: Vec<Texture> = Vec::new();
    let mut i: u32 = 0;
    assert(views(out@) =~= Seq::<TextureView>::empty());
    while i < count
        invariant
            i <= count,
            work@.wf(),
            cursor@.wf(),
            cursor@ == old(cursor)@,
            cursor@.precedes(work@),
            spec_textures(old(cursor)@, count as nat, Seq::empty()) == spec_textures(
                work@,
                (count - i) as nat,
                views(out@),
            ),
        decreases count - i,
    {
        let ghost before = views(out@);
        let texture = read_texture(&mut work)?;
        out.push(texture);
        i = i + 1;
        assert(views(out@) =~= before.push(texture@));
    }
    *cursor = work;
    Ok(out)
}

/// Decodes the body of a `Material` chunk.
pub fn decode_material_body(body: Cursor) -> (r: Result<Material, DecodeError>)
    ensures
        match r {
            Ok(material) => gives(spec_material_body(body@), material@),
            Err(e) => fails(spec_material_body(body@), e),
        },
{
    let mut body = body;
    let (_, mut fields) = expect_chunk(&mut body, TAG_STRUCT)?;
    if fields.remaining() < MATERIAL_FIELDS_SIZE {
        return Err(DecodeError::TruncatedData);
    }
    let reserved_a: u32 = fields.read_u32()?;
    let color: u32 = fields.read_u32()?;
    let reserved_b: u32 = fields.read_u32()?;
    let texture_count: u32 = fields.read_u32()?;
    let ambient = fields.read_f32()?;
    let specular = fields.read_f32()?;
    let diffuse = fields.read_f32()?;
    check_count(&body, texture_count, HEADER_SIZE)?;
    let textures = read_textures(&mut body, texture_count)?;
    Ok(
        Material {
            reserved_a,
            color,
            reserved_b,
            texture_count,
            ambient,
            specular,
            diffuse,
            textures,
        },
    )
}

/// Finds and decodes the next `Material` chunk.
pub fn read_material(cursor: &mut Cursor) -> (r: Result<Material, DecodeError>)
    ensures
        final(cursor)@.wf(),
        old(cursor)@.precedes(final(cursor)@),
        match r {
            Ok(material) => yields(spec_material(old(cursor)@), material@, final(cursor)@),
            Err(e) => fails(spec_material(old(cursor)@), e) && final(cursor)@ == old(cursor)@,
        },
{
    let mut work = cursor.fork();
    let (_, body) = expect_chunk(&mut work, TAG_MATERIAL)?;
    let material = decode_material_body(body)?;
    *cursor = work;
    Ok(material)
}

/// Finds and decodes the next `count` `Material` chunks.
pub fn read_materials(cursor: &mut Cursor, count: u32) -> (r: Result<Vec<Material>, DecodeError>)
    ensures
        final(cursor)@.wf(),
        old(cursor)@.precedes(final(cursor)@),
        match r {
            Ok(materials) => yields(
                spec_materials(old(cursor)@, count as nat, Seq::empty()),
                views(materials@),
                final(cursor)@,
            ),
            Err(e) => fails(
                spec_materials(old(cursor)@, count as nat, Seq::empty()),
                e,
            ) && final(cursor)@ == old(cursor)@,
        },
{
    let mut work = cursor.fork();
    let mut out: Vec<Material> = Vec::new();
    let mut i: u32 = 0;
    assert(views(out@) =~= Seq::<MaterialView>::empty());
    while i < count
        invariant
            i <= count,
            work@.wf(),
            cursor@.wf(),
            cursor@ == old(cursor)@,
            cursor@.precedes(work@),
            spec_materials(old(cursor)@, count as nat, Seq::empty()) == spec_materials(
                work@,
                (count - i) as nat,
                views(out@),
            ),
        decreases count - i,
    {
        let ghost before = views(out@);
        let material = read_material(&mut work)?;
        out.push(material);
        i = i + 1;
        assert(views(out@) =~= before.push(material@));
    }
    *cursor = work;
    Ok(out)
}

/// Decodes the body of a `MaterialList` chunk.
pub fn decode_material_list_body(body: Cursor) -> (r: Result<MaterialList, DecodeError>)
    ensures
        match r {
            Ok(list) => gives(spec_material_list_body(body@), list@),
            Err(e) => fails(spec_material_list_body(body@), e),
        },
{
    let mut body = body;
    let (_, mut fields) = expect_chunk(&mut body, TAG_STRUCT)?;
    let count: u32 = fields.read_u32()?;
    let slots = read_words(&mut body, count)?;
    check_count(&body, count, HEADER_SIZE)?;
    let materials = read_materials(&mut body, count)?;
    Ok(MaterialList { slots, materials })
}

/// Finds and decodes the next `MaterialList` chunk.
pub fn read_material_list(cursor: &mut Cursor) -> (r: Result<MaterialList, DecodeError>)
    ensures
        final(cursor)@.wf(),
        old(cursor)@.precedes(final(cursor)@),
        match r {
            Ok(list) => yields(spec_material_list(old(cursor)@), list@, final(cursor)@),
            Err(e) => fails(spec_material_list(old(cursor)@), e) && final(cursor)@ == old(cursor)@,
        },
{
    let mut work = cursor.fork();
    let (_, body) = expect_chunk(&mut work, TAG_MATERIAL_LIST)?;
    let list = decode_material_list_body(body)?;
    *cursor = work;
    Ok(list)
}

} // verus!
