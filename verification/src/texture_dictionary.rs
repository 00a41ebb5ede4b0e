//! Texture dictionaries, and the entry point that decodes a whole `.txd`
//! buffer.
//!
//! The body of a `TextureDictionary` chunk is a `Struct` chunk with a 16-bit
//! texture count, then one chunk per texture. The body of a texture's chunk
//! starts with a `Struct` chunk that holds the fixed native-raster record;
//! the pixel data after the record is not decoded.

use crate::bytes::{le_u32, lemma_until_nul_bounds, lemma_until_nul_local, until_nul};
use crate::chunk::{
    expect_chunk, lemma_expect_chunk_bounds, lemma_expect_chunk_local, lemma_read_chunk_bounds,
    lemma_read_chunk_local, lemma_root_local, open_root, read_chunk, spec_expect_chunk,
    spec_read_chunk, spec_root, HEADER_SIZE, TAG_STRUCT, TAG_TEXTURE_DICTIONARY,
};
use crate::cursor::{Cursor, CursorView};
use crate::error::DecodeError;
use crate::outcome::{alike, fails, gives, views, yields, Decoded};
use crate::records::{check_count, fits};
use vstd::prelude::*;

verus! {

/// The size of the fixed native-raster record.
pub const NATIVE_RECORD_SIZE: usize = 92;

/// The width of each of the two name fields of the record.
pub const NAME_FIELD_SIZE: usize = 32;

/// The fixed record of one texture. The two names are the text of their
/// 32-byte, NUL-padded fields: the bytes before the first NUL, or all 32.
#[derive(Clone, Debug, PartialEq, Eq)]
pub struct TextureNative {
    pub platform: u32,
    pub filter_flags: u16,
    pub wrap_v: u8,
    pub wrap_u: u8,
    pub diffuse_name: Vec<u8>,
    pub alpha_name: Vec<u8>,
    pub raster_format: u32,
    pub alpha: u32,
    pub width: u16,
    pub height: u16,
    pub bits_per_pixel: u8,
    pub mipmap_count: u8,
    pub raster_type: u8,
    pub compression: u8,
    pub data_size: u32,
}

/// A native-raster record, its names as sequences of bytes.
pub struct TextureNativeView {
    pub platform: u32,
    pub filter_flags: u16,
    pub wrap_v: u8,
    pub wrap_u: u8,
    pub diffuse_name: Seq<u8>,
    pub alpha_name: Seq<u8>,
    pub raster_format: u32,
    pub alpha: u32,
    pub width: u16,
    pub height: u16,
    pub bits_per_pixel: u8,
    pub mipmap_count: u8,
    pub raster_type: u8,
    pub compression: u8,
    pub data_size: u32,
}

impl View for TextureNative {
    type V = TextureNativeView;

    open spec fn view(&self) -> TextureNativeView {
        TextureNativeView {
            platform: self.platform,
            filter_flags: self.filter_flags,
            wrap_v: self.wrap_v,
            wrap_u: self.wrap_u,
            diffuse_name: self.diffuse_name@,
            alpha_name: self.alpha_name@,
            raster_format: self.raster_format,
            alpha: self.alpha,
            width: self.width,
            height: self.height,
            bits_per_pixel: self.bits_per_pixel,
            mipmap_count: self.mipmap_count,
            raster_type: self.raster_type,
            compression: self.compression,
            data_size: self.data_size,
        }
    }
}

/// What a `.txd` file holds.
#[derive(Clone, Debug, PartialEq, Eq)]
pub struct TextureDictionary {
    pub texture_count: u16,
    pub reserved: u16,
    pub textures: Vec<TextureNative>,
}

/// A texture dictionary, its textures as a sequence.
pub struct TextureDictionaryView {
    pub texture_count: u16,
    pub reserved: u16,
    pub textures: Seq<TextureNativeView>,
}

impl View for TextureDictionary {
    type V = TextureDictionaryView;

    open spec fn view(&self) -> TextureDictionaryView {
        TextureDictionaryView {
            texture_count: self.texture_count,
            reserved: self.reserved,
            textures: views(self.textures@),
        }
    }
}

/// Whether `name` can be the text of a 32-byte name field: no longer than the
/// field, and free of NUL.
pub open spec fn is_field_text(name: Seq<u8>) -> bool {
    &&& name.len() <= 32
    &&& forall|i: int| 0 <= i < name.len() ==> name[i] != 0
}

impl TextureNativeView {
    /// Both names are texts of their fields.
    pub open spec fn consistent(self) -> bool {
        is_field_text(self.diffuse_name) && is_field_text(self.alpha_name)
    }
}

impl TextureDictionaryView {
    /// The dictionary holds as many textures as it declares, each of them
    /// consistent.
    pub open spec fn consistent(self) -> bool {
        &&& self.textures.len() == self.texture_count
        &&& forall|i: int|
            0 <= i < self.textures.len() ==> (#[trigger] self.textures[i]).consistent()
    }
}

/// The text of the `width`-byte name field that starts `off` bytes after the
/// position of `c`.
pub open spec fn name_field(c: CursorView, off: int, width: int) -> Seq<u8> {
    until_nul(c.buf, c.pos + off, c.pos + off + width)
}

/// The record encoded by the 92 bytes at the position of `c`.
pub open spec fn native_at(c: CursorView) -> TextureNativeView {
    TextureNativeView {
        platform: c.u32_at(0),
        filter_flags: c.u16_at(4),
        wrap_v: c.u8_at(6),
        wrap_u: c.u8_at(7),
        diffuse_name: name_field(c, 8, 32),
        alpha_name: name_field(c, 40, 32),
        raster_format: c.u32_at(72),
        alpha: c.u32_at(76),
        width: c.u16_at(80),
        height: c.u16_at(82),
        bits_per_pixel: c.u8_at(84),
        mipmap_count: c.u8_at(85),
        raster_type: c.u8_at(86),
        compression: c.u8_at(87),
        data_size: c.u32_at(88),
    }
}

/// The native-raster record: `TruncatedData` unless 92 bytes are left.
pub open spec fn spec_native_record(c: CursorView) -> Result<TextureNativeView, DecodeError> {
    if c.remaining() < 92 {
        Err(DecodeError::TruncatedData)
    } else {
        Ok(native_at(c))
    }
}

/// The body of a texture's chunk: the record is in its first `Struct` chunk.
pub open spec fn spec_texture_native_body(c: CursorView) -> Result<TextureNativeView, DecodeError> {
    match spec_expect_chunk(c, TAG_STRUCT) {
        Err(e) => Err(e),
        Ok(span) => spec_native_record(span.body),
    }
}

/// The next texture of a dictionary: the next chunk, whatever its tag.
pub open spec fn spec_texture_native(c: CursorView) -> Decoded<TextureNativeView> {
    match spec_read_chunk(c) {
        Err(e) => Err(e),
        Ok(span) => match spec_texture_native_body(span.body) {
            Err(e) => Err(e),
            Ok(texture) => Ok((texture, span.rest)),
        },
    }
}

/// `done`, followed by the next `count` textures of a dictionary.
pub open spec fn spec_texture_natives(
    c: CursorView,
    count: nat,
    done: Seq<TextureNativeView>,
) -> Decoded<Seq<TextureNativeView>>
    decreases count,
{
    if count == 0 {
        Ok((done, c))
    } else {
        match spec_texture_native(c) {
            Err(e) => Err(e),
            Ok((texture, rest)) => spec_texture_natives(
                rest,
                (count - 1) as nat,
                done.push(texture),
            ),
        }
    }
}

/// The body of a `TextureDictionary` chunk.
pub open spec fn spec_texture_dictionary_body(c: CursorView) -> Result<
    TextureDictionaryView,
    DecodeError,
> {
    match spec_expect_chunk(c, TAG_STRUCT) {
        Err(e) => Err(e),
        Ok(span) => if span.body.remaining() < 4 {
            Err(DecodeError::TruncatedData)
        } else {
            let texture_count = span.body.u16_at(0);
            if !fits(span.rest, texture_count as nat, 12) {
                Err(DecodeError::CountOutOfBounds)
            } else {
                match spec_texture_natives(span.rest, texture_count as nat, Seq::empty()) {
                    Err(e) => Err(e),
                    Ok((textures, _)) => Ok(
                        TextureDictionaryView {
                            texture_count,
                            reserved: span.body.u16_at(2),
                            textures,
                        },
                    ),
                }
            }
        },
    }
}

/// The dictionary that the bytes of a `.txd` file stand for.
pub open spec fn spec_decode_texture_dictionary(buf: Seq<u8>) -> Result<
    TextureDictionaryView,
    DecodeError,
> {
    match spec_root(buf, TAG_TEXTURE_DICTIONARY) {
        Err(e) => Err(e),
        Ok(body) => spec_texture_dictionary_body(body),
    }
}

/// A buffer whose root chunk is not a `TextureDictionary` is not a texture
/// dictionary: the result is `UnexpectedFormat`.
pub proof fn lemma_dictionary_root_must_be_dictionary(buf: Seq<u8>)
    requires
        buf.len() >= 12,
        le_u32(buf, 0) != TAG_TEXTURE_DICTIONARY,
    ensures
        fails(spec_decode_texture_dictionary(buf), DecodeError::UnexpectedFormat),
{
}

/// A texture that is decoded leaves its stream inside the buffer, and so
/// does a run of textures.
pub proof fn lemma_texture_natives_stay_in_bounds(
    c: CursorView,
    count: nat,
    done: Seq<TextureNativeView>,
)
    requires
        c.wf(),
    ensures
        spec_texture_native(c) matches Ok((_, rest)) ==> rest.wf() && c.precedes(rest),
        spec_texture_natives(c, count, done) matches Ok((_, rest)) ==> rest.wf() && c.precedes(
            rest,
        ),
    decreases count,
{
    lemma_read_chunk_bounds(c);
    if count > 0 {
        match spec_texture_native(c) {
            Err(_) => {},
            Ok((texture, rest)) => {
                lemma_texture_natives_stay_in_bounds(rest, (count - 1) as nat, done.push(texture));
            },
        }
    }
}

/// A texture that is decoded is consistent.
pub proof fn lemma_texture_native_consistent(c: CursorView)
    requires
        c.wf(),
    ensures
        spec_texture_native(c) matches Ok((texture, _)) ==> texture.consistent(),
{
    lemma_read_chunk_bounds(c);
    match spec_read_chunk(c) {
        Err(_) => {},
        Ok(span) => {
            lemma_expect_chunk_bounds(span.body, TAG_STRUCT);
            match spec_expect_chunk(span.body, TAG_STRUCT) {
                Err(_) => {},
                Ok(record) => {
                    if record.body.remaining() >= 92 {
                        lemma_name_field(record.body, 8, 32);
                        lemma_name_field(record.body, 40, 32);
                    }
                },
            }
        },
    }
}

/// `count` more textures make the sequence `count` longer, and each of them
/// is consistent.
pub proof fn lemma_texture_natives_consistent(
    c: CursorView,
    count: nat,
    done: Seq<TextureNativeView>,
)
    requires
        c.wf(),
        forall|i: int| 0 <= i < done.len() ==> (#[trigger] done[i]).consistent(),
    ensures
        spec_texture_natives(c, count, done) matches Ok((all, _)) ==> {
            &&& all.len() == done.len() + count
            &&& forall|i: int| 0 <= i < all.len() ==> (#[trigger] all[i]).consistent()
        },
    decreases count,
{
    if count > 0 {
        match spec_texture_native(c) {
            Err(_) => {},
            Ok((texture, rest)) => {
                lemma_texture_native_consistent(c);
                lemma_texture_natives_stay_in_bounds(c, 0, Seq::empty());
                lemma_texture_natives_consistent(rest, (count - 1) as nat, done.push(texture));
            },
        }
    }
}

/// A dictionary that is decoded is consistent: it holds as many textures as
/// it declares, and the names of each are no longer than their 32-byte
/// fields and hold no NUL.
pub proof fn lemma_dictionary_consistent(c: CursorView)
    requires
        c.wf(),
    ensures
        spec_texture_dictionary_body(c) matches Ok(dictionary) ==> dictionary.consistent(),
{
    lemma_expect_chunk_bounds(c, TAG_STRUCT);
    match spec_expect_chunk(c, TAG_STRUCT) {
        Err(_) => {},
        Ok(span) => {
            lemma_texture_natives_consistent(span.rest, span.body.u16_at(0) as nat, Seq::empty());
        },
    }
}

/// The text of a name field is the field up to its first NUL: no longer than
/// the field, free of NUL, and the whole field when the field holds no NUL.
pub proof fn lemma_name_field(c: CursorView, off: int, width: int)
    requires
        c.wf(),
        0 <= off,
        0 <= width,
        off + width <= c.remaining(),
    ensures
        name_field(c, off, width).len() <= width,
        forall|i: int|
            0 <= i < name_field(c, off, width).len() ==> name_field(c, off, width)[i] == c.u8_at(
                off + i,
            ) && name_field(c, off, width)[i] != 0,
        name_field(c, off, width).len() < width ==> c.u8_at(off + name_field(c, off, width).len())
            == 0,
{
    lemma_until_nul_bounds(c.buf, c.pos + off, c.pos + off + width);
}

/// Which texture is decoded depends on the bytes inside the window alone.
pub proof fn lemma_texture_native_local(a: CursorView, b: CursorView)
    requires
        a.agrees(b),
    ensures
        spec_texture_native_body(a) == spec_texture_native_body(b),
        alike(spec_texture_native(a), spec_texture_native(b)),
{
    lemma_texture_native_body_local(a, b);
    lemma_read_chunk_local(a, b);
    match (spec_read_chunk(a), spec_read_chunk(b)) {
        (Ok(x), Ok(y)) => {
            lemma_texture_native_body_local(x.body, y.body);
        },
        _ => {},
    }
}

/// Which record is decoded depends on the bytes inside the window alone.
proof fn lemma_texture_native_body_local(a: CursorView, b: CursorView)
    requires
        a.agrees(b),
    ensures
        spec_texture_native_body(a) == spec_texture_native_body(b),
{
    lemma_expect_chunk_local(a, b, TAG_STRUCT);
    match (spec_expect_chunk(a, TAG_STRUCT), spec_expect_chunk(b, TAG_STRUCT)) {
        (Ok(x), Ok(y)) => {
            let (x, y) = (x.body, y.body);
            if x.remaining() >= 92 {
                lemma_until_nul_local(x.buf, y.buf, x.pos + 8, x.pos + 40);
                lemma_until_nul_local(x.buf, y.buf, x.pos + 40, x.pos + 72);
            }
        },
        _ => {},
    }
}

/// Which textures are decoded depends on the bytes inside the window alone.
pub proof fn lemma_texture_natives_local(
    a: CursorView,
    b: CursorView,
    count: nat,
    done: Seq<TextureNativeView>,
)
    requires
        a.agrees(b),
    ensures
        alike(spec_texture_natives(a, count, done), spec_texture_natives(b, count, done)),
    decreases count,
{
    if count > 0 {
        lemma_texture_native_local(a, b);
        match (spec_texture_native(a), spec_texture_native(b)) {
            (Ok((texture, rest_a)), Ok((_, rest_b))) => {
                lemma_texture_natives_local(rest_a, rest_b, (count - 1) as nat, done.push(texture));
            },
            _ => {},
        }
    }
}

/// Which dictionary is decoded depends on the bytes inside the window alone.
pub proof fn lemma_dictionary_body_local(a: CursorView, b: CursorView)
    requires
        a.agrees(b),
    ensures
        spec_texture_dictionary_body(a) == spec_texture_dictionary_body(b),
{
    lemma_expect_chunk_local(a, b, TAG_STRUCT);
    match (spec_expect_chunk(a, TAG_STRUCT), spec_expect_chunk(b, TAG_STRUCT)) {
        (Ok(x), Ok(y)) => {
            if x.body.remaining() >= 4 {
                lemma_texture_natives_local(
                    x.rest,
                    y.rest,
                    x.body.u16_at(0) as nat,
                    Seq::empty(),
                );
            }
        },
        _ => {},
    }
}

/// What is decoded from a buffer depends on its root chunk alone: bytes
/// that follow the root chunk change nothing.
pub proof fn lemma_dictionary_ignores_trailing_bytes(buf: Seq<u8>, more: Seq<u8>)
    requires
        (buf + more).len() <= usize::MAX,
        spec_root(buf, TAG_TEXTURE_DICTIONARY) is Ok,
    ensures
        spec_decode_texture_dictionary(buf + more) == spec_decode_texture_dictionary(buf),
{
    lemma_root_local(buf, more, TAG_TEXTURE_DICTIONARY);
    lemma_dictionary_body_local(
        spec_root(buf, TAG_TEXTURE_DICTIONARY)->Ok_0,
        spec_root(buf + more, TAG_TEXTURE_DICTIONARY)->Ok_0,
    );
}

/// Reads the native-raster record from the body of its `Struct` chunk.
pub fn read_native_record(body: Cursor) -> (r: Result<TextureNative, DecodeError>)
    ensures
        match r {
            Ok(texture) => gives(spec_native_record(body@), texture@),
            Err(e) => fails(spec_native_record(body@), e),
        },
{
    let mut rest = body;
    if rest.remaining() < NATIVE_RECORD_SIZE {
        return Err(DecodeError::TruncatedData);
    }
    let platform: u32 = rest.read_u32()?;
    let filter_flags: u16 = rest.read_u16()?;
    let wrap_v: u8 = rest.read_u8()?;
    let wrap_u: u8 = rest.read_u8()?;
    let diffuse_name = rest.read_fixed_string(NAME_FIELD_SIZE)?;
    let alpha_name = rest.read_fixed_string(NAME_FIELD_SIZE)?;
    let raster_format: u32 = rest.read_u32()?;
    let alpha: u32 = rest.read_u32()?;
    let width: u16 = rest.read_u16()?;
    let height: u16 = rest.read_u16()?;
    let bits_per_pixel: u8 = rest.read_u8()?;
    let mipmap_count: u8 = rest.read_u8()?;
    let raster_type: u8 = rest.read_u8()?;
    let compression: u8 = rest.read_u8()?;
    let data_size: u32 = rest.read_u32()?;
    Ok(
        TextureNative {
            platform,
            filter_flags,
            wrap_v,
            wrap_u,
            diffuse_name,
            alpha_name,
            raster_format,
            alpha,
            width,
            height,
            bits_per_pixel,
            mipmap_count,
            raster_type,
            compression,
            data_size,
        },
    )
}

/// Decodes the body of a texture's chunk.
pub fn decode_texture_native_body(body: Cursor) -> (r: Result<TextureNative, DecodeError>)
    ensures
        match r {
            Ok(texture) => gives(spec_texture_native_body(body@), texture@),
            Err(e) => fails(spec_texture_native_body(body@), e),
        },
{
    let mut rest = body;
    let (_, record) = expect_chunk(&mut rest, TAG_STRUCT)?;
    read_native_record(record)
}

/// Decodes the next chunk as a texture.
pub fn read_texture_native(cursor: &mut Cursor) -> (r: Result<TextureNative, DecodeError>)
    ensures
        final(cursor)@.wf(),
        old(cursor)@.precedes(final(cursor)@),
        match r {
            Ok(texture) => yields(spec_texture_native(old(cursor)@), texture@, final(cursor)@),
            Err(e) => fails(spec_texture_native(old(cursor)@), e) && final(cursor)@ == old(cursor)@,
        },
{
    let mut work = cursor.fork();
    let (_, body) = read_chunk(&mut work)?;
    let texture = decode_texture_native_body(body)?;
    *cursor = work;
    Ok(texture)
}

/// Decodes the next `count` chunks as textures.
pub fn read_texture_natives(cursor: &mut Cursor, count: u16) -> (r: Result<
    Vec<TextureNative>,
    DecodeError,
>)
    ensures
        final(cursor)@.wf(),
        old(cursor)@.precedes(final(cursor)@),
        match r {
            Ok(textures) => yields(
                spec_texture_natives(old(cursor)@, count as nat, Seq::empty()),
                views(textures@),
                final(cursor)@,
            ),
            Err(e) => fails(
                spec_texture_natives(old(cursor)@, count as nat, Seq::empty()),
                e,
            ) && final(cursor)@ == old(cursor)@,
        },
{
    let mut work = cursor.fork();
    let mut out: Vec<TextureNative> = Vec::new();
    let mut i: u16 = 0;
    assert(views(out@) =~= Seq::<TextureNativeView>::empty());
    while i < count
        invariant
            i <= count,
            work@.wf(),
            cursor@.wf(),
            cursor@ == old(cursor)@,
            cursor@.precedes(work@),
            spec_texture_natives(old(cursor)@, count as nat, Seq::empty()) == spec_texture_natives(
                work@,
                (count - i) as nat,
                views(out@),
            ),
        decreases count - i,
    {
        let ghost before = views(out@);
        let texture = read_texture_native(&mut work)?;
        out.push(texture);
        i = i + 1;
        assert(views(out@) =~= before.push(texture@));
    }
    *cursor = work;
    Ok(out)
}

/// Decodes the body of a `TextureDictionary` chunk.
pub fn decode_texture_dictionary_body(body: Cursor) -> (r: Result<TextureDictionary, DecodeError>)
    ensures
        match r {
            Ok(dictionary) => gives(spec_texture_dictionary_body(body@), dictionary@),
            Err(e) => fails(spec_texture_dictionary_body(body@), e),
        },
{
    let mut rest = body;
    let (_, mut fields) = expect_chunk(&mut rest, TAG_STRUCT)?;
    if fields.remaining() < 4 {
        return Err(DecodeError::TruncatedData);
    }
    let texture_count: u16 = fields.read_u16()?;
    let reserved: u16 = fields.read_u16()?;
    check_count(&rest, texture_count as u32, HEADER_SIZE)?;
    let textures = read_texture_natives(&mut rest, texture_count)?;
    Ok(TextureDictionary { texture_count, reserved, textures })
}

/// Decodes the complete contents of a `.txd` file.
///
/// The root chunk must be a `TextureDictionary`, or the result is
/// `UnexpectedFormat`. Any failure further down is returned as it is.
pub fn decode_texture_dictionary(buffer: &[u8]) -> (r: Result<TextureDictionary, DecodeError>)
    ensures
        match r {
            Ok(dictionary) => gives(spec_decode_texture_dictionary(buffer@), dictionary@),
            Err(e) => fails(spec_decode_texture_dictionary(buffer@), e),
        },
        buffer@.len() < 12 ==> r == Err::<TextureDictionary, _>(DecodeError::TruncatedData),
        buffer@.len() >= 12 && le_u32(buffer@, 0) != TAG_TEXTURE_DICTIONARY ==> r == Err::<
            TextureDictionary,
            _,
        >(DecodeError::UnexpectedFormat),
        r matches Ok(dictionary) ==> dictionary@.consistent(),
{
    let body = open_root(buffer, TAG_TEXTURE_DICTIONARY)?;
    proof {
        lemma_dictionary_consistent(body@);
    }
    decode_texture_dictionary_body(body)
}

} // verus!
