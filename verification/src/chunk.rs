//! Chunk headers and the walk over a stream of sibling chunks.
//!
//! A chunk is a 12-byte header (tag, body size, version) and a body of
//! exactly `body_size` bytes. A reader that does not know a tag, or does not
//! expect it where it stands, passes over the chunk by its declared size.

use crate::bytes::le_u32;
use crate::cursor::{whole, Cursor, CursorView};
use crate::error::DecodeError;
use crate::outcome::{fails, gives, yields};
use vstd::prelude::*;

verus! {

/// The size of a chunk header in bytes.
pub const HEADER_SIZE: usize = 12;

/// The tag of a chunk that holds the fixed fields of its parent.
pub const TAG_STRUCT: u32 = 0x0001;

/// The tag of a chunk that holds NUL-padded text.
pub const TAG_STRING: u32 = 0x0002;

/// The tag of a chunk that holds what plugins attach to its parent.
pub const TAG_EXTENSION: u32 = 0x0003;

/// The tag of a texture reference of a material.
pub const TAG_TEXTURE: u32 = 0x0006;

/// The tag of a material.
pub const TAG_MATERIAL: u32 = 0x0007;

/// The tag of the material list of a geometry.
pub const TAG_MATERIAL_LIST: u32 = 0x0008;

/// The tag of the frame list of a clump.
pub const TAG_FRAME_LIST: u32 = 0x000E;

/// The tag of a geometry.
pub const TAG_GEOMETRY: u32 = 0x000F;

/// The tag of a clump, the root chunk of a model.
pub const TAG_CLUMP: u32 = 0x0010;

/// The tag of a texture dictionary, the root chunk of a texture archive.
pub const TAG_TEXTURE_DICTIONARY: u32 = 0x0016;

/// The tag of the geometry list of a clump.
pub const TAG_GEOMETRY_LIST: u32 = 0x001A;

/// The tag of the chunk that carries bone information.
pub const TAG_HANIM_PLUGIN: u32 = 0x011E;

/// The tag of the chunk that names a frame.
pub const TAG_NODE_NAME: u32 = 0x0253_F2FE;

/// What a chunk holds, as far as this crate knows. The set is open: a tag
/// that is not listed keeps its raw value.
#[derive(Clone, Copy, Debug, PartialEq, Eq, Structural)]
pub enum Tag {
    Struct,
    String,
    Extension,
    Texture,
    Material,
    MaterialList,
    FrameList,
    Geometry,
    Clump,
    TextureDictionary,
    GeometryList,
    HAnimPlugin,
    NodeName,
    Unknown(u32),
}

impl Tag {
    /// The classification of a raw tag value.
    pub open spec fn of(raw: u32) -> Tag {
        if raw == TAG_STRUCT {
            Tag::Struct
        } else if raw == TAG_STRING {
            Tag::String
        } else if raw == TAG_EXTENSION {
            Tag::Extension
        } else if raw == TAG_TEXTURE {
            Tag::Texture
        } else if raw == TAG_MATERIAL {
            Tag::Material
        } else if raw == TAG_MATERIAL_LIST {
            Tag::MaterialList
        } else if raw == TAG_FRAME_LIST {
            Tag::FrameList
        } else if raw == TAG_GEOMETRY {
            Tag::Geometry
        } else if raw == TAG_CLUMP {
            Tag::Clump
        } else if raw == TAG_TEXTURE_DICTIONARY {
            Tag::TextureDictionary
        } else if raw == TAG_GEOMETRY_LIST {
            Tag::GeometryList
        } else if raw == TAG_HANIM_PLUGIN {
            Tag::HAnimPlugin
        } else if raw == TAG_NODE_NAME {
            Tag::NodeName
        } else {
            Tag::Unknown(raw)
        }
    }

    /// The raw value that a tag is written as.
    pub open spec fn code(self) -> u32 {
        match self {
            Tag::Struct => TAG_STRUCT,
            Tag::String => TAG_STRING,
            Tag::Extension => TAG_EXTENSION,
            Tag::Texture => TAG_TEXTURE,
            Tag::Material => TAG_MATERIAL,
            Tag::MaterialList => TAG_MATERIAL_LIST,
            Tag::FrameList => TAG_FRAME_LIST,
            Tag::Geometry => TAG_GEOMETRY,
            Tag::Clump => TAG_CLUMP,
            Tag::TextureDictionary => TAG_TEXTURE_DICTIONARY,
            Tag::GeometryList => TAG_GEOMETRY_LIST,
            Tag::HAnimPlugin => TAG_HANIM_PLUGIN,
            Tag::NodeName => TAG_NODE_NAME,
            Tag::Unknown(raw) => raw,
        }
    }

    /// Whether the tag is one of the listed kinds.
    pub open spec fn known(self) -> bool {
        !(self is Unknown)
    }

    /// Classifies a raw tag value.
    pub fn from_raw(raw: u32) -> (tag: Tag)
        ensures
            tag == Tag::of(raw),
    {
        if raw == TAG_STRUCT {
            Tag::Struct
        } else if raw == TAG_STRING {
            Tag::String
        } else if raw == TAG_EXTENSION {
            Tag::Extension
        } else if raw == TAG_TEXTURE {
            Tag::Texture
        } else if raw == TAG_MATERIAL {
            Tag::Material
        } else if raw == TAG_MATERIAL_LIST {
            Tag::MaterialList
        } else if raw == TAG_FRAME_LIST {
            Tag::FrameList
        } else if raw == TAG_GEOMETRY {
            Tag::Geometry
        } else if raw == TAG_CLUMP {
            Tag::Clump
        } else if raw == TAG_TEXTURE_DICTIONARY {
            Tag::TextureDictionary
        } else if raw == TAG_GEOMETRY_LIST {
            Tag::GeometryList
        } else if raw == TAG_HANIM_PLUGIN {
            Tag::HAnimPlugin
        } else if raw == TAG_NODE_NAME {
            Tag::NodeName
        } else {
            Tag::Unknown(raw)
        }
    }

    /// The raw value of the tag.
    pub fn raw(&self) -> (raw: u32)
        ensures
            raw == self.code(),
    {
        match self {
            Tag::Struct => TAG_STRUCT,
            Tag::String => TAG_STRING,
            Tag::Extension => TAG_EXTENSION,
            Tag::Texture => TAG_TEXTURE,
            Tag::Material => TAG_MATERIAL,
            Tag::MaterialList => TAG_MATERIAL_LIST,
            Tag::FrameList => TAG_FRAME_LIST,
            Tag::Geometry => TAG_GEOMETRY,
            Tag::Clump => TAG_CLUMP,
            Tag::TextureDictionary => TAG_TEXTURE_DICTIONARY,
            Tag::GeometryList => TAG_GEOMETRY_LIST,
            Tag::HAnimPlugin => TAG_HANIM_PLUGIN,
            Tag::NodeName => TAG_NODE_NAME,
            Tag::Unknown(raw) => *raw,
        }
    }

    /// Whether the tag is one of the listed kinds.
    pub fn is_known(&self) -> (known: bool)
        ensures
            known == self.known(),
    {
        match self {
            Tag::Unknown(_) => false,
            _ => true,
        }
    }
}

/// Classifying a raw value loses nothing: the tag's code is the raw value,
/// also for a tag that is not known.
pub proof fn lemma_tag_preserves_raw(raw: u32)
    ensures
        Tag::of(raw).code() == raw,
        !Tag::of(raw).known() ==> Tag::of(raw) == Tag::Unknown(raw),
{
}

/// The header that precedes every chunk body.
#[derive(Clone, Copy, Debug, PartialEq, Eq, Structural)]
pub struct ChunkHeader {
    /// The raw tag.
    pub tag: u32,
    /// The length of the body in bytes, the header not counted.
    pub body_size: u32,
    /// The format version the chunk was written with.
    pub version: u32,
}

impl ChunkHeader {
    /// The classification of the header's tag.
    pub fn kind(&self) -> (tag: Tag)
        ensures
            tag == Tag::of(self.tag),
    {
        Tag::from_raw(self.tag)
    }
}

/// The header encoded by the 12 bytes at `buf[at..at + 12]`.
pub open spec fn header_at(buf: Seq<u8>, at: int) -> ChunkHeader {
    ChunkHeader {
        tag: le_u32(buf, at),
        body_size: le_u32(buf, at + 4),
        version: le_u32(buf, at + 8),
    }
}

/// A chunk found in a stream: its header, the window of its body, and the
/// stream after the chunk.
pub struct ChunkSpan {
    pub header: ChunkHeader,
    pub body: CursorView,
    pub rest: CursorView,
}

/// Reading a header from `c`: twelve bytes, or `TruncatedData`.
pub open spec fn spec_read_header(c: CursorView) -> Result<(ChunkHeader, CursorView), DecodeError> {
    if c.remaining() < 12 {
        Err(DecodeError::TruncatedData)
    } else {
        Ok((header_at(c.buf, c.pos), c.advance(12)))
    }
}

/// Reading a chunk from `c`: a header, then a body that must fit in what is
/// left of `c`.
pub open spec fn spec_read_chunk(c: CursorView) -> Result<ChunkSpan, DecodeError> {
    if c.remaining() < 12 {
        Err(DecodeError::TruncatedData)
    } else {
        let header = header_at(c.buf, c.pos);
        if header.body_size > c.remaining() - 12 {
            Err(DecodeError::MalformedChunk)
        } else {
            Ok(
                ChunkSpan {
                    header,
                    body: c.advance(12).scoped(header.body_size as int),
                    rest: c.advance(12 + header.body_size),
                },
            )
        }
    }
}

/// Moving `c` to the end of the body that starts at `body_start`.
pub open spec fn spec_skip_to_end(c: CursorView, body_start: int, body_size: int) -> Result<
    CursorView,
    DecodeError,
> {
    if body_start + body_size > c.limit {
        Err(DecodeError::MalformedChunk)
    } else {
        Ok(c.at(body_start + body_size))
    }
}

/// The first chunk of `c` whose tag is `tag`, every chunk before it passed
/// over by its size.
pub open spec fn spec_expect_chunk(c: CursorView, tag: u32) -> Result<ChunkSpan, DecodeError>
    decreases c.remaining(),
{
    match spec_read_chunk(c) {
        Err(e) => Err(e),
        Ok(span) => if span.header.tag == tag {
            Ok(span)
        } else {
            spec_expect_chunk(span.rest, tag)
        },
    }
}

/// The body of the root chunk of `buf`, which must be tagged `tag`. The
/// root's tag is checked before its size; bytes after the root chunk are of
/// no concern.
pub open spec fn spec_root(buf: Seq<u8>, tag: u32) -> Result<CursorView, DecodeError> {
    match spec_read_header(whole(buf)) {
        Err(e) => Err(e),
        Ok((header, body)) => if header.tag != tag {
            Err(DecodeError::UnexpectedFormat)
        } else if header.body_size > body.remaining() {
            Err(DecodeError::TruncatedData)
        } else {
            Ok(body.scoped(header.body_size as int))
        },
    }
}

/// A chunk that was read lies inside the stream it was read from: its body
/// starts right after its header and ends where the stream continues, and
/// neither window leaves the buffer.
pub proof fn lemma_read_chunk_bounds(c: CursorView)
    requires
        c.wf(),
    ensures
        match spec_read_chunk(c) {
            Ok(span) => {
                &&& span.header == header_at(c.buf, c.pos)
                &&& span.body.wf()
                &&& span.rest.wf()
                &&& c.precedes(span.rest)
                &&& span.body.buf == c.buf
                &&& span.body.pos == c.pos + 12
                &&& span.body.limit == span.body.pos + span.header.body_size
                &&& span.rest.pos == span.body.limit
            },
            Err(e) => e == DecodeError::TruncatedData || e == DecodeError::MalformedChunk,
        },
{
}

/// A chunk that was found by its tag carries that tag and lies inside the
/// stream that was searched: the stream continues right after its body.
pub proof fn lemma_expect_chunk_bounds(c: CursorView, tag: u32)
    requires
        c.wf(),
    ensures
        match spec_expect_chunk(c, tag) {
            Ok(span) => {
                &&& span.header.tag == tag
                &&& span.body.wf()
                &&& span.rest.wf()
                &&& c.precedes(span.rest)
                &&& span.body.buf == c.buf
                &&& c.pos + 12 <= span.body.pos
                &&& span.body.limit == span.body.pos + span.header.body_size
                &&& span.rest.pos == span.body.limit
            },
            Err(e) => e == DecodeError::TruncatedData || e == DecodeError::MalformedChunk,
        },
    decreases c.remaining(),
{
    lemma_read_chunk_bounds(c);
    match spec_read_chunk(c) {
        Err(_) => {},
        Ok(span) => {
            if span.header.tag != tag {
                lemma_expect_chunk_bounds(span.rest, tag);
            }
        },
    }
}

/// A chunk with another tag does not hide the chunk that is looked for: the
/// search goes on behind it.
pub proof fn lemma_expect_chunk_skips(c: CursorView, tag: u32)
    ensures
        match spec_read_chunk(c) {
            Ok(span) => span.header.tag != tag ==> spec_expect_chunk(c, tag) == spec_expect_chunk(
                span.rest,
                tag,
            ),
            Err(e) => fails(spec_expect_chunk(c, tag), e),
        },
{
}

/// A buffer whose first chunk is not tagged `tag` is refused as
/// `UnexpectedFormat`, whatever else it holds.
pub proof fn lemma_unexpected_root(buf: Seq<u8>, tag: u32)
    requires
        buf.len() >= 12,
        le_u32(buf, 0) != tag,
    ensures
        fails(spec_root(buf, tag), DecodeError::UnexpectedFormat),
{
}

/// The body of an accepted root chunk lies inside the buffer, right after the
/// root's header.
pub proof fn lemma_root_bounds(buf: Seq<u8>, tag: u32)
    requires
        buf.len() <= usize::MAX,
    ensures
        match spec_root(buf, tag) {
            Ok(body) => {
                &&& body.wf()
                &&& body.buf == buf
                &&& body.pos == 12
                &&& le_u32(buf, 0) == tag
                &&& body.limit == 12 + le_u32(buf, 4)
            },
            Err(e) => e == DecodeError::TruncatedData || e == DecodeError::UnexpectedFormat,
        },
{
}

/// Two chunks that differ at most in what their streams hold outside their
/// windows.
pub open spec fn alike_spans(
    first: Result<ChunkSpan, DecodeError>,
    second: Result<ChunkSpan, DecodeError>,
) -> bool {
    match (first, second) {
        (Ok(a), Ok(b)) => a.header == b.header && a.body.agrees(b.body) && a.rest.agrees(b.rest),
        (Err(a), Err(b)) => a == b,
        _ => false,
    }
}

/// Which chunk is read depends on the bytes inside the window alone.
pub proof fn lemma_read_chunk_local(a: CursorView, b: CursorView)
    requires
        a.agrees(b),
    ensures
        alike_spans(spec_read_chunk(a), spec_read_chunk(b)),
{
}

/// Which chunk is found depends on the bytes inside the window alone.
pub proof fn lemma_expect_chunk_local(a: CursorView, b: CursorView, tag: u32)
    requires
        a.agrees(b),
    ensures
        alike_spans(spec_expect_chunk(a, tag), spec_expect_chunk(b, tag)),
    decreases a.remaining(),
{
    lemma_read_chunk_local(a, b);
    match (spec_read_chunk(a), spec_read_chunk(b)) {
        (Ok(x), Ok(y)) => {
            if x.header.tag != tag {
                lemma_expect_chunk_local(x.rest, y.rest, tag);
            }
        },
        _ => {},
    }
}

/// The body of the root chunk is the same window, with the same bytes,
/// whatever follows the root chunk in the buffer.
pub proof fn lemma_root_local(buf: Seq<u8>, more: Seq<u8>, tag: u32)
    requires
        (buf + more).len() <= usize::MAX,
        spec_root(buf, tag) is Ok,
    ensures
        spec_root(buf + more, tag) is Ok,
        spec_root(buf, tag)->Ok_0.agrees(spec_root(buf + more, tag)->Ok_0),
{
}

/// Reads the 12-byte header at the cursor.
pub fn read_header(cursor: &mut Cursor) -> (r: Result<ChunkHeader, DecodeError>)
    ensures
        final(cursor)@.wf(),
        match r {
            Ok(header) => yields(spec_read_header(old(cursor)@), header, final(cursor)@),
            Err(e) => fails(spec_read_header(old(cursor)@), e)
                && final(cursor)@ == old(cursor)@,
        },
{
    if cursor.remaining() < HEADER_SIZE {
        return Err(DecodeError::TruncatedData);
    }
    let tag: u32 = cursor.read_u32()?;
    let body_size: u32 = cursor.read_u32()?;
    let version: u32 = cursor.read_u32()?;
    Ok(ChunkHeader { tag, body_size, version })
}

/// Reads a chunk header and carves out the chunk's body. The cursor is left
/// after the body, whatever is later read from the body.
pub fn read_chunk<'a>(cursor: &mut Cursor<'a>) -> (r: Result<
    (ChunkHeader, Cursor<'a>),
    DecodeError,
>)
    ensures
        final(cursor)@.wf(),
        match r {
            Ok((header, body)) => {
                &&& gives(
                    spec_read_chunk(old(cursor)@),
                    ChunkSpan { header, body: body@, rest: final(cursor)@ },
                )
                &&& body@.wf()
            },
            Err(e) => fails(spec_read_chunk(old(cursor)@), e) && final(cursor)@
                == old(cursor)@,
        },
{
    let mut work = cursor.fork();
    let header = read_header(&mut work)?;
    match work.sub_cursor(header.body_size as usize) {
        Ok(body) => {
            *cursor = work;
            Ok((header, body))
        },
        Err(_) => Err(DecodeError::MalformedChunk),
    }
}

/// Repositions the cursor at the end of the chunk body that starts at
/// `body_start` and is `body_size` bytes long, wherever the cursor stands.
pub fn skip_to_end(cursor: &mut Cursor, body_start: usize, body_size: u32) -> (r: Result<
    (),
    DecodeError,
>)
    ensures
        final(cursor)@.wf(),
        match r {
            Ok(_) => gives(
                spec_skip_to_end(old(cursor)@, body_start as int, body_size as int),
                final(cursor)@,
            ),
            Err(e) => fails(
                spec_skip_to_end(old(cursor)@, body_start as int, body_size as int),
                e,
            ) && final(cursor)@ == old(cursor)@,
        },
{
    proof {
        use_type_invariant(&*cursor);
    }
    match body_start.checked_add(body_size as usize) {
        None => Err(DecodeError::MalformedChunk),
        Some(end) => match cursor.seek(end) {
            Ok(_) => Ok(()),
            Err(_) => Err(DecodeError::MalformedChunk),
        },
    }
}

/// Finds the next chunk tagged `tag`, passing over every chunk before it.
/// When there is none, the cursor stays where it was.
pub fn expect_chunk<'a>(cursor: &mut Cursor<'a>, tag: u32) -> (r: Result<
    (ChunkHeader, Cursor<'a>),
    DecodeError,
>)
    ensures
        final(cursor)@.wf(),
        old(cursor)@.precedes(final(cursor)@),
        match r {
            Ok((header, body)) => {
                &&& gives(
                    spec_expect_chunk(old(cursor)@, tag),
                    ChunkSpan { header, body: body@, rest: final(cursor)@ },
                )
                &&& body@.wf()
            },
            Err(e) => fails(spec_expect_chunk(old(cursor)@, tag), e)
                && final(cursor)@ == old(cursor)@,
        },
{
    let mut work = cursor.fork();
    loop
        invariant
            work@.wf(),
            cursor@.wf(),
            cursor@ == old(cursor)@,
            cursor@.precedes(work@),
            spec_expect_chunk(cursor@, tag) == spec_expect_chunk(work@, tag),
        decreases work@.remaining(),
    {
        let (header, body) = read_chunk(&mut work)?;
        if header.tag == tag {
            *cursor = work;
            return Ok((header, body));
        }
    }
}

/// Reads the root chunk's header, checks its tag, and carves out its body.
pub fn open_root<'a>(buffer: &'a [u8], tag: u32) -> (r: Result<Cursor<'a>, DecodeError>)
    ensures
        match r {
            Ok(body) => gives(spec_root(buffer@, tag), body@) && body@.wf(),
            Err(e) => fails(spec_root(buffer@, tag), e),
        },
{
    let mut cursor = Cursor::new(buffer);
    let header = read_header(&mut cursor)?;
    if header.tag != tag {
        return Err(DecodeError::UnexpectedFormat);
    }
    cursor.sub_cursor(header.body_size as usize)
}

} // verus!
