//! Models: the clump, its frame list, and the entry point that decodes a
//! whole `.dff` buffer.
//!
//! The body of a `Clump` chunk is a run of sibling chunks: a `Struct` chunk
//! with the atomic count, a `FrameList` chunk, any number of `Extension`
//! chunks, and a `GeometryList` chunk.

use crate::chunk::{
    expect_chunk, lemma_expect_chunk_local, lemma_root_local, open_root, spec_expect_chunk,
    spec_root, TAG_CLUMP, TAG_FRAME_LIST, TAG_GEOMETRY_LIST, TAG_STRUCT,
};
use crate::cursor::{Cursor, CursorView};
use crate::error::DecodeError;
use crate::extension::{
    lemma_extensions_local, read_extensions, spec_extensions, Extension, ExtensionView,
};
use crate::bytes::le_u32;
use crate::geometry::{
    decode_geometry_list_body, lemma_geometry_list_consistent, lemma_geometry_list_local,
    spec_geometry_list_body, Geometry, GeometryView,
};
use crate::outcome::{fails, gives, views};
use crate::records::{lemma_arrays_local, read_frames, spec_frames, Frame};
use vstd::prelude::*;

verus! {

/// A model: the root of what a `.dff` file holds.
#[derive(Clone, Debug, PartialEq, Eq)]
pub struct Clump {
    pub atomic_count: u32,
    /// The transform hierarchy. The order matters: frames refer to their
    /// parents by index.
    pub frames: Vec<Frame>,
    pub extensions: Vec<Extension>,
    pub geometries: Vec<Geometry>,
}

/// A clump, its lists as sequences.
pub struct ClumpView {
    pub atomic_count: u32,
    pub frames: Seq<Frame>,
    pub extensions: Seq<ExtensionView>,
    pub geometries: Seq<GeometryView>,
}

impl View for Clump {
    type V = ClumpView;

    open spec fn view(&self) -> ClumpView {
        ClumpView {
            atomic_count: self.atomic_count,
            frames: self.frames@,
            extensions: views(self.extensions@),
            geometries: views(self.geometries@),
        }
    }
}

impl ClumpView {
    /// Every geometry of the clump is consistent with its own fixed fields
    /// and version.
    pub open spec fn consistent(self) -> bool {
        forall|i: int|
            0 <= i < self.geometries.len() ==> (#[trigger] self.geometries[i]).consistent()
    }
}

/// The body of a `FrameList` chunk: a `Struct` chunk with the frame count,
/// then that many frames.
pub open spec fn spec_frame_list_body(c: CursorView) -> Result<Seq<Frame>, DecodeError> {
    match spec_expect_chunk(c, TAG_STRUCT) {
        Err(e) => Err(e),
        Ok(span) => if span.body.remaining() < 4 {
            Err(DecodeError::TruncatedData)
        } else {
            match spec_frames(span.rest, span.body.u32_at(0) as nat) {
                Err(e) => Err(e),
                Ok((frames, _)) => Ok(frames),
            }
        },
    }
}

/// The body of a `Clump` chunk.
pub open spec fn spec_clump_body(c: CursorView) -> Result<ClumpView, DecodeError> {
    match spec_expect_chunk(c, TAG_STRUCT) {
        Err(e) => Err(e),
        Ok(fields) => if fields.body.remaining() < 4 {
            Err(DecodeError::TruncatedData)
        } else {
            match spec_expect_chunk(fields.rest, TAG_FRAME_LIST) {
                Err(e) => Err(e),
                Ok(frame_list) => match spec_frame_list_body(frame_list.body) {
                    Err(e) => Err(e),
                    Ok(frames) => match spec_extensions(frame_list.rest, Seq::empty()) {
                        Err(e) => Err(e),
                        Ok((extensions, after)) => match spec_expect_chunk(
                            after,
                            TAG_GEOMETRY_LIST,
                        ) {
                            Err(e) => Err(e),
                            Ok(geometry_list) => match spec_geometry_list_body(geometry_list.body) {
                                Err(e) => Err(e),
                                Ok(geometries) => Ok(
                                    ClumpView {
                                        atomic_count: fields.body.u32_at(0),
                                        frames,
                                        extensions,
                                        geometries,
                                    },
                                ),
                            },
                        },
                    },
                },
            }
        },
    }
}

/// The model that the bytes of a `.dff` file stand for.
pub open spec fn spec_decode_model(buf: Seq<u8>) -> Result<ClumpView, DecodeError> {
    match spec_root(buf, TAG_CLUMP) {
        Err(e) => Err(e),
        Ok(body) => spec_clump_body(body),
    }
}

/// A buffer whose root chunk is not a `Clump` is not a model: the result is
/// `UnexpectedFormat`, never a clump.
pub proof fn lemma_model_root_must_be_clump(buf: Seq<u8>)
    requires
        buf.len() >= 12,
        le_u32(buf, 0) != TAG_CLUMP,
    ensures
        fails(spec_decode_model(buf), DecodeError::UnexpectedFormat),
{
}

/// A frame list holds as many frames as it declares.
pub proof fn lemma_frame_list_length(c: CursorView)
    ensures
        spec_frame_list_body(c) matches Ok(frames) ==> spec_expect_chunk(c, TAG_STRUCT) matches Ok(
            span,
        ) && frames.len() == span.body.u32_at(0),
{
}

/// A model that is decoded is consistent: whatever the buffer holds, each
/// of its geometries has the arrays that its flags and version call for, and
/// no other.
pub proof fn lemma_model_consistent(buf: Seq<u8>)
    ensures
        spec_decode_model(buf) matches Ok(clump) ==> clump.consistent(),
{
    match spec_root(buf, TAG_CLUMP) {
        Err(_) => {},
        Ok(body) => {
            lemma_clump_consistent(body);
        },
    }
}

/// A clump body that is decoded is consistent.
pub proof fn lemma_clump_consistent(c: CursorView)
    ensures
        spec_clump_body(c) matches Ok(clump) ==> clump.consistent(),
{
    if let Ok(clump) = spec_clump_body(c) {
        let fields = spec_expect_chunk(c, TAG_STRUCT)->Ok_0;
        let frame_list = spec_expect_chunk(fields.rest, TAG_FRAME_LIST)->Ok_0;
        let after = spec_extensions(frame_list.rest, Seq::empty())->Ok_0.1;
        let geometry_list = spec_expect_chunk(after, TAG_GEOMETRY_LIST)->Ok_0;
        lemma_geometry_list_consistent(geometry_list.body);
    }
}

/// Which frames are decoded depends on the bytes inside the window alone.
pub proof fn lemma_frame_list_local(a: CursorView, b: CursorView)
    requires
        a.agrees(b),
    ensures
        spec_frame_list_body(a) == spec_frame_list_body(b),
{
    lemma_expect_chunk_local(a, b, TAG_STRUCT);
    match (spec_expect_chunk(a, TAG_STRUCT), spec_expect_chunk(b, TAG_STRUCT)) {
        (Ok(x), Ok(y)) => {
            lemma_arrays_local(x.rest, y.rest, x.body.u32_at(0) as nat);
        },
        _ => {},
    }
}

/// Which clump is decoded depends on the bytes inside the window alone.
pub proof fn lemma_clump_local(a: CursorView, b: CursorView)
    requires
        a.agrees(b),
    ensures
        spec_clump_body(a) == spec_clump_body(b),
{
    lemma_expect_chunk_local(a, b, TAG_STRUCT);
    if let (Ok(x), Ok(y)) = (spec_expect_chunk(a, TAG_STRUCT), spec_expect_chunk(b, TAG_STRUCT)) {
        lemma_expect_chunk_local(x.rest, y.rest, TAG_FRAME_LIST);
        if let (Ok(x), Ok(y)) = (
            spec_expect_chunk(x.rest, TAG_FRAME_LIST),
            spec_expect_chunk(y.rest, TAG_FRAME_LIST),
        ) {
            lemma_frame_list_local(x.body, y.body);
            lemma_extensions_local(x.rest, y.rest, Seq::empty());
            if let (Ok((_, x)), Ok((_, y))) = (
                spec_extensions(x.rest, Seq::empty()),
                spec_extensions(y.rest, Seq::empty()),
            ) {
                lemma_expect_chunk_local(x, y, TAG_GEOMETRY_LIST);
                if let (Ok(x), Ok(y)) = (
                    spec_expect_chunk(x, TAG_GEOMETRY_LIST),
                    spec_expect_chunk(y, TAG_GEOMETRY_LIST),
                ) {
                    lemma_geometry_list_local(x.body, y.body);
                }
            }
        }
    }
}

/// What is decoded from a buffer depends on its root chunk alone: bytes
/// that follow the root chunk change nothing.
pub proof fn lemma_model_ignores_trailing_bytes(buf: Seq<u8>, more: Seq<u8>)
    requires
        (buf + more).len() <= usize::MAX,
        spec_root(buf, TAG_CLUMP) is Ok,
    ensures
        spec_decode_model(buf + more) == spec_decode_model(buf),
{
    lemma_root_local(buf, more, TAG_CLUMP);
    lemma_clump_local(
        spec_root(buf, TAG_CLUMP)->Ok_0,
        spec_root(buf + more, TAG_CLUMP)->Ok_0,
    );
}

/// Decodes the body of a `FrameList` chunk.
pub fn decode_frame_list_body(body: Cursor) -> (r: Result<Vec<Frame>, DecodeError>)
    ensures
        match r {
            Ok(frames) => gives(spec_frame_list_body(body@), frames@),
            Err(e) => fails(spec_frame_list_body(body@), e),
        },
{
    let mut rest = body;
    let (_, mut fields) = expect_chunk(&mut rest, TAG_STRUCT)?;
    let count: u32 = fields.read_u32()?;
    read_frames(&mut rest, count)
}

/// Decodes the body of a `Clump` chunk.
pub fn decode_clump_body(body: Cursor) -> (r: Result<Clump, DecodeError>)
    ensures
        match r {
            Ok(clump) => gives(spec_clump_body(body@), clump@),
            Err(e) => fails(spec_clump_body(body@), e),
        },
{
    let mut rest = body;
    let (_, mut fields) = expect_chunk(&mut rest, TAG_STRUCT)?;
    let atomic_count: u32 = fields.read_u32()?;
    let (_, frame_list) = expect_chunk(&mut rest, TAG_FRAME_LIST)?;
    let frames = decode_frame_list_body(frame_list)?;
    let extensions = read_extensions(&mut rest)?;
    let (_, geometry_list) = expect_chunk(&mut rest, TAG_GEOMETRY_LIST)?;
    let geometries = decode_geometry_list_body(geometry_list)?;
    Ok(Clump { atomic_count, frames, extensions, geometries })
}

/// Decodes the complete contents of a `.dff` file.
///
/// The root chunk must be a `Clump`, or the result is `UnexpectedFormat`. Any
/// failure further down is returned as it is; there is no partial result.
pub fn decode_model(buffer: &[u8]) -> (r: Result<Clump, DecodeError>)
    ensures
        match r {
            Ok(clump) => gives(spec_decode_model(buffer@), clump@),
            Err(e) => fails(spec_decode_model(buffer@), e),
        },
        buffer@.len() < 12 ==> r == Err::<Clump, _>(DecodeError::TruncatedData),
        buffer@.len() >= 12 && le_u32(buffer@, 0) != TAG_CLUMP ==> r == Err::<Clump, _>(
            DecodeError::UnexpectedFormat,
        ),
        r matches Ok(clump) ==> clump@.consistent(),
{
    proof {
        lemma_model_consistent(buffer@);
    }
    let body = open_root(buffer, TAG_CLUMP)?;
    decode_clump_body(body)
}

} // verus!
