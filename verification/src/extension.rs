//! Extension chunks: what plugins attach to a frame.
//!
//! The body of an `Extension` chunk is a run of chunks. A `NodeName` chunk
//! gives the frame's name, its body taken byte for byte; a `HAnimPlugin`
//! chunk says that bone information is present. Any other chunk is passed
//! over by its size.

use crate::chunk::{
    lemma_read_chunk_bounds, lemma_read_chunk_local, read_chunk, spec_read_chunk, ChunkSpan,
    TAG_EXTENSION, TAG_HANIM_PLUGIN, TAG_NODE_NAME,
};
use crate::cursor::{Cursor, CursorView};
use crate::error::DecodeError;
use crate::outcome::{alike, fails, gives, views, Decoded};
use vstd::prelude::*;

verus! {

/// What the chunks of one `Extension` chunk say.
#[derive(Clone, Debug, PartialEq, Eq)]
pub struct Extension {
    /// The body of the last `NodeName` chunk, if there is one.
    pub node_name: Option<Vec<u8>>,
    /// Whether a `HAnimPlugin` chunk is present.
    pub has_bone_info: bool,
}

/// An extension, its name as a sequence of bytes.
pub struct ExtensionView {
    pub node_name: Option<Seq<u8>>,
    pub has_bone_info: bool,
}

impl View for Extension {
    type V = ExtensionView;

    open spec fn view(&self) -> ExtensionView {
        ExtensionView {
            node_name: match self.node_name {
                Some(name) => Some(name@),
                None => None,
            },
            has_bone_info: self.has_bone_info,
        }
    }
}

/// The extension that an empty body stands for.
pub open spec fn no_extension() -> ExtensionView {
    ExtensionView { node_name: None, has_bone_info: false }
}

/// `done`, with what the chunk `span` adds to it.
pub open spec fn with_entry(done: ExtensionView, span: ChunkSpan) -> ExtensionView {
    if span.header.tag == TAG_NODE_NAME {
        ExtensionView { node_name: Some(span.body.rest()), has_bone_info: done.has_bone_info }
    } else if span.header.tag == TAG_HANIM_PLUGIN {
        ExtensionView { node_name: done.node_name, has_bone_info: true }
    } else {
        done
    }
}

/// `done`, with what the chunks from `c` to its limit add to it.
pub open spec fn spec_extension_body(c: CursorView, done: ExtensionView) -> Result<
    ExtensionView,
    DecodeError,
>
    decreases c.remaining(),
{
    if c.remaining() <= 0 {
        Ok(done)
    } else {
        match spec_read_chunk(c) {
            Err(e) => Err(e),
            Ok(span) => spec_extension_body(span.rest, with_entry(done, span)),
        }
    }
}

/// `done`, followed by the run of `Extension` chunks that `c` starts with.
/// The run ends before the first chunk with another tag, which must be
/// there.
pub open spec fn spec_extensions(c: CursorView, done: Seq<ExtensionView>) -> Decoded<
    Seq<ExtensionView>,
>
    decreases c.remaining(),
{
    match spec_read_chunk(c) {
        Err(e) => Err(e),
        Ok(span) => if span.header.tag != TAG_EXTENSION {
            Ok((done, c))
        } else {
            match spec_extension_body(span.body, no_extension()) {
                Err(e) => Err(e),
                Ok(extension) => spec_extensions(span.rest, done.push(extension)),
            }
        },
    }
}

/// A run of extensions that is decoded ends inside the buffer, before the
/// chunk that ended it.
pub proof fn lemma_extensions_stay_in_bounds(c: CursorView, done: Seq<ExtensionView>)
    requires
        c.wf(),
    ensures
        spec_extensions(c, done) matches Ok((_, rest)) ==> {
            &&& rest.wf()
            &&& c.precedes(rest)
            &&& spec_read_chunk(rest) matches Ok(next) && next.header.tag != TAG_EXTENSION
        },
    decreases c.remaining(),
{
    lemma_read_chunk_bounds(c);
    match spec_read_chunk(c) {
        Err(_) => {},
        Ok(span) => {
            if span.header.tag == TAG_EXTENSION {
                match spec_extension_body(span.body, no_extension()) {
                    Err(_) => {},
                    Ok(extension) => {
                        lemma_extensions_stay_in_bounds(span.rest, done.push(extension));
                    },
                }
            }
        },
    }
}

/// Which extension is decoded depends on the bytes inside the window alone.
pub proof fn lemma_extension_body_local(a: CursorView, b: CursorView, done: ExtensionView)
    requires
        a.agrees(b),
    ensures
        spec_extension_body(a, done) == spec_extension_body(b, done),
    decreases a.remaining(),
{
    if a.remaining() > 0 {
        lemma_read_chunk_local(a, b);
        match (spec_read_chunk(a), spec_read_chunk(b)) {
            (Ok(x), Ok(y)) => {
                assert(x.body.rest() =~= y.body.rest());
                lemma_extension_body_local(x.rest, y.rest, with_entry(done, x));
            },
            _ => {},
        }
    }
}

/// Which extensions are decoded depends on the bytes inside the window
/// alone.
pub proof fn lemma_extensions_local(a: CursorView, b: CursorView, done: Seq<ExtensionView>)
    requires
        a.agrees(b),
    ensures
        alike(spec_extensions(a, done), spec_extensions(b, done)),
    decreases a.remaining(),
{
    lemma_read_chunk_local(a, b);
    match (spec_read_chunk(a), spec_read_chunk(b)) {
        (Ok(x), Ok(y)) => {
            if x.header.tag == TAG_EXTENSION {
                lemma_extension_body_local(x.body, y.body, no_extension());
                match spec_extension_body(x.body, no_extension()) {
                    Ok(extension) => {
                        lemma_extensions_local(x.rest, y.rest, done.push(extension));
                    },
                    Err(_) => {},
                }
            }
        },
        _ => {},
    }
}

/// Decodes the body of an `Extension` chunk.
pub fn decode_extension_body(body: Cursor) -> (r: Result<Extension, DecodeError>)
    ensures
        match r {
            Ok(extension) => gives(spec_extension_body(body@, no_extension()), extension@),
            Err(e) => fails(spec_extension_body(body@, no_extension()), e),
        },
{
    proof {
        use_type_invariant(&body);
    }
    let mut rest = body;
    let mut extension = Extension { node_name: None, has_bone_info: false };
    while rest.remaining() > 0
        invariant
            rest@.wf(),
            spec_extension_body(body@, no_extension()) == spec_extension_body(rest@, extension@),
        decreases rest@.remaining(),
    {
        let (header, mut entry) = read_chunk(&mut rest)?;
        if header.tag == TAG_NODE_NAME {
            let len: usize = entry.remaining();
            let name = entry.read_fixed_bytes(len)?;
            extension.node_name = Some(name);
        } else if header.tag == TAG_HANIM_PLUGIN {
            extension.has_bone_info = true;
        }
    }
    Ok(extension)
}

/// Decodes the run of `Extension` chunks at the cursor, and stops before the
/// first chunk with another tag.
pub fn read_extensions(cursor: &mut Cursor) -> (r: Result<Vec<Extension>, DecodeError>)
    ensures
        final(cursor)@.wf(),
        old(cursor)@.precedes(final(cursor)@),
        match r {
            Ok(extensions) => gives(
                spec_extensions(old(cursor)@, Seq::empty()),
                (views(extensions@), final(cursor)@),
            ),
            Err(e) => fails(
                spec_extensions(old(cursor)@, Seq::empty()),
                e,
            ) && final(cursor)@ == old(cursor)@,
        },
{
    let mut work = cursor.fork();
    let mut out: Vec<Extension> = Vec::new();
    assert(views(out@) =~= Seq::<ExtensionView>::empty());
    loop
        invariant
            work@.wf(),
            cursor@.wf(),
            cursor@ == old(cursor)@,
            cursor@.precedes(work@),
            spec_extensions(cursor@, Seq::empty()) == spec_extensions(work@, views(out@)),
        decreases work@.remaining(),
    {
        let mut ahead = work.fork();
        let (header, body) = read_chunk(&mut ahead)?;
        if header.tag != TAG_EXTENSION {
            *cursor = work;
            return Ok(out);
        }
        let ghost before = views(out@);
        let extension = decode_extension_body(body)?;
        out.push(extension);
        work = ahead;
        assert(views(out@) =~= before.push(extension@));
    }
}

} // verus!
