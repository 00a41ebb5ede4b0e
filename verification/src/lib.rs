//! Decoder for RenderWare chunk streams: `.dff` models and `.txd` texture
//! dictionaries.
//!
//! The crate takes the complete contents of a file as a byte buffer and
//! returns a typed tree, or a [`DecodeError`]. It performs no I/O, keeps no
//! state, and never panics: every count and every size that the buffer
//! declares is held against the bytes that are really there.
//!
//! # The format
//!
//! A file is a tree of chunks. A chunk is a 12-byte header of three
//! little-endian words (tag, body size, version) and a body of exactly
//! `body size` bytes. What a body holds depends on the tag, on the version and
//! on flags read earlier; a reader that does not know a chunk, or does not
//! expect it where it stands, passes over it by its size.
//!
//! # Layers
//!
//! - [`bytes`]: little-endian integers as a function of bytes.
//! - [`cursor`]: a bounds-checked reader with `position <= limit <= length`.
//! - [`chunk`]: headers, tags, and the walk over sibling chunks.
//! - [`records`]: the fixed-layout records of a model and arrays of them.
//! - [`extension`], [`material`], [`geometry`], [`clump`]: the sections of a
//!   model, leaves first.
//! - [`texture_dictionary`]: the sections of a texture dictionary.
//! - [`outcome`]: how the contracts state what a decoder returns.
//!
//! # Contracts
//!
//! Each executable decoder has a mathematical counterpart, a `spec_` function
//! from bytes to a result, and promises to return what that function
//! prescribes, failures included. Laws about those functions (that positions
//! stay in bounds, that flag-gated arrays follow their flags, that a scope
//! is passed over by its size, that nothing outside a window is looked at)
//! are proof functions beside them.
//!
//! Floats are carried as their bit patterns ([`cursor::Float32`]); turning
//! them into numbers is left to the caller.

pub mod bytes;
pub mod chunk;
pub mod clump;
pub mod cursor;
pub mod error;
pub mod extension;
pub mod geometry;
pub mod material;
pub mod outcome;
pub mod records;
pub mod texture_dictionary;

pub use clump::decode_model;
pub use error::DecodeError;
pub use texture_dictionary::decode_texture_dictionary;
