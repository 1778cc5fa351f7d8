//! A verified rewriter for binary glTF (GLB) containers that replaces the
//! embedded textures with GPU-native block-compressed ones.
//!
//! The container framing, the association of buffer views with images, the
//! rebuild of the binary payload and the recomputation of every byte offset
//! are verified. The JSON tree lives behind trusted wrappers whose results
//! are pinned by uninterpreted names, so extraction, patching and
//! serialization carry exact contracts; the raster decoder's wrapper states
//! only what holds of every outcome, since its crate consults global hooks.
//! The block compressor itself runs outside the library, between
//! `convert::prepare_conversion` and `convert::finish_conversion`, and the
//! rebuild is verified for every value of its output.

pub mod byteseq;
pub mod container;
pub mod convert;
pub mod document;
pub mod errors;
pub mod rebuild;
pub mod transcode;
