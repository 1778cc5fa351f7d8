use vstd::prelude::*;

verus! {

/// What can go wrong during a conversion run. The first error encountered
/// aborts the whole run; no partial output is ever produced.
#[derive(Clone, Copy, Debug, PartialEq, Eq, Structural)]
pub enum GlbError {
    /// The container header does not carry the fixed magic value.
    InvalidContainer,
    /// The declared total length exceeds the bytes actually supplied, or a
    /// chunk header or payload overruns them.
    TruncatedContainer,
    /// A chunk carries the wrong type tag for its position.
    UnexpectedChunkType,
    /// The JSON chunk is not UTF-8 JSON text, or the document lacks the
    /// fields this rewriter consumes, or a field has the wrong shape.
    MalformedDocument,
    /// An image names a buffer view that does not exist, or a buffer view
    /// reaches outside the binary payload.
    OutOfRangeReference,
    /// An image-bearing buffer view does not hold a raster encoding that the
    /// transcoder accepts.
    UndecodableAsset,
    /// The rebuilt container does not fit the 32-bit length fields of the
    /// container format.
    OversizedContainer,
}

} // verus!
