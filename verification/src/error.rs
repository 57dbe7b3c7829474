use vstd::prelude::*;

verus! {

/// The ways in which an operation of this library can fail.
#[derive(Clone, Copy, PartialEq, Eq, Structural, Debug)]
pub enum VoxelError {
    /// The text is not a well-formed document, or the document does not have the
    /// shape of a model.
    Parse,
    /// A coordinate lies outside the block, or a handle outside the palette.
    Range,
    /// A cell of a block holds this handle, and the palette has no colour for it.
    Reference(u8),
}

} // verus!
