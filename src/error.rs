use vstd::prelude::*;

verus! {

/// Every condition that the disk-image reader reports to its caller.
#[derive(Debug, Clone, Copy, PartialEq, Eq, Structural)]
pub enum DiskError {
    /// The image length is not a whole number of tracks.
    MalformedImage,
    /// The image is too short to hold the directory blocks.
    TruncatedDirectory,
    /// The directory holds a count or a block range that cannot be right.
    CorruptDirectory,
    /// A length-prefixed string claims more characters than its field holds.
    MalformedString,
    /// An indent marker in a text file has no usable count byte.
    MalformedText,
    /// No valid directory entry carries the requested name.
    NotFound,
    /// A diagnostic block range is reversed or reaches past the image.
    InvalidRange,
    /// The operation is not implemented by this reader.
    NotSupported,
}

} // verus!
