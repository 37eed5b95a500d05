use vstd::prelude::*;

verus! {

/// Everything that can go wrong in the viewer. Every failure is fatal at
/// the point of occurrence: the host aborts with a message naming the
/// failing operation.
#[derive(Clone, Copy, Debug, PartialEq, Eq, Structural)]
pub enum ViewerError {
    /// The starting path is missing or has no parent directory.
    InvalidInput,
    /// The parent directory could not be listed.
    DirectoryUnreadable,
    /// A directory entry's modification time could not be read.
    MetadataUnavailable,
    /// The image bytes could not be decoded (unsupported or corrupt data).
    Decode,
    /// The image format could not be guessed from the bytes.
    FormatGuess,
    /// An image reported a zero width or height.
    InvalidImageDimensions,
    /// A jump target was outside the image set.
    IndexOutOfRange,
}

impl ViewerError {
    /// A short description, for the host's abort message.
    pub fn message(&self) -> (m: &'static str)
        ensures
            *self is InvalidInput ==> m@ == "invalid input path"@,
            *self is DirectoryUnreadable ==> m@ == "problem reading directory"@,
            *self is MetadataUnavailable ==> m@ == "error reading file metadata"@,
            *self is Decode ==> m@ == "could not decode image"@,
            *self is FormatGuess ==> m@ == "could not guess image format"@,
            *self is InvalidImageDimensions ==> m@ == "image has a zero dimension"@,
            *self is IndexOutOfRange ==> m@ == "image index out of range"@,
    {
        match self {
            ViewerError::InvalidInput => "invalid input path",
            ViewerError::DirectoryUnreadable => "problem reading directory",
            ViewerError::MetadataUnavailable => "error reading file metadata",
            ViewerError::Decode => "could not decode image",
            ViewerError::FormatGuess => "could not guess image format",
            ViewerError::InvalidImageDimensions => "image has a zero dimension",
            ViewerError::IndexOutOfRange => "image index out of range",
        }
    }
}

} // verus!
