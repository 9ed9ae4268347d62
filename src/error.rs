//! Errors that abort a conversion job before any item starts.
use vstd::prelude::*;

verus! {

/// A request refused before any work was done.
#[derive(Debug, Clone, PartialEq, Eq)]
pub enum ValidationError {
    /// A batch with no input files.
    EmptyBatch,
    /// A target format other than jpeg, jpg, png or webp; holds the lowercased name.
    UnsupportedFormat(String),
    /// An empty video path for GIF creation.
    NoVideoSelected,
}

impl ValidationError {
    /// The human-readable message of the error.
    pub fn message(&self) -> (r: String)
        ensures
            r@ == match self {
                ValidationError::EmptyBatch => "No input files provided"@,
                ValidationError::UnsupportedFormat(f) => "Unsupported format: "@ + f@,
                ValidationError::NoVideoSelected => "No video selected for GIF creation"@,
            },
    {
        match self {
            ValidationError::EmptyBatch => String::from_str("No input files provided"),
            ValidationError::UnsupportedFormat(f) => {
                let mut m = String::from_str("Unsupported format: ");
                m.append(f.as_str());
                m
            },
            ValidationError::NoVideoSelected => String::from_str("No video selected for GIF creation"),
        }
    }
}

} // verus!
