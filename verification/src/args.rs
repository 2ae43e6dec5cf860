//! Validated configuration for the four commands the library supports.
//!
//! The calling layer turns raw command-line input into one of these values;
//! the library itself never touches the process arguments or the filesystem.

use vstd::prelude::*;

verus! {

/// One fully-specified command invocation.
pub enum PngSecArgs {
    Encode(EncodeArgs),
    Decode(DecodeArgs),
    Remove(RemoveArgs),
    Print(PrintArgs),
}

/// Hide a message: append a chunk of `chunk_type` carrying `message` to the
/// file at `file_path` and write the result to `output_file`.
pub struct EncodeArgs {
    pub file_path: String,
    pub chunk_type: String,
    pub message: String,
    pub output_file: String,
}

/// Retrieve a message: print the payload of the first chunk of `chunk_type`.
pub struct DecodeArgs {
    pub file_path: String,
    pub chunk_type: String,
}

/// Remove the first chunk of `chunk_type` and write the file back in place.
pub struct RemoveArgs {
    pub file_path: String,
    pub chunk_type: String,
}

/// List every chunk of the file.
pub struct PrintArgs {
    pub file_path: String,
}

} // verus!
