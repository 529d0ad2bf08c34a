//! What can go wrong, and what is only worth a warning.

use vstd::prelude::*;

verus! {

/// `std::io::Error`, carried opaquely inside the error values below.
#[verifier::external_type_specification]
#[verifier::external_body]
pub struct ExIoError(std::io::Error);

/// Conditions that are reported and then worked around.
#[derive(Debug)]
pub enum Warn {
    /// A list length was requested (first) beyond the entries saved (second);
    /// the listing is cut to what is there.
    InvalidLengthValue(usize, usize),
    /// The text shown could not be written to the list file.
    LineWriteFailed(String, std::io::Error),
    /// The error stream could not be flushed.
    CannotFlush(std::io::Error),
}

/// Conditions that end an operation before anything is changed.
#[derive(Debug)]
pub enum Error {
    /// The index (first) lies outside the list of the given length (second).
    InvalidPosValue(usize, usize),
    /// The path does not name an existing directory.
    PathIsNotDir(String),
    /// The path is already saved at the requested position.
    IdenticalPathPos(String),
    /// The list is full.
    PathLimitReached(),
    /// The list file does not exist.
    NoPathFile(),
    /// No path to save was given.
    NoPathArg(),
    /// No position was given to an operation that needs one.
    NoPosArg(),
    /// Whether the list file exists could not be told.
    CannotCheckFile(std::io::Error),
    /// The list file could not be opened for writing.
    CannotOpenFile(std::io::Error),
    /// The list file could not be read.
    CannotReadFile(std::io::Error),
    /// A reply could not be read; the text read so far is kept.
    CannotReadInput(String, std::io::Error),
}

} // verus!
