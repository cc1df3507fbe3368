//! The error kinds a pipeline run can report.

use vstd::prelude::*;

verus! {

/// The failures a run of the pipeline can report.  Every error is fatal to
/// the run: the caller reports it and terminates without writing output.
#[derive(Clone, Copy, Debug, PartialEq, Eq, Structural)]
pub enum ExtractError {
    /// A file could not be opened, read, or written.  Raised only by the
    /// unverified I/O layer around the library.
    IoError,
    /// A raw PCM byte stream has an odd length: it ends with an incomplete
    /// sample, which is rejected rather than silently dropped.
    FormatError,
    /// The reference signal has zero self-energy, so the least-squares gain
    /// ratio is undefined.
    DegenerateSignal,
    /// Two signals handed to an operation that needs equal lengths have
    /// different lengths.
    LengthMismatch,
}

} // verus!
