use vstd::prelude::*;

verus! {

/// Every way a db721 file can be rejected while decoding.
///
/// Each stage of the pipeline reports the first violation it finds and the
/// decode session ends; no stage attempts partial recovery.
#[derive(Debug, Clone, Copy, PartialEq, Eq, Structural)]
pub enum FormatError {
    /// The file is shorter than the schema blob length declared in its
    /// trailing 4 bytes (plus the trailer itself).
    TruncatedTrailer,
    /// The schema blob is not valid UTF-8 text.
    InvalidUtf8,
    /// A required schema key is absent, or a field does not have the shape
    /// the format requires (this also covers a blob that is not a JSON
    /// object at all: the required keys are then absent).
    MissingField,
    /// A column declares a type outside `float`, `int` and `str`.
    UnknownColumnType,
    /// Column start offsets do not strictly increase, run past the raw
    /// region, or fail to partition it exactly.
    OffsetOutOfRange,
    /// A caller asked for a column name the schema does not declare.
    UnknownColumn,
}

} // verus!
