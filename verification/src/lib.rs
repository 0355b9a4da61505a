//! Tools for interacting with LabVIEW and associated file formats.
//!
//! The crate decodes LabVIEW measurement (LVM) text files into typed records.
//! Every function of the decoder carries a contract over a mathematical model
//! of the input lines, and the contracts are proved by Verus.

/// Errors of the decoder and their line context.
pub mod errors;
/// What holds of every decoding.
pub mod laws;
/// Data structures of LVM files and the decoding of single values.
pub mod lvm;
/// The decoder: cursor, tokens, lists, rows and whole files.
pub mod lvm_format;
/// The fields of the two headers and how a block of them is decoded.
pub mod schema;
/// Small helpers on text.
pub mod text;

pub use errors::{Error, ErrorKind, ErrorKindView, ErrorView};
pub use lvm::{
    ChannelName, DataRow, Date, DecimalSeparator, File, FileHeader, InstrumentName, Measurement,
    MeasurementHeader, ModelNumber, OperatorName, ProjectName, Real, Separator, SerialNumber,
    TestName, TestNumber, TestNumbers, TestSeries, Time, TimePref, Unit, UnitType, Version,
    XColumns,
};
pub use lvm_format::from_reader;
