//! Why an option was refused.

use vstd::prelude::*;

verus! {

/// Why an option was refused.
#[derive(Clone, Debug, PartialEq, Eq)]
pub enum ConfigError {
    /// The parameter (first) is malformed or not one the option (second) has.
    InvalidParam(String, String),
    /// The option (first) was given the field (second) twice.
    FieldRepeat(String, String),
    /// The value (second) of the field (first) is not of the field's type.
    ConvertValueFailed(String, String),
    /// The option (second) lacks the field (first).
    FieldIsMissing(String, String),
    /// The text of the field is longer than the limit, in bytes.
    StringLengthTooLong(String, usize),
    /// The value of the field is outside the range from the lower bound to
    /// the upper; the flag behind a bound says whether the bound itself is
    /// in the range.
    IllegalValue(String, u64, bool, u64, bool),
    /// The value of the option does not fit 64 bits.
    IntegerOverflow(String),
    /// The accelerator is none of `kvm`, `kvm:tcg` and `tcg`.
    UnsupportedAccel,
    /// The `usb` field is switched on.
    UsbEnabled,
    /// The machine type is not one this build knows.
    UnrecognizedMachineType,
    /// The number of sockets is not the number of processors.
    SocketsMismatch,
    /// The number of cores per socket is not one.
    CoresUnsupported,
    /// The number of threads per core is not one.
    ThreadsUnsupported,
    /// The memory size, in bytes, is outside what a machine can have.
    MemSizeOutOfRange(u64),
}

/// An error with its texts taken as character sequences.
pub enum ErrorModel {
    InvalidParam(Seq<char>, Seq<char>),
    FieldRepeat(Seq<char>, Seq<char>),
    ConvertValueFailed(Seq<char>, Seq<char>),
    FieldIsMissing(Seq<char>, Seq<char>),
    StringLengthTooLong(Seq<char>, usize),
    IllegalValue(Seq<char>, u64, bool, u64, bool),
    IntegerOverflow(Seq<char>),
    UnsupportedAccel,
    UsbEnabled,
    UnrecognizedMachineType,
    SocketsMismatch,
    CoresUnsupported,
    ThreadsUnsupported,
    MemSizeOutOfRange(u64),
}

impl View for ConfigError {
    type V = ErrorModel;

    open spec fn view(&self) -> ErrorModel {
        match *self {
            ConfigError::InvalidParam(a, b) => ErrorModel::InvalidParam(a@, b@),
            ConfigError::FieldRepeat(a, b) => ErrorModel::FieldRepeat(a@, b@),
            ConfigError::ConvertValueFailed(a, b) => ErrorModel::ConvertValueFailed(a@, b@),
            ConfigError::FieldIsMissing(a, b) => ErrorModel::FieldIsMissing(a@, b@),
            ConfigError::StringLengthTooLong(a, n) => ErrorModel::StringLengthTooLong(a@, n),
            ConfigError::IllegalValue(a, lo, lo_in, hi, hi_in) => ErrorModel::IllegalValue(
                a@,
                lo,
                lo_in,
                hi,
                hi_in,
            ),
            ConfigError::IntegerOverflow(a) => ErrorModel::IntegerOverflow(a@),
            ConfigError::UnsupportedAccel => ErrorModel::UnsupportedAccel,
            ConfigError::UsbEnabled => ErrorModel::UsbEnabled,
            ConfigError::UnrecognizedMachineType => ErrorModel::UnrecognizedMachineType,
            ConfigError::SocketsMismatch => ErrorModel::SocketsMismatch,
            ConfigError::CoresUnsupported => ErrorModel::CoresUnsupported,
            ConfigError::ThreadsUnsupported => ErrorModel::ThreadsUnsupported,
            ConfigError::MemSizeOutOfRange(n) => ErrorModel::MemSizeOutOfRange(n),
        }
    }
}

} // verus!
