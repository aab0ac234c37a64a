//! The error taxonomy of a digitizer session and of record decomposition.

use vstd::prelude::*;

use vstd::string::StringExecFns;

use crate::file::Channel;
use crate::text::{decimal, push_decimal, push_signed_decimal, signed_decimal};

verus! {

/// Our error type.
#[derive(Debug)]
pub enum Error {
    /// A bad argument has been passed to the digitizer session.
    BadArg(String),
    /// The end of the file has been reached.
    EndOfFile(String),
    /// The specified channel is invalid.
    InvalidChannel(u32),
    /// The channel is a valid channel, but we couldn't find it when we tried.
    MissingChannel(Channel),
    /// The file is missing an index.
    ///
    /// Some file-based operations, namely reads and seeks, require an index.
    MissingIndex(String),
    /// There is no calibration table for the given channel.
    NoCalibrationTableForChannel(Channel),
    /// The given function is unimplemented by the digitizer session.
    NotImplemented(String),
    /// A path or name held a zero byte; the text says where.
    Nul(String),
    /// A runtime error on the part of the digitizer session.
    Runtime(String),
    /// The point-cloud sink failed; the text is its report.
    Sdc(String),
    /// A record holds no reference block, or more than one; the number is how many it holds.
    NeedSingleReferenceBlock(usize),
    /// Either zero or more than one reference peak; the number is how many were found.
    NeedSingleReferencePeak(usize),
    /// A native string was not valid UTF-8; the text says where.
    Utf8(String),
    /// An unknown code has been provided to an error-mapping routine.
    UnknownCode(i32),
    /// An unknown exception has occurred inside the digitizer session.
    UnknownException(String),
    /// The given file is not in a supported format.
    UnsupportedFormat(String),
}

impl Error {
    /// Whether the digitizer session keeps a message for the return code `code`: it does for
    /// the codes that it defines itself, -1 and 1 to 6.
    pub open spec fn code_has_message(code: i32) -> bool {
        code == -1 || 1 <= code <= 6
    }

    /// The error that a non-zero return code of the digitizer session stands for, with the
    /// message that the session gave for it.
    pub open spec fn of_code(code: i32, message: String) -> Error {
        if code == -1 {
            Error::EndOfFile(message)
        } else if code == 1 {
            Error::BadArg(message)
        } else if code == 2 {
            Error::UnsupportedFormat(message)
        } else if code == 3 {
            Error::MissingIndex(message)
        } else if code == 4 {
            Error::UnknownException(message)
        } else if code == 5 {
            Error::NotImplemented(message)
        } else if code == 6 {
            Error::Runtime(message)
        } else {
            Error::UnknownCode(code)
        }
    }

    /// Whether a conversion goes on after this error: it does only where a record's reference
    /// block did not give exactly one peak, and that record is skipped.
    pub open spec fn skips_record(self) -> bool {
        self is NeedSingleReferencePeak
    }

    /// A short name of the kind of error.
    pub open spec fn spec_description(self) -> Seq<char> {
        match self {
            Error::BadArg(_) => "bad argument"@,
            Error::EndOfFile(_) => "end of file"@,
            Error::InvalidChannel(_) => "invalid channel"@,
            Error::MissingChannel(_) => "missing channel"@,
            Error::MissingIndex(_) => "missing index"@,
            Error::NeedSingleReferenceBlock(_) => "zero or more than one reference blocks"@,
            Error::NeedSingleReferencePeak(_) => "zero or more than one reference peaks"@,
            Error::NoCalibrationTableForChannel(_) => "no calibration table for channel"@,
            Error::NotImplemented(_) => "not implemented"@,
            Error::Nul(text) => text@,
            Error::Runtime(_) => "runtime error"@,
            Error::Sdc(text) => text@,
            Error::Utf8(text) => text@,
            Error::UnknownCode(_) => "unknown code"@,
            Error::UnknownException(_) => "unknown exception"@,
            Error::UnsupportedFormat(_) => "unsupported format"@,
        }
    }

    /// The words with which the message of this error begins.
    pub open spec fn heading(self) -> Seq<char> {
        match self {
            Error::BadArg(_) => "Bad argument: "@,
            Error::EndOfFile(_) => "End of file: "@,
            Error::InvalidChannel(_) => "Invalid channel: "@,
            Error::MissingChannel(_) => "Missing channel: "@,
            Error::MissingIndex(_) => "Missing index: "@,
            Error::NeedSingleReferenceBlock(_) => "Wanted one reference block, got "@,
            Error::NeedSingleReferencePeak(_) => "Wanted one reference peak, got "@,
            Error::NoCalibrationTableForChannel(_) => "No calibration table for channel: "@,
            Error::NotImplemented(_) => "Not implemented: "@,
            Error::Nul(_) => "Nul error: "@,
            Error::Runtime(_) => "Runtime error: "@,
            Error::Sdc(_) => "Sdc error: "@,
            Error::Utf8(_) => "Utf8 error: "@,
            Error::UnknownCode(_) => "Unknown code: "@,
            Error::UnknownException(_) => "Unknown exception: "@,
            Error::UnsupportedFormat(_) => "Unsupported format: "@,
        }
    }

    /// What the message of this error says after its heading: the text, the number in decimal
    /// notation or the name of the channel that the error carries.
    pub open spec fn detail(self) -> Seq<char> {
        match self {
            Error::BadArg(text) => text@,
            Error::EndOfFile(text) => text@,
            Error::InvalidChannel(n) => decimal(n as nat),
            Error::MissingChannel(channel) => channel.spec_name(),
            Error::MissingIndex(text) => text@,
            Error::NeedSingleReferenceBlock(n) => decimal(n as nat),
            Error::NeedSingleReferencePeak(n) => decimal(n as nat),
            Error::NoCalibrationTableForChannel(channel) => channel.spec_name(),
            Error::NotImplemented(text) => text@,
            Error::Nul(text) => text@,
            Error::Runtime(text) => text@,
            Error::Sdc(text) => text@,
            Error::Utf8(text) => text@,
            Error::UnknownCode(code) => signed_decimal(code as int),
            Error::UnknownException(text) => text@,
            Error::UnsupportedFormat(text) => text@,
        }
    }

    /// Says whether the digitizer session keeps a message for the return code `code`. Where it
    /// keeps none, `from_i32` does not look at the message that it is given.
    pub fn has_message(code: i32) -> (kept: bool)
        ensures
            kept == Error::code_has_message(code),
            !kept ==> forall|first: String, second: String|
                Error::of_code(code, first) == Error::of_code(code, second),
    {
        code == -1 || (1 <= code && code <= 6)
    }

    /// Converts a return code of the digitizer session to an `Error`; `message` is what the
    /// session reported as its last error.
    ///
    /// Zero is not an error, and no error is made from it.
    pub fn from_i32(code: i32, message: String) -> (error: Error)
        requires
            code != 0,
        ensures
            error == Error::of_code(code, message),
    {
        match code {
            -1 => Error::EndOfFile(message),
            1 => Error::BadArg(message),
            2 => Error::UnsupportedFormat(message),
            3 => Error::MissingIndex(message),
            4 => Error::UnknownException(message),
            5 => Error::NotImplemented(message),
            6 => Error::Runtime(message),
            _ => Error::UnknownCode(code),
        }
    }

    /// Says whether this error is the end of the file: the sign that a run over the records
    /// of a session is over, and no failure.
    pub fn is_end_of_file(&self) -> (end: bool)
        ensures
            end == (*self is EndOfFile),
    {
        match self {
            Error::EndOfFile(_) => true,
            _ => false,
        }
    }

    /// Says whether a conversion goes on after this error, skipping the record that gave it.
    pub fn is_skippable(&self) -> (skip: bool)
        ensures
            skip == self.skips_record(),
    {
        match self {
            Error::NeedSingleReferencePeak(_) => true,
            _ => false,
        }
    }

    /// Returns a short name of the kind of error. An error that carries the report of a
    /// failure elsewhere (a zero byte, invalid UTF-8, the sink) gives that report.
    pub fn description(&self) -> (text: &str)
        ensures
            text@ == self.spec_description(),
    {
        match self {
            Error::BadArg(_) => "bad argument",
            Error::EndOfFile(_) => "end of file",
            Error::InvalidChannel(_) => "invalid channel",
            Error::MissingChannel(_) => "missing channel",
            Error::MissingIndex(_) => "missing index",
            Error::NeedSingleReferenceBlock(_) => "zero or more than one reference blocks",
            Error::NeedSingleReferencePeak(_) => "zero or more than one reference peaks",
            Error::NoCalibrationTableForChannel(_) => "no calibration table for channel",
            Error::NotImplemented(_) => "not implemented",
            Error::Nul(text) => text.as_str(),
            Error::Runtime(_) => "runtime error",
            Error::Sdc(text) => text.as_str(),
            Error::Utf8(text) => text.as_str(),
            Error::UnknownCode(_) => "unknown code",
            Error::UnknownException(_) => "unknown exception",
            Error::UnsupportedFormat(_) => "unsupported format",
        }
    }

    /// Returns the message of this error for a reader: its heading, then what it carries.
    pub fn message(&self) -> (text: String)
        ensures
            text@ == self.heading() + self.detail(),
    {
        match self {
            Error::BadArg(detail) => String::from_str("Bad argument: ").concat(detail.as_str()),
            Error::EndOfFile(detail) => String::from_str("End of file: ").concat(detail.as_str()),
            Error::InvalidChannel(n) => {
                let mut text = String::from_str("Invalid channel: ");
                push_decimal(&mut text, *n as u64);
                text
            },
            Error::MissingChannel(channel) => String::from_str("Missing channel: ").concat(
                channel.name(),
            ),
            Error::MissingIndex(detail) => String::from_str("Missing index: ").concat(
                detail.as_str(),
            ),
            Error::NeedSingleReferenceBlock(n) => {
                let mut text = String::from_str("Wanted one reference block, got ");
                push_decimal(&mut text, *n as u64);
                text
            },
            Error::NeedSingleReferencePeak(n) => {
                let mut text = String::from_str("Wanted one reference peak, got ");
                push_decimal(&mut text, *n as u64);
                text
            },
            Error::NoCalibrationTableForChannel(channel) => String::from_str(
                "No calibration table for channel: ",
            ).concat(channel.name()),
            Error::NotImplemented(detail) => String::from_str("Not implemented: ").concat(
                detail.as_str(),
            ),
            Error::Nul(detail) => String::from_str("Nul error: ").concat(detail.as_str()),
            Error::Runtime(detail) => String::from_str("Runtime error: ").concat(detail.as_str()),
            Error::Sdc(detail) => String::from_str("Sdc error: ").concat(detail.as_str()),
            Error::Utf8(detail) => String::from_str("Utf8 error: ").concat(detail.as_str()),
            Error::UnknownCode(code) => {
                let mut text = String::from_str("Unknown code: ");
                push_signed_decimal(&mut text, *code);
                text
            },
            Error::UnknownException(detail) => String::from_str("Unknown exception: ").concat(
                detail.as_str(),
            ),
            Error::UnsupportedFormat(detail) => String::from_str("Unsupported format: ").concat(
                detail.as_str(),
            ),
        }
    }
}

} // verus!
