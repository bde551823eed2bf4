//! Errors returned by the brightness control core.

use vstd::prelude::*;

use crate::text::{dec_digits, hex2_lower, push_decimal, push_hex2_lower};

verus! {

/// `std::io::Error` carried by the `Io` variant; Verus sees it as opaque.
#[verifier::external_type_specification]
#[verifier::external_body]
pub struct ExIoError(std::io::Error);

/// Errors returned by the brightness control core.
#[derive(Debug)]
pub enum Error {
    NotFound(String),
    Unsupported(&'static str),
    Protocol(String),
    Checksum,
    InvalidValue { code: u8, value: u16, max: u16 },
    PermissionDenied(String),
    Io(std::io::Error),
    Platform(String),
    Timeout,
}

pub type Result<T, E = Error> = std::result::Result<T, E>;

/// The failures that the frame decoders report, as mathematical values.
pub enum Fault {
    Protocol(Seq<char>),
    Checksum,
}

/// `e` is the error value that stands for the failure `f`.
pub open spec fn error_is(e: Error, f: Fault) -> bool {
    match f {
        Fault::Protocol(m) => e matches Error::Protocol(s) && s@ == m,
        Fault::Checksum => e is Checksum,
    }
}


/// The message of an error whose text this crate decides (all but `Io`).
pub open spec fn error_message(e: Error) -> Seq<char> {
    match e {
        Error::NotFound(s) => "display not found: "@ + s@,
        Error::Unsupported(s) => "operation not supported on this monitor or platform: "@ + s@,
        Error::Protocol(s) => "DDC/CI protocol error: "@ + s@,
        Error::Checksum => "DDC/CI checksum mismatch"@,
        Error::InvalidValue { code, value, max } => "invalid VCP value "@ + dec_digits(value as nat)
            + " for code 0x"@ + hex2_lower(code) + " (max "@ + dec_digits(max as nat) + ")"@,
        Error::PermissionDenied(s) => "permission denied: "@ + s@,
        Error::Io(_) => "I/O error: "@,
        Error::Platform(s) => "platform error: "@ + s@,
        Error::Timeout => "timeout waiting for monitor response"@,
    }
}

/// The operating system's description of an I/O error (`Display` of `std::io::Error`).
#[verifier::external_body]
fn io_error_text(e: &std::io::Error) -> String {
    e.to_string()
}

impl Error {
    /// The human-readable message of this error.
    pub fn to_string(&self) -> (s: String)
        ensures
            !(self is Io) ==> s@ == error_message(*self),
            self is Io ==> error_message(*self).is_prefix_of(s@),
    {
        match self {
            Error::NotFound(s) => {
                let mut m = "display not found: ".to_owned();
                m.append(s.as_str());
                m
            },
            Error::Unsupported(s) => {
                let mut m = "operation not supported on this monitor or platform: ".to_owned();
                m.append(s);
                m
            },
            Error::Protocol(s) => {
                let mut m = "DDC/CI protocol error: ".to_owned();
                m.append(s.as_str());
                m
            },
            Error::Checksum => "DDC/CI checksum mismatch".to_owned(),
            Error::InvalidValue { code, value, max } => {
                let mut m = "invalid VCP value ".to_owned();
                push_decimal(&mut m, *value as u64);
                m.append(" for code 0x");
                push_hex2_lower(&mut m, *code);
                m.append(" (max ");
                push_decimal(&mut m, *max as u64);
                m.append(")");
                m
            },
            Error::PermissionDenied(s) => {
                let mut m = "permission denied: ".to_owned();
                m.append(s.as_str());
                m
            },
            Error::Io(e) => {
                let mut m = "I/O error: ".to_owned();
                let t = io_error_text(e);
                m.append(t.as_str());
                assert("I/O error: "@.is_prefix_of(m@)) by {
                    assert(m@.subrange(0, "I/O error: "@.len() as int) =~= "I/O error: "@);
                }
                m
            },
            Error::Platform(s) => {
                let mut m = "platform error: ".to_owned();
                m.append(s.as_str());
                m
            },
            Error::Timeout => "timeout waiting for monitor response".to_owned(),
        }
    }
}

impl From<std::io::Error> for Error {
    fn from(e: std::io::Error) -> (r: Self) {
        Error::Io(e)
    }
}

impl vstd::std_specs::convert::FromSpecImpl<std::io::Error> for Error {
    open spec fn obeys_from_spec() -> bool {
        true
    }

    open spec fn from_spec(v: std::io::Error) -> Self {
        Error::Io(v)
    }
}

} // verus!
