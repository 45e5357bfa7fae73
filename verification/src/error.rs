//! The engine's error type. Outside failures (I/O, image codecs) are carried
//! as their messages.

use vstd::prelude::*;

use crate::text::{dec_int, push_dec_i64, string_of};

verus! {

#[derive(Debug)]
pub enum Error {
    Unsupported(String, String),
    EngineMissing(String, String),
    InputMissing(String),
    Io(String),
    Image(String),
    ProcessFailed { engine: String, code: i32, stderr: String },
    Cancelled,
    Other(String),
}

pub type Result<T> = core::result::Result<T, Error>;

impl Error {
    /// The text a user sees for an error.
    pub open spec fn text(&self) -> Seq<char> {
        match self {
            Error::Unsupported(a, b) => "unsupported conversion: "@ + a@ + " -> "@ + b@,
            Error::EngineMissing(a, b) => "engine binary not found: "@ + a@ + " (looked under "@ + b@
                + ")"@,
            Error::InputMissing(a) => "input file not found: "@ + a@,
            Error::Io(a) => "io: "@ + a@,
            Error::Image(a) => "image: "@ + a@,
            Error::ProcessFailed { engine, code, stderr } => engine@ + " exited with code "@
                + dec_int(*code as int) + ": "@ + stderr@,
            Error::Cancelled => "job cancelled"@,
            Error::Other(a) => a@,
        }
    }

    /// The text a user sees for an error.
    pub fn message(&self) -> (r: String)
        ensures
            r@ == self.text(),
    {
        match self {
            Error::Unsupported(a, b) => {
                let mut s = string_of("unsupported conversion: ");
                s.append(a.as_str());
                s.append(" -> ");
                s.append(b.as_str());
                s
            },
            Error::EngineMissing(a, b) => {
                let mut s = string_of("engine binary not found: ");
                s.append(a.as_str());
                s.append(" (looked under ");
                s.append(b.as_str());
                s.append(")");
                s
            },
            Error::InputMissing(a) => {
                let mut s = string_of("input file not found: ");
                s.append(a.as_str());
                s
            },
            Error::Io(a) => {
                let mut s = string_of("io: ");
                s.append(a.as_str());
                s
            },
            Error::Image(a) => {
                let mut s = string_of("image: ");
                s.append(a.as_str());
                s
            },
            Error::ProcessFailed { engine, code, stderr } => {
                let mut s = string_of(engine.as_str());
                s.append(" exited with code ");
                push_dec_i64(&mut s, *code as i64);
                s.append(": ");
                s.append(stderr.as_str());
                s
            },
            Error::Cancelled => string_of("job cancelled"),
            Error::Other(a) => string_of(a.as_str()),
        }
    }
}

} // verus!
