//! Safe, typed access to the allocator's own statistics report.
//!
//! Getting the report takes three native calls: open a memory stream, let
//! the allocator write its report into it, and flush it. This library holds
//! the decisions between those calls, as a small state machine, and decodes
//! the report once it is in memory.
use vstd::prelude::*;
use crate::decode::ParseError;
use crate::info::Malloc;
use crate::xml::{parse_report, report_of};

pub mod decode;
pub mod info;
pub mod laws;
pub mod markup;
pub mod memstream;
pub mod xml;

verus! {

/// What went wrong while getting the report.
#[derive(Debug, Clone, Copy, PartialEq, Eq, Structural)]
pub enum ErrorRepr {
    /// A native call failed with this platform error code.
    LibC(i32),
    /// The memory stream could not be set up.
    Memstream(memstream::Error),
    /// The report could not be decoded.
    Xml(ParseError),
}

/// Error of the whole operation.
#[derive(Debug, Clone, Copy, PartialEq, Eq, Structural)]
pub struct Error(pub ErrorRepr);

/// Where the operation stands.
#[derive(Debug, Clone, Copy, PartialEq, Eq, Structural)]
pub enum Stage {
    /// The memory stream is being opened.
    Opening,
    /// The allocator is writing its report into the stream.
    Writing,
    /// The stream is being flushed.
    Flushing,
    /// The report is being decoded.
    Decoding,
}

/// What the caller reports back after doing what the stage asks.
pub enum Signal {
    /// The outcome of opening the stream.
    Opened(Result<(), memstream::Error>),
    /// A native call returned `status`; `code` is the platform's last error
    /// right after it.
    Returned { status: i32, code: i32 },
    /// The bytes that the stream holds.
    Report(Vec<u8>),
}

/// What comes next.
pub enum Next {
    /// Go on with this stage.
    Continue(Stage),
    /// The operation is over.
    Finished(Result<Malloc, Error>),
}

/// The signal that answers each stage.
pub open spec fn answers(stage: Stage, signal: Signal) -> bool {
    match stage {
        Stage::Opening => signal is Opened,
        Stage::Writing | Stage::Flushing => signal is Returned,
        Stage::Decoding => signal is Report,
    }
}

/// One transition: a failure ends the operation with its error, success
/// moves on to the next stage, and the report's bytes end it with what they
/// decode to.
pub fn advance(stage: Stage, signal: Signal) -> (r: Next)
    requires
        answers(stage, signal),
    ensures
        match signal {
            Signal::Opened(Ok(())) => r == Next::Continue(Stage::Writing),
            Signal::Opened(Err(e)) => r == Next::Finished(Err(Error(ErrorRepr::Memstream(e)))),
            Signal::Returned { status, code } => if status != 0 {
                r == Next::Finished(Err(Error(ErrorRepr::LibC(code))))
            } else if stage == Stage::Writing {
                r == Next::Continue(Stage::Flushing)
            } else {
                r == Next::Continue(Stage::Decoding)
            },
            Signal::Report(bytes) => match report_of(bytes@) {
                Ok(v) => r matches Next::Finished(Ok(m)) && m@ == v,
                Err(x) => r == Next::Finished(Err(Error(ErrorRepr::Xml(x)))),
            },
        },
{
    match signal {
        Signal::Opened(Ok(())) => Next::Continue(Stage::Writing),
        Signal::Opened(Err(e)) => Next::Finished(Err(Error(ErrorRepr::Memstream(e)))),
        Signal::Returned { status, code } => {
            if status != 0 {
                Next::Finished(Err(Error(ErrorRepr::LibC(code))))
            } else if stage == Stage::Writing {
                Next::Continue(Stage::Flushing)
            } else {
                Next::Continue(Stage::Decoding)
            }
        },
        Signal::Report(bytes) => match parse_report(bytes.as_slice()) {
            Ok(m) => Next::Finished(Ok(m)),
            Err(x) => Next::Finished(Err(Error(ErrorRepr::Xml(x)))),
        },
    }
}

} // verus!
