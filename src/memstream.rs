//! What opening a native memory stream decides from the native calls' results.
use vstd::prelude::*;

verus! {

/// Why a memory stream could not be set up.
#[derive(Debug, Clone, Copy, PartialEq, Eq, Structural)]
pub enum Error {
    /// A native call failed with this platform error code.
    LibC(i32),
    /// The stream reported success but left no buffer behind.
    MemStreamInvalid,
}

/// The outcome of opening a stream: the handle must be non-null, the first
/// flush must return 0, and the buffer must be set after it. `code` is the
/// platform's last error right after the call that failed.
pub fn open_outcome(handle_null: bool, flush_status: i32, buffer_null: bool, code: i32) -> (r: Result<(), Error>)
    ensures
        r == (if handle_null {
            Err(Error::LibC(code))
        } else if flush_status != 0 {
            Err(Error::LibC(code))
        } else if buffer_null {
            Err(Error::MemStreamInvalid)
        } else {
            Ok(())
        }),
{
    if handle_null {
        Err(Error::LibC(code))
    } else if flush_status != 0 {
        Err(Error::LibC(code))
    } else if buffer_null {
        Err(Error::MemStreamInvalid)
    } else {
        Ok(())
    }
}

/// The number of bytes that a read of the buffer may show: none when the
/// buffer is unset, else its recorded length.
pub fn visible_len(buffer_null: bool, len: usize) -> (r: usize)
    ensures
        r == (if buffer_null { 0 } else { len }),
{
    if buffer_null {
        0
    } else {
        len
    }
}

} // verus!
