use vstd::prelude::*;

verus! {

/// Errors surfaced by a service stream.
#[derive(Clone, Copy, Debug, PartialEq, Eq, Structural)]
pub enum Error {
    /// The starter closure failed with this native error code; the operation never began.
    StartFailure(i32),
    /// A callback delivered this non-zero native error code.
    NativeCallback(i32),
    /// The decoder closure could not interpret a callback payload.
    Decode,
    /// Registering or driving the readiness descriptor failed; the stream is terminated.
    Reactor,
}

/// Maps a native error code to a result: zero is success, anything else is a
/// callback error that keeps the code.
pub fn from_code(code: i32) -> (r: Result<(), Error>)
    ensures
        code == 0 ==> r == Ok::<(), Error>(()),
        code != 0 ==> r == Err::<(), Error>(Error::NativeCallback(code)),
{
    if code == 0 {
        Ok(())
    } else {
        Err(Error::NativeCallback(code))
    }
}

} // verus!
