//! The backend for operating systems without a keyboard-hook implementation:
//! every runtime command fails with the same message.

use vstd::prelude::*;
use crate::error::Error;
use crate::keys::KeyCode;
use crate::text::owned;

verus! {

pub open spec fn unsupported_message() -> Seq<char> {
    "hjkl currently supports macOS and Windows."@
}

pub fn unsupported_error() -> (e: Error)
    ensures
        e.spec_message() == unsupported_message(),
{
    Error::new(owned("hjkl currently supports macOS and Windows."))
}

pub fn run_event_loop(service_mode: bool) -> (r: Result<(), Error>)
    ensures
        r matches Err(e) && e.spec_message() == unsupported_message(),
{
    Err(unsupported_error())
}

pub fn start(layer_key: Option<KeyCode>) -> (r: Result<(), Error>)
    ensures
        r matches Err(e) && e.spec_message() == unsupported_message(),
{
    Err(unsupported_error())
}

pub fn stop() -> (r: Result<(), Error>)
    ensures
        r matches Err(e) && e.spec_message() == unsupported_message(),
{
    Err(unsupported_error())
}

pub fn restart(layer_key: Option<KeyCode>) -> (r: Result<(), Error>)
    ensures
        r matches Err(e) && e.spec_message() == unsupported_message(),
{
    Err(unsupported_error())
}

pub fn enable(layer_key: Option<KeyCode>) -> (r: Result<(), Error>)
    ensures
        r matches Err(e) && e.spec_message() == unsupported_message(),
{
    Err(unsupported_error())
}

pub fn disable() -> (r: Result<(), Error>)
    ensures
        r matches Err(e) && e.spec_message() == unsupported_message(),
{
    Err(unsupported_error())
}

pub fn status() -> (r: Result<(), Error>)
    ensures
        r matches Err(e) && e.spec_message() == unsupported_message(),
{
    Err(unsupported_error())
}

pub fn request_permissions() -> (r: Result<(), Error>)
    ensures
        r matches Err(e) && e.spec_message() == unsupported_message(),
{
    Err(unsupported_error())
}

} // verus!
