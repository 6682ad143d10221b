//! What is logged of the requests to a worker.

use vstd::prelude::*;

verus! {

/// How grave an event is.
#[derive(Debug, Clone, Copy, PartialEq, Eq, Structural)]
pub enum Level {
    Error,
    Info,
}

/// How grave the end of a request is: an answer whose status is one of a client
/// or of a server error is an error.
pub fn on_response(status: u16) -> (level: Level)
    ensures
        level == if 400 <= status < 600 {
            Level::Error
        } else {
            Level::Info
        },
{
    let status_code_class: u16 = status / 100;
    match status_code_class {
        4 => Level::Error,
        5 => Level::Error,
        _ => Level::Info,
    }
}

/// The end of a request is an error exactly when its status is one of the four or
/// five hundreds.
pub proof fn law_errors_are_logged_as_such(status: u16, level: Level)
    requires
        call_ensures(on_response, (status,), level),
    ensures
        level == Level::Error <==> status / 100 == 4 || status / 100 == 5,
        level == Level::Info <==> status / 100 != 4 && status / 100 != 5,
{
}

} // verus!
