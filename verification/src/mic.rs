//! The permission to use the microphone, which macOS asks the user for.
use vstd::prelude::*;

verus! {

/// Whether the microphone may be used.
#[derive(Debug, Clone, Copy, PartialEq, Eq, Structural)]
pub enum MicStatus {
    Authorized,
    Denied,
    Undetermined,
    Restricted,
}

/// What the system says of the permission.
#[derive(Debug, Clone, Copy, PartialEq, Eq, Structural)]
pub enum Authorization {
    Authorized,
    Denied,
    Restricted,
    /// The user was not asked yet, or the answer has no name here.
    Other,
}

/// Whether the microphone may be used, given what the system says. A system that
/// does not ask the user says nothing, and the microphone may be used.
pub fn status(reported: Option<Authorization>) -> (r: MicStatus)
    ensures
        r == match reported {
            None => MicStatus::Authorized,
            Some(Authorization::Authorized) => MicStatus::Authorized,
            Some(Authorization::Denied) => MicStatus::Denied,
            Some(Authorization::Restricted) => MicStatus::Restricted,
            Some(Authorization::Other) => MicStatus::Undetermined,
        },
{
    match reported {
        None => MicStatus::Authorized,
        Some(Authorization::Authorized) => MicStatus::Authorized,
        Some(Authorization::Denied) => MicStatus::Denied,
        Some(Authorization::Restricted) => MicStatus::Restricted,
        Some(Authorization::Other) => MicStatus::Undetermined,
    }
}

/// Whether the user is asked for the permission: the system does ask, and knows
/// what audio is.
pub fn request(asks: bool, knows_audio: bool) -> (b: bool)
    ensures
        b == (asks && knows_audio),
{
    asks && knows_audio
}

}
