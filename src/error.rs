//! The failures that the library reports.
use vstd::prelude::*;

verus! {

/// What can go wrong between the bot, the device cloud and the chat.
#[derive(Debug, PartialEq, Eq, Structural)]
pub enum Error {
    /// The login exchange failed; the bot cannot run.
    InvalidCredentials,
    /// The RTMP statistics page could not be read.
    RtmpDown,
    /// The account lists no inventory.
    NoInventoriesFound,
    /// The unit's interfaces could not be read.
    NoUnitsFound,
    /// A status of the unit, or a stream request, was refused.
    StatusNotAvailable,
    /// The sender may not use the command.
    NotEnoughPermissions,
}

impl Error {
    /// The human-readable description of the failure.
    pub fn message(&self) -> (r: String)
        ensures
            r@ == error_message(*self),
    {
        match self {
            Error::InvalidCredentials => String::from_str("Invalid credentials can't login"),
            Error::RtmpDown => String::from_str("Rtmp is offline: Can't connect to RTMP stats"),
            Error::NoInventoriesFound => String::from_str("No inventories found"),
            Error::NoUnitsFound => String::from_str("No units found"),
            Error::StatusNotAvailable => String::from_str("Status not available"),
            Error::NotEnoughPermissions => String::from_str("Not enough permissions to use command"),
        }
    }
}

/// The description of each failure.
pub open spec fn error_message(e: Error) -> Seq<char> {
    match e {
        Error::InvalidCredentials => "Invalid credentials can't login"@,
        Error::RtmpDown => "Rtmp is offline: Can't connect to RTMP stats"@,
        Error::NoInventoriesFound => "No inventories found"@,
        Error::NoUnitsFound => "No units found"@,
        Error::StatusNotAvailable => "Status not available"@,
        Error::NotEnoughPermissions => "Not enough permissions to use command"@,
    }
}

} // verus!
