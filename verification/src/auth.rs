//! Why a request failed, and whether the session still stands.
use vstd::prelude::*;

verus! {

/// A failure, and the message that the client shows for it.
#[derive(Clone, Copy, Debug, PartialEq, Eq, Structural)]
pub enum Failure {
    /// The session token is no longer accepted.
    Expired,
    /// A bounded queue or response was full.
    Capacity,
    /// Discord could not be reached.
    Network,
    /// Discord's answer was not understood.
    Protocol,
    /// An account write was attempted while offline.
    Offline,
    /// Discord answered for the other settings section.
    WrongSection,
    /// Discord's notification settings could not be read.
    Unavailable,
    /// A settings write was not confirmed by the saved settings.
    Unconfirmed,
}

impl Failure {
    /// Whether the failure ends the session.
    pub open spec fn spec_ends_session(self) -> bool {
        self is Expired || self is Capacity
    }

    pub fn ends_session(self) -> (r: bool)
        ensures
            r == self.spec_ends_session(),
    {
        match self {
            Failure::Expired | Failure::Capacity => true,
            _ => false,
        }
    }

    pub open spec fn spec_label(self) -> &'static str {
        match self {
            Failure::Expired => "Your session expired. Log in again.",
            Failure::Capacity => "Discord sent more than the client keeps.",
            Failure::Network => "Discord could not be reached.",
            Failure::Protocol => "Discord's response was not understood.",
            Failure::Offline => "Connect to Discord to update notification settings",
            Failure::WrongSection => "Discord returned a different notification settings section",
            Failure::Unavailable => "Discord notification settings are unavailable or unsupported",
            Failure::Unconfirmed => "Notification settings were not confirmed; reload before retrying",
        }
    }

    /// The message that the client shows.
    pub fn label(self) -> (r: &'static str)
        ensures
            r == self.spec_label(),
    {
        match self {
            Failure::Expired => "Your session expired. Log in again.",
            Failure::Capacity => "Discord sent more than the client keeps.",
            Failure::Network => "Discord could not be reached.",
            Failure::Protocol => "Discord's response was not understood.",
            Failure::Offline => "Connect to Discord to update notification settings",
            Failure::WrongSection => "Discord returned a different notification settings section",
            Failure::Unavailable => "Discord notification settings are unavailable or unsupported",
            Failure::Unconfirmed => "Notification settings were not confirmed; reload before retrying",
        }
    }
}

/// Where the session stands.
#[derive(Clone, Copy, Debug, PartialEq, Eq, Structural)]
pub enum AuthState {
    LoggedOut,
    Authenticating,
    Authenticated,
    Failed(Failure),
}

} // verus!
