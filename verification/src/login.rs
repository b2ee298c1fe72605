//! Launch at login: the states the menu shows and how the system's login-item
//! status maps onto them.

use vstd::prelude::*;

verus! {

#[derive(Debug, Clone, Copy, PartialEq, Eq, Structural)]
pub enum LoginItemState {
    Enabled,
    Disabled,
    /// Registered, but the user has not yet approved it in System Settings.
    RequiresApproval,
    /// No bundle to register, e.g. when running unbundled.
    Unavailable,
}

/// The login-item status the system reports for the app.
#[derive(Debug, Clone, Copy, PartialEq, Eq, Structural)]
pub enum ServiceStatus {
    NotRegistered,
    Enabled,
    RequiresApproval,
    NotFound,
    /// A status this library does not know.
    Other,
}

impl LoginItemState {
    /// Whether the menu item should show a checkmark: only when enabled, so
    /// that it never contradicts System Settings.
    pub fn is_enabled(self) -> (b: bool)
        ensures
            b == (self == LoginItemState::Enabled),
    {
        match self {
            LoginItemState::Enabled => true,
            _ => false,
        }
    }

    /// The menu item's title, which explains the two ambiguous states.
    pub open spec fn title_spec(self) -> Seq<char> {
        match self {
            LoginItemState::RequiresApproval => "Launch at Login (approve in Settings)"@,
            LoginItemState::Unavailable => "Launch at Login (install to /Applications)"@,
            _ => "Launch at Login"@,
        }
    }

    pub fn menu_title(self) -> (t: &'static str)
        ensures
            t@ == self.title_spec(),
    {
        match self {
            LoginItemState::RequiresApproval => "Launch at Login (approve in Settings)",
            LoginItemState::Unavailable => "Launch at Login (install to /Applications)",
            _ => "Launch at Login",
        }
    }

    /// The state shown for a system status: a missing bundle is unavailable,
    /// and anything not enabled or awaiting approval counts as disabled.
    pub fn from_status(status: ServiceStatus) -> (s: LoginItemState)
        ensures
            s == (match status {
                ServiceStatus::Enabled => LoginItemState::Enabled,
                ServiceStatus::RequiresApproval => LoginItemState::RequiresApproval,
                ServiceStatus::NotFound => LoginItemState::Unavailable,
                _ => LoginItemState::Disabled,
            }),
    {
        match status {
            ServiceStatus::Enabled => LoginItemState::Enabled,
            ServiceStatus::RequiresApproval => LoginItemState::RequiresApproval,
            ServiceStatus::NotFound => LoginItemState::Unavailable,
            _ => LoginItemState::Disabled,
        }
    }
}

} // verus!
