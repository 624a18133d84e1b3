//! Rich-presence data: what the host reports to a presence service about
//! the current session.  Connecting to the service and sending updates is
//! I/O and stays with the host; this module owns the plain values.
use vstd::prelude::*;

verus! {

/// Static presence configuration.
pub struct DiscordConfig {
    /// Application identifier registered with the presence service.
    pub app_id: u64,
    /// Whether the elapsed session time is shown.
    pub show_time: bool,
}

/// The presence integration, carrying its configuration.
pub struct DiscordPlugin {
    pub config: DiscordConfig,
}

impl DiscordPlugin {
    /// Assembles the presence integration from an application id and the
    /// elapsed-time switch.
    pub fn new(app_id: u64, show_time: bool) -> (r: Self)
        ensures
            r.config.app_id == app_id,
            r.config.show_time == show_time,
    {
        DiscordPlugin { config: DiscordConfig { app_id, show_time } }
    }
}

/// The activity currently reported: an optional state line, an optional
/// detail line, and the second (since the epoch) the session started at.
pub struct ActivityState {
    pub state: Option<String>,
    pub details: Option<String>,
    pub start_seconds: Option<i64>,
}

impl ActivityState {
    /// The activity shown while the player sits in the main menu, started
    /// at the given epoch second (the host supplies the current time).
    pub fn menu_at(now_seconds: i64) -> (r: Self)
        ensures
            r.state is None,
            r.details matches Some(d) && d@ == "In Main Menu"@,
            r.start_seconds == Some(now_seconds),
    {
        ActivityState {
            state: None,
            details: Some("In Main Menu".to_owned()),
            start_seconds: Some(now_seconds),
        }
    }

    /// The same activity with the detail line replaced, as reported when a
    /// session enters play.
    pub fn with_details(self, details: String) -> (r: Self)
        ensures
            r.state == self.state,
            r.details matches Some(d) && d == details,
            r.start_seconds == self.start_seconds,
    {
        ActivityState { state: self.state, details: Some(details), start_seconds: self.start_seconds }
    }
}

} // verus!
