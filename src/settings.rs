//! The settings that the agent reads: the idle timeout, the user's identity and
//! where the local database lives.

use vstd::prelude::*;

verus! {

pub struct Settings {
    pub auto_sync_interval_seconds: u64,
    pub active_timeout_seconds: u64,
    pub local_database_path: String,
    pub uid: String,
    pub open_ui_at_start_up: bool,
    /// Whether opening a session also counts as input from the user.
    pub start_session_counts_as_activity: bool,
}

/// Relies on uuid's `Uuid::new_v4` and its `Display` form (the hyphenated
/// encoding): a fresh random identifier written as 36 characters, 32 lowercase
/// hex digits in groups of 8, 4, 4, 4 and 12 joined by '-'.
#[verifier::external_body]
fn random_user_id() -> (r: String)
    ensures
        r@.len() == 36,
        r@[8] == '-',
        r@[13] == '-',
        r@[18] == '-',
        r@[23] == '-',
{
    uuid::Uuid::new_v4().to_string()
}

impl Settings {
    /// The settings of a first start: sync every 30 seconds, idle after 15
    /// seconds without input, a fresh random user id, the window shown at start
    /// up, and opening a session not counted as input.
    pub fn with_defaults(local_database_path: String) -> (r: Settings)
        ensures
            r.auto_sync_interval_seconds == 30,
            r.active_timeout_seconds == 15,
            r.local_database_path@ == local_database_path@,
            r.uid@.len() == 36,
            r.uid@[8] == '-' && r.uid@[13] == '-' && r.uid@[18] == '-' && r.uid@[23] == '-',
            r.open_ui_at_start_up,
            !r.start_session_counts_as_activity,
    {
        Settings {
            auto_sync_interval_seconds: 30,
            active_timeout_seconds: 15,
            local_database_path,
            uid: random_user_id(),
            open_ui_at_start_up: true,
            start_session_counts_as_activity: false,
        }
    }
}

} // verus!
