//! Decision logic of the detectors. Each detector's sampling, waiting and
//! network work runs outside the library; what it decides from each sample
//! or message is stated and proved here.

pub mod battery_low;
pub mod downloads;
pub mod email;
pub mod friend_message;
pub mod overheating;

use vstd::prelude::*;
use crate::settings::{DiscordSettings, DownloadsSettings, EmailSettings};
use crate::text::is_blank;

verus! {

/// Which detectors to start for a set of settings.
#[derive(Clone, Copy, Debug, PartialEq, Eq, Structural)]
pub struct DetectorPlan {
    pub battery: bool,
    pub temperature: bool,
    pub downloads: bool,
    pub email: bool,
    pub discord: bool,
}

impl DetectorPlan {
    /// Every enabled detector starts, except email without a user name.
    pub fn for_settings(
        battery_enabled: bool,
        temperature_enabled: bool,
        downloads: &DownloadsSettings,
        email: &EmailSettings,
        discord: &DiscordSettings,
    ) -> (plan: Self)
        ensures
            plan.battery == battery_enabled,
            plan.temperature == temperature_enabled,
            plan.downloads == downloads.enabled,
            plan.email == (email.enabled && !is_blank(email.username@)),
            plan.discord == discord.enabled,
    {
        DetectorPlan {
            battery: battery_enabled,
            temperature: temperature_enabled,
            downloads: downloads.enabled,
            email: email.detector_enabled(),
            discord: discord.enabled,
        }
    }
}

/// How many one-second waits a detector makes between polls of `seconds`:
/// at least one, so that a stop request is noticed.
pub fn poll_wait_ticks(seconds: u64) -> (ticks: u64)
    ensures
        ticks == if seconds < 1 { 1 } else { seconds },
{
    if seconds < 1 { 1 } else { seconds }
}

} // verus!
