//! The configuration of the switcher.

use vstd::prelude::*;

use crate::bindings::ModKey;

verus! {

/// Delay before the window focus is considered to be locked in for the most-recently-used order, in
/// milliseconds. The delay is not configurable.
pub const DEFAULT_MRU_COMMIT_MS: u64 = 750;

/// The configuration in effect.
#[derive(Clone, Copy, Debug, PartialEq, Eq, Structural)]
pub struct RecentWindows {
    pub on: bool,
    pub mod_key: ModKey,
}

/// What one configuration file says.
#[derive(Clone, Copy, Debug, PartialEq, Eq, Structural)]
pub struct RecentWindowsPart {
    pub on: bool,
    pub off: bool,
    pub mod_key: Option<ModKey>,
}

/// A configuration that parts can be merged into.
pub trait MergeWith<Part> {
    fn merge_with(&mut self, part: &Part);
}

impl Default for RecentWindows {
    fn default() -> (config: RecentWindows)
        ensures
            config == (RecentWindows { on: true, mod_key: ModKey::Alt }),
    {
        RecentWindows { on: true, mod_key: ModKey::Alt }
    }
}

impl Default for RecentWindowsPart {
    fn default() -> (part: RecentWindowsPart)
        ensures
            part == (RecentWindowsPart { on: false, off: false, mod_key: None }),
    {
        RecentWindowsPart { on: false, off: false, mod_key: None }
    }
}

impl RecentWindows {
    /// The configuration with a part merged in: `off` overrides everything, and what the part does
    /// not mention stays.
    pub open spec fn merged(self, part: RecentWindowsPart) -> RecentWindows {
        RecentWindows {
            on: (self.on || part.on) && !part.off,
            mod_key: match part.mod_key {
                Some(mod_key) => mod_key,
                None => self.mod_key,
            },
        }
    }
}

impl MergeWith<RecentWindowsPart> for RecentWindows {
    /// Merges in what one configuration file says.
    fn merge_with(&mut self, part: &RecentWindowsPart)
        ensures
            *final(self) == old(self).merged(*part),
    {
        self.on = self.on || part.on;
        if part.off {
            self.on = false;
        }
        if let Some(mod_key) = part.mod_key {
            self.mod_key = mod_key;
        }
    }
}

/// A part that says nothing changes nothing.
pub proof fn law_merge_nothing(config: RecentWindows)
    ensures
        config.merged(RecentWindowsPart { on: false, off: false, mod_key: None }) == config,
{
}

/// Merging the same part again changes nothing.
pub proof fn law_merge_idempotent(config: RecentWindows, part: RecentWindowsPart)
    ensures
        config.merged(part).merged(part) == config.merged(part),
{
}

/// What the last part decides is what holds: whether the switcher is on where the part turns it on
/// or off, and the mod key where the part gives one.
pub proof fn law_last_part_decides(
    config: RecentWindows,
    other: RecentWindows,
    part: RecentWindowsPart,
)
    ensures
        part.on || part.off ==> config.merged(part).on == other.merged(part).on,
        part.mod_key is Some ==> config.merged(part).mod_key == other.merged(part).mod_key,
{
}

/// A part that turns the switcher off leaves it off, even where it also turns it on. Otherwise the
/// switcher is on if it was, or if the part turns it on.
pub proof fn law_off_wins(config: RecentWindows, part: RecentWindowsPart)
    ensures
        part.off ==> !config.merged(part).on,
        !part.off && part.on ==> config.merged(part).on,
        !part.off && !part.on ==> config.merged(part).on == config.on,
{
}

/// The mod key is the part's, if it gives one, and otherwise stays, whether the switcher is on or
/// off.
pub proof fn law_mod_key_merged(config: RecentWindows, part: RecentWindowsPart, mod_key: ModKey)
    ensures
        part.mod_key == Some(mod_key) ==> config.merged(part).mod_key == mod_key,
        part.mod_key is None ==> config.merged(part).mod_key == config.mod_key,
{
}

} // verus!
