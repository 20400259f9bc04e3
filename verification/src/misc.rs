//! Small configuration records and how a configuration part, read from one
//! configuration file or include, is merged over the values so far.

use vstd::prelude::*;

verus! {

/// A flag node: present with `true` (or no argument), or `false`.
#[derive(Clone, Copy, Debug, PartialEq, Eq, Structural)]
pub struct Flag(pub bool);

/// Merging a configuration part over the values so far.
pub trait MergeWith<T> {
    fn merge_with(&mut self, part: &T);
}

impl MergeWith<Flag> for bool {
    fn merge_with(&mut self, part: &Flag)
        ensures
            *final(self) == part.0,
    {
        *self = part.0;
    }
}

/// The value after merging an optional flag: the flag's value if it is set.
pub open spec fn merged_flag(value: bool, part: Option<Flag>) -> bool {
    match part {
        Some(f) => f.0,
        None => value,
    }
}

/// A command spawned at startup, as its arguments.
#[derive(Clone, Debug, PartialEq, Eq)]
pub struct SpawnAtStartup {
    pub command: Vec<String>,
}

/// A command spawned at startup through the shell.
#[derive(Clone, Debug, PartialEq, Eq)]
pub struct SpawnShAtStartup {
    pub command: String,
}

/// Where screenshots are saved; `None` when they are not saved.
#[derive(Clone, Debug, PartialEq)]
pub struct ScreenshotPath(pub Option<String>);

impl Default for ScreenshotPath {
    fn default() -> (r: ScreenshotPath)
        ensures
            r.0 matches Some(p) && p@ == "~/Pictures/Screenshots/Screenshot from %Y-%m-%d %H-%M-%S.png"@,
    {
        ScreenshotPath(Some("~/Pictures/Screenshots/Screenshot from %Y-%m-%d %H-%M-%S.png".to_owned()))
    }
}

/// The hotkey overlay's options.
#[derive(Clone, Copy, Debug, PartialEq, Eq, Structural)]
pub struct HotkeyOverlay {
    pub skip_at_startup: bool,
    pub hide_not_bound: bool,
}

impl Default for HotkeyOverlay {
    fn default() -> (r: HotkeyOverlay)
        ensures
            !r.skip_at_startup && !r.hide_not_bound,
    {
        HotkeyOverlay { skip_at_startup: false, hide_not_bound: false }
    }
}

#[derive(Clone, Copy, Debug, PartialEq, Eq, Structural)]
pub struct HotkeyOverlayPart {
    pub skip_at_startup: Option<Flag>,
    pub hide_not_bound: Option<Flag>,
}

impl MergeWith<HotkeyOverlayPart> for HotkeyOverlay {
    fn merge_with(&mut self, part: &HotkeyOverlayPart)
        ensures
            final(self).skip_at_startup == merged_flag(old(self).skip_at_startup, part.skip_at_startup),
            final(self).hide_not_bound == merged_flag(old(self).hide_not_bound, part.hide_not_bound),
    {
        if let Some(x) = &part.skip_at_startup {
            self.skip_at_startup.merge_with(x);
        }
        if let Some(x) = &part.hide_not_bound {
            self.hide_not_bound.merge_with(x);
        }
    }
}

/// Notifications about the configuration.
#[derive(Clone, Copy, Debug, PartialEq, Eq, Structural)]
pub struct ConfigNotification {
    pub disable_failed: bool,
}

impl Default for ConfigNotification {
    fn default() -> (r: ConfigNotification)
        ensures
            !r.disable_failed,
    {
        ConfigNotification { disable_failed: false }
    }
}

#[derive(Clone, Copy, Debug, PartialEq, Eq, Structural)]
pub struct ConfigNotificationPart {
    pub disable_failed: Option<Flag>,
}

impl MergeWith<ConfigNotificationPart> for ConfigNotification {
    fn merge_with(&mut self, part: &ConfigNotificationPart)
        ensures
            final(self).disable_failed == merged_flag(old(self).disable_failed, part.disable_failed),
    {
        if let Some(x) = &part.disable_failed {
            self.disable_failed.merge_with(x);
        }
    }
}

/// Clipboard options.
#[derive(Clone, Copy, Debug, PartialEq, Eq, Structural)]
pub struct Clipboard {
    pub disable_primary: bool,
}

impl Default for Clipboard {
    fn default() -> (r: Clipboard)
        ensures
            !r.disable_primary,
    {
        Clipboard { disable_primary: false }
    }
}

#[derive(Clone, Copy, Debug, PartialEq, Eq, Structural)]
pub struct ClipboardPart {
    pub disable_primary: Option<Flag>,
}

impl MergeWith<ClipboardPart> for Clipboard {
    fn merge_with(&mut self, part: &ClipboardPart)
        ensures
            final(self).disable_primary == merged_flag(old(self).disable_primary, part.disable_primary),
    {
        if let Some(x) = &part.disable_primary {
            self.disable_primary.merge_with(x);
        }
    }
}

/// Environment variables for spawned processes.
#[derive(Clone, Debug, PartialEq, Eq)]
pub struct Environment(pub Vec<EnvironmentVariable>);

/// One variable; without a value it is removed from the environment.
#[derive(Clone, Debug, PartialEq, Eq)]
pub struct EnvironmentVariable {
    pub name: String,
    pub value: Option<String>,
}

/// How to run xwayland-satellite.
#[derive(Clone, Debug, PartialEq, Eq)]
pub struct XwaylandSatellite {
    pub off: bool,
    pub path: String,
}

impl Default for XwaylandSatellite {
    fn default() -> (r: XwaylandSatellite)
        ensures
            !r.off,
            r.path@ == "xwayland-satellite"@,
    {
        XwaylandSatellite { off: false, path: "xwayland-satellite".to_owned() }
    }
}

#[derive(Clone, Debug, PartialEq, Eq)]
pub struct XwaylandSatellitePart {
    pub off: bool,
    pub on: bool,
    pub path: Option<String>,
}

impl MergeWith<XwaylandSatellitePart> for XwaylandSatellite {
    /// `off` turns it off and `on` back on (`on` wins when both are given);
    /// a path replaces the path.
    fn merge_with(&mut self, part: &XwaylandSatellitePart)
        ensures
            final(self).off == ((old(self).off || part.off) && !part.on),
            final(self).path == (match part.path {
                Some(p) => p,
                None => old(self).path,
            }),
    {
        self.off = self.off || part.off;
        if part.on {
            self.off = false;
        }
        if let Some(x) = &part.path {
            self.path = x.clone();
        }
    }
}

} // verus!
