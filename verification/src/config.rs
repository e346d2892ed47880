//! The slice of the launcher's settings that the core reads and writes:
//! per-channel update-check flags, per-channel keep-only-latest flags, and
//! the default package.

use vstd::prelude::*;

use crate::package::{Channel, Package, PkgModel};

verus! {

/// A two-way switch as the settings screen presents it.
#[derive(Clone, Copy, Debug, PartialEq, Eq, Structural)]
pub enum Choice {
    Enable,
    Disable,
}

impl Choice {
    /// Whether this choice turns its setting on.
    pub fn enabled(&self) -> (r: bool)
        ensures
            r == (*self == Choice::Enable),
    {
        match self {
            Choice::Enable => true,
            Choice::Disable => false,
        }
    }
}

/// The settings the core depends on.
#[derive(Debug)]
pub struct Config {
    pub update_daily: bool,
    pub update_branched: bool,
    pub update_stable: bool,
    pub update_lts: bool,
    pub keep_only_latest_daily: bool,
    pub keep_only_latest_branched: bool,
    pub keep_only_latest_stable: bool,
    pub keep_only_latest_lts: bool,
    /// The single installed package designated for direct launch, referenced
    /// by value equality.
    pub default_package: Option<Package>,
}

/// Mathematical shape of a [`Config`].
pub struct ConfigModel {
    pub update_daily: bool,
    pub update_branched: bool,
    pub update_stable: bool,
    pub update_lts: bool,
    pub keep_only_latest_daily: bool,
    pub keep_only_latest_branched: bool,
    pub keep_only_latest_stable: bool,
    pub keep_only_latest_lts: bool,
    pub default_package: Option<PkgModel>,
}

impl View for Config {
    type V = ConfigModel;

    open spec fn view(&self) -> ConfigModel {
        ConfigModel {
            update_daily: self.update_daily,
            update_branched: self.update_branched,
            update_stable: self.update_stable,
            update_lts: self.update_lts,
            keep_only_latest_daily: self.keep_only_latest_daily,
            keep_only_latest_branched: self.keep_only_latest_branched,
            keep_only_latest_stable: self.keep_only_latest_stable,
            keep_only_latest_lts: self.keep_only_latest_lts,
            default_package: match &self.default_package {
                Some(p) => Some(p@),
                None => None,
            },
        }
    }
}

/// Whether update checking is enabled for a channel. Archived builds have no
/// update cadence, so their channel is never enabled.
pub open spec fn checks_enabled(c: ConfigModel, channel: Channel) -> bool {
    match channel {
        Channel::Daily => c.update_daily,
        Channel::Branched => c.update_branched,
        Channel::Stable => c.update_stable,
        Channel::Lts => c.update_lts,
        Channel::Archived => false,
    }
}

/// Whether the keep-only-latest policy applies to a channel. Archived builds
/// are never subject to it.
pub open spec fn keep_only_latest(c: ConfigModel, channel: Channel) -> bool {
    match channel {
        Channel::Daily => c.keep_only_latest_daily,
        Channel::Branched => c.keep_only_latest_branched,
        Channel::Stable => c.keep_only_latest_stable,
        Channel::Lts => c.keep_only_latest_lts,
        Channel::Archived => false,
    }
}

impl Config {
    /// Whether update checking is enabled for a channel.
    pub fn checks_enabled(&self, channel: Channel) -> (r: bool)
        ensures
            r == checks_enabled(self@, channel),
    {
        match channel {
            Channel::Daily => self.update_daily,
            Channel::Branched => self.update_branched,
            Channel::Stable => self.update_stable,
            Channel::Lts => self.update_lts,
            Channel::Archived => false,
        }
    }

    /// Whether the keep-only-latest policy applies to a channel.
    pub fn keep_only_latest(&self, channel: Channel) -> (r: bool)
        ensures
            r == keep_only_latest(self@, channel),
    {
        match channel {
            Channel::Daily => self.keep_only_latest_daily,
            Channel::Branched => self.keep_only_latest_branched,
            Channel::Stable => self.keep_only_latest_stable,
            Channel::Lts => self.keep_only_latest_lts,
            Channel::Archived => false,
        }
    }

    /// Turn update checking for a channel on or off. Archived builds carry
    /// no such setting: asking for them changes nothing.
    pub fn set_check_updates(&mut self, channel: Channel, choice: Choice)
        ensures
            checks_enabled(final(self)@, channel) == (channel != Channel::Archived && choice
                == Choice::Enable),
            forall|ch: Channel| ch != channel ==> checks_enabled(final(self)@, ch)
                == checks_enabled(old(self)@, ch),
            forall|ch: Channel|
                keep_only_latest(final(self)@, ch) == keep_only_latest(old(self)@, ch),
            final(self)@.default_package == old(self)@.default_package,
    {
        let on = choice.enabled();
        match channel {
            Channel::Daily => self.update_daily = on,
            Channel::Branched => self.update_branched = on,
            Channel::Stable => self.update_stable = on,
            Channel::Lts => self.update_lts = on,
            Channel::Archived => (),
        }
    }

    /// Turn the keep-only-latest policy for a channel on or off. Archived
    /// builds carry no such setting: asking for them changes nothing.
    pub fn set_keep_only_latest(&mut self, channel: Channel, choice: Choice)
        ensures
            keep_only_latest(final(self)@, channel) == (channel != Channel::Archived && choice
                == Choice::Enable),
            forall|ch: Channel| ch != channel ==> keep_only_latest(final(self)@, ch)
                == keep_only_latest(old(self)@, ch),
            forall|ch: Channel|
                checks_enabled(final(self)@, ch) == checks_enabled(old(self)@, ch),
            final(self)@.default_package == old(self)@.default_package,
    {
        let on = choice.enabled();
        match channel {
            Channel::Daily => self.keep_only_latest_daily = on,
            Channel::Branched => self.keep_only_latest_branched = on,
            Channel::Stable => self.keep_only_latest_stable = on,
            Channel::Lts => self.keep_only_latest_lts = on,
            Channel::Archived => (),
        }
    }

    /// Designate a package as the default.
    pub fn set_default_package(&mut self, package: &Package)
        ensures
            final(self)@ == (ConfigModel { default_package: Some(package@), ..old(self)@ }),
    {
        self.default_package = Some(package.clone());
    }

    /// Clear the default package.
    pub fn unset_default_package(&mut self)
        ensures
            final(self)@ == (ConfigModel { default_package: None, ..old(self)@ }),
    {
        self.default_package = None;
    }

    /// Clear the default package if it is the given one, as happens when
    /// that package is uninstalled.
    pub fn clear_default_if_matches(&mut self, package: &Package)
        ensures
            final(self)@ == (ConfigModel {
                default_package: match old(self)@.default_package {
                    Some(d) => if crate::package::same_identity(d, package@) {
                        None
                    } else {
                        Some(d)
                    },
                    None => None,
                },
                ..old(self)@
            }),
    {
        let clear = match &self.default_package {
            Some(d) => *d == *package,
            None => false,
        };
        if clear {
            self.default_package = None;
        }
    }
}

impl Default for Config {
    /// Everything off and no default package until settings are loaded.
    fn default() -> (c: Config)
        ensures
            c@ == (ConfigModel {
                update_daily: false,
                update_branched: false,
                update_stable: false,
                update_lts: false,
                keep_only_latest_daily: false,
                keep_only_latest_branched: false,
                keep_only_latest_stable: false,
                keep_only_latest_lts: false,
                default_package: None,
            }),
    {
        Config {
            update_daily: false,
            update_branched: false,
            update_stable: false,
            update_lts: false,
            keep_only_latest_daily: false,
            keep_only_latest_branched: false,
            keep_only_latest_stable: false,
            keep_only_latest_lts: false,
            default_package: None,
        }
    }
}

} // verus!
