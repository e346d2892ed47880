//! What the package list shows and in which order: the per-channel and
//! per-state filters, and the sort orders, including natural-order version
//! comparison.

use vstd::prelude::*;

use core::cmp::Ordering;

use crate::package::{channel_of, Channel, Package, PackageState, PackageStatus, PkgModel};

verus! {

/// Which packages the list shows. `updates` and `installed` narrow the
/// list to packages with an update or to installed ones; at most one of
/// the two is on. The per-channel flags pick the channels shown, and `all`
/// mirrors whether every channel flag is on.
#[derive(Clone, Copy, Debug, PartialEq, Eq, Structural)]
pub struct Filters {
    pub updates: bool,
    pub installed: bool,
    pub all: bool,
    pub daily: bool,
    pub branched: bool,
    pub lts: bool,
    pub stable: bool,
    pub archived: bool,
}

/// Whether the filters show packages of the given channel at all.
pub open spec fn channel_shown(f: Filters, channel: Channel) -> bool {
    match channel {
        Channel::Daily => f.daily,
        Channel::Branched => f.branched,
        Channel::Stable => f.stable,
        Channel::Lts => f.lts,
        Channel::Archived => f.archived,
    }
}

/// Whether the filters show a package: its channel must be shown, and the
/// update and installed narrowings must agree with its tags.
pub open spec fn matches_filter(f: Filters, p: PkgModel) -> bool {
    if f.updates {
        channel_shown(f, channel_of(p.build)) && p.status == PackageStatus::Update
    } else if f.installed {
        channel_shown(f, channel_of(p.build)) && p.state == PackageState::Installed
    } else {
        channel_shown(f, channel_of(p.build))
    }
}

impl Filters {
    /// Whether these filters show the package.
    pub fn matches(&self, package: &Package) -> (r: bool)
        ensures
            r == matches_filter(*self, package@),
    {
        let shown = match package.build.channel() {
            Channel::Daily => self.daily,
            Channel::Branched => self.branched,
            Channel::Stable => self.stable,
            Channel::Lts => self.lts,
            Channel::Archived => self.archived,
        };
        if self.updates {
            let is_update = match package.status {
                PackageStatus::Update => true,
                _ => false,
            };
            shown && is_update
        } else if self.installed {
            let is_installed = match package.state {
                PackageState::Installed => true,
                _ => false,
            };
            shown && is_installed
        } else {
            shown
        }
    }

    /// Recompute `all`: it is on exactly while every channel flag is on.
    pub fn refresh_all(&mut self)
        ensures
            *final(self) == (Filters {
                all: old(self).daily && old(self).branched && old(self).stable
                    && old(self).lts && old(self).archived,
                ..*old(self)
            }),
    {
        if self.daily && self.branched && self.stable && self.lts && self.archived {
            self.all = true
        } else {
            self.all = false
        }
    }

    /// Narrow the list to packages with an update, or stop doing so. The
    /// installed narrowing goes off when this one goes on.
    pub fn set_updates(&mut self, change: bool)
        ensures
            *final(self) == (Filters {
                updates: change,
                installed: !change && old(self).installed,
                ..*old(self)
            }),
    {
        if change {
            self.updates = true;
            self.installed = false;
        } else {
            self.updates = false;
        }
    }

    /// Narrow the list to installed packages, or stop doing so. The update
    /// narrowing goes off when this one goes on.
    pub fn set_installed(&mut self, change: bool)
        ensures
            *final(self) == (Filters {
                installed: change,
                updates: !change && old(self).updates,
                ..*old(self)
            }),
    {
        if change {
            self.installed = true;
            self.updates = false;
        } else {
            self.installed = false;
        }
    }

    /// Turn every channel flag on or off at once.
    pub fn set_all(&mut self, change: bool)
        ensures
            *final(self) == (Filters {
                all: change,
                daily: change,
                branched: change,
                stable: change,
                lts: change,
                archived: change,
                ..*old(self)
            }),
    {
        self.all = change;
        self.daily = change;
        self.branched = change;
        self.stable = change;
        self.lts = change;
        self.archived = change;
    }

    /// Show or hide one channel, and recompute `all`.
    pub fn set_channel(&mut self, channel: Channel, change: bool)
        ensures
            channel_shown(*final(self), channel) == change,
            forall|ch: Channel|
                ch != channel ==> channel_shown(*final(self), ch) == channel_shown(
                    *old(self),
                    ch,
                ),
            final(self).updates == old(self).updates,
            final(self).installed == old(self).installed,
            final(self).all == (final(self).daily && final(self).branched
                && final(self).stable && final(self).lts && final(self).archived),
    {
        match channel {
            Channel::Daily => self.daily = change,
            Channel::Branched => self.branched = change,
            Channel::Stable => self.stable = change,
            Channel::Lts => self.lts = change,
            Channel::Archived => self.archived = change,
        }
        self.refresh_all();
    }
}

impl Default for Filters {
    /// Show everything, narrowed to neither updates nor installed builds.
    fn default() -> (f: Filters)
        ensures
            f == (Filters {
                updates: false,
                installed: false,
                all: true,
                daily: true,
                branched: true,
                lts: true,
                stable: true,
                archived: true,
            }),
    {
        Filters {
            updates: false,
            installed: false,
            all: true,
            daily: true,
            branched: true,
            lts: true,
            stable: true,
            archived: true,
        }
    }
}

/// The screens the launcher shows.
#[derive(Clone, Copy, Debug, PartialEq, Eq, Structural)]
pub enum Tab {
    Packages,
    Settings,
    About,
}

/// The sort orders the package list offers.
#[derive(Clone, Copy, Debug, PartialEq, Eq, Structural)]
pub enum SortBy {
    NameAscending,
    NameDescending,
    DateAscending,
    DateDescending,
    VersionAscending,
    VersionDescending,
}

/// The opposite ordering.
pub open spec fn reversed(o: Ordering) -> Ordering {
    match o {
        Ordering::Less => Ordering::Greater,
        Ordering::Equal => Ordering::Equal,
        Ordering::Greater => Ordering::Less,
    }
}

/// Character sequences compared lexicographically by code point, as
/// package names are sorted.
pub open spec fn lex_cmp_chars(a: Seq<char>, b: Seq<char>) -> Ordering
    decreases a.len(),
{
    if a.len() == 0 && b.len() == 0 {
        Ordering::Equal
    } else if a.len() == 0 {
        Ordering::Less
    } else if b.len() == 0 {
        Ordering::Greater
    } else if (a[0] as u32) < (b[0] as u32) {
        Ordering::Less
    } else if (a[0] as u32) > (b[0] as u32) {
        Ordering::Greater
    } else {
        lex_cmp_chars(a.drop_first(), b.drop_first())
    }
}

/// Dates compared numerically.
pub open spec fn date_cmp(a: u64, b: u64) -> Ordering {
    if a < b {
        Ordering::Less
    } else if a > b {
        Ordering::Greater
    } else {
        Ordering::Equal
    }
}

/// What natural-order, case-ignoring comparison says of two version
/// strings: runs of digits compare as numbers, so "2.9" sorts before
/// "2.90". The outside comparison routine defines the order; it depends on
/// the two strings' characters alone.
pub uninterp spec fn natural_order(a: Seq<char>, b: Seq<char>) -> Ordering;

/// Relies on natord::compare_ignore_case: a natural-order, case-ignoring
/// string comparison, a pure function of the two strings' characters.
#[verifier::external_body]
fn natural_cmp(a: &str, b: &str) -> (o: Ordering)
    ensures
        o == natural_order(a@, b@),
{
    natord::compare_ignore_case(a, b)
}

/// Compare two strings lexicographically by code point.
fn lex_cmp(a: &String, b: &String) -> (o: Ordering)
    ensures
        o == lex_cmp_chars(a@, b@),
{
    let la = a.as_str().unicode_len();
    let lb = b.as_str().unicode_len();
    let mut i: usize = 0;
    proof {
        assert(a@.skip(0) =~= a@);
        assert(b@.skip(0) =~= b@);
    }
    while i < la && i < lb
        invariant
            la == a@.len(),
            lb == b@.len(),
            i <= la,
            i <= lb,
            lex_cmp_chars(a@, b@) == lex_cmp_chars(a@.skip(i as int), b@.skip(i as int)),
        decreases la - i,
    {
        let ca = a.as_str().get_char(i);
        let cb = b.as_str().get_char(i);
        assert(ca == a@.skip(i as int)[0] && cb == b@.skip(i as int)[0]);
        if (ca as u32) < (cb as u32) {
            return Ordering::Less;
        }
        if (ca as u32) > (cb as u32) {
            return Ordering::Greater;
        }
        assert(a@.skip(i as int).drop_first() =~= a@.skip(i + 1));
        assert(b@.skip(i as int).drop_first() =~= b@.skip(i + 1));
        i += 1;
    }
    assert(a@.skip(i as int).len() == 0 || b@.skip(i as int).len() == 0);
    if la == lb {
        assert(a@.skip(i as int).len() == 0 && b@.skip(i as int).len() == 0);
        Ordering::Equal
    } else if la < lb {
        Ordering::Less
    } else {
        Ordering::Greater
    }
}

/// The order the given sort puts two packages in.
pub open spec fn ordering_of(s: SortBy, a: PkgModel, b: PkgModel) -> Ordering {
    match s {
        SortBy::NameAscending => lex_cmp_chars(a.name, b.name),
        SortBy::NameDescending => reversed(lex_cmp_chars(a.name, b.name)),
        SortBy::DateAscending => date_cmp(a.date, b.date),
        SortBy::DateDescending => reversed(date_cmp(a.date, b.date)),
        SortBy::VersionAscending => natural_order(a.version, b.version),
        SortBy::VersionDescending => reversed(natural_order(a.version, b.version)),
    }
}

/// The wording of a sort order as the pick list shows it.
pub open spec fn sort_label(s: SortBy) -> Seq<char> {
    match s {
        SortBy::NameAscending => "Name [A]"@,
        SortBy::NameDescending => "Name [D]"@,
        SortBy::DateAscending => "Date [A]"@,
        SortBy::DateDescending => "Date [D]"@,
        SortBy::VersionAscending => "Version [A]"@,
        SortBy::VersionDescending => "Version [D]"@,
    }
}

impl SortBy {
    /// The order this sort puts two packages in. Names sort by code point,
    /// dates numerically, and versions in natural order, where runs of
    /// digits compare as numbers.
    pub fn get_ordering(&self, a: &Package, b: &Package) -> (o: Ordering)
        ensures
            o == ordering_of(*self, a@, b@),
    {
        match self {
            SortBy::NameAscending => lex_cmp(&a.name, &b.name),
            SortBy::NameDescending => reverse_ordering(lex_cmp(&a.name, &b.name)),
            SortBy::DateAscending => {
                if a.date < b.date {
                    Ordering::Less
                } else if a.date > b.date {
                    Ordering::Greater
                } else {
                    Ordering::Equal
                }
            },
            SortBy::DateDescending => {
                if a.date < b.date {
                    Ordering::Greater
                } else if a.date > b.date {
                    Ordering::Less
                } else {
                    Ordering::Equal
                }
            },
            SortBy::VersionAscending => natural_cmp(a.version.as_str(), b.version.as_str()),
            SortBy::VersionDescending => reverse_ordering(
                natural_cmp(a.version.as_str(), b.version.as_str()),
            ),
        }
    }

    /// The wording of this sort order for the pick list.
    pub fn label(&self) -> (r: String)
        ensures
            r@ == sort_label(*self),
    {
        match self {
            SortBy::NameAscending => String::from_str("Name [A]"),
            SortBy::NameDescending => String::from_str("Name [D]"),
            SortBy::DateAscending => String::from_str("Date [A]"),
            SortBy::DateDescending => String::from_str("Date [D]"),
            SortBy::VersionAscending => String::from_str("Version [A]"),
            SortBy::VersionDescending => String::from_str("Version [D]"),
        }
    }
}

/// Turn an ordering around.
fn reverse_ordering(o: Ordering) -> (r: Ordering)
    ensures
        r == reversed(o),
{
    match o {
        Ordering::Less => Ordering::Greater,
        Ordering::Equal => Ordering::Equal,
        Ordering::Greater => Ordering::Less,
    }
}

impl Default for SortBy {
    /// Newest version first.
    fn default() -> (s: SortBy)
        ensures
            s == SortBy::VersionDescending,
    {
        SortBy::VersionDescending
    }
}

} // verus!
