//! The installed registry: the locally installed packages, the validity of
//! the default package, and policy-driven pruning of superseded builds.

use vstd::prelude::*;

use crate::config::{keep_only_latest, Config, ConfigModel};
use crate::package::{channel_of, contains_identity, models, same_build, same_identity,
    unique_identities, Package, PackageState, PkgModel};

verus! {

/// Whether every package of the sequence is in the `Installed` state.
pub open spec fn all_installed(s: Seq<PkgModel>) -> bool {
    forall|i: int| 0 <= i < s.len() ==> s[i].state == PackageState::Installed
}

/// The scanned packages as the registry stores them: every state forced to
/// `Installed`.
pub open spec fn with_installed_state(s: Seq<PkgModel>) -> Seq<PkgModel> {
    Seq::new(s.len(), |i: int| PkgModel { state: PackageState::Installed, ..s[i] })
}

/// A default package is only valid while it is still installed: one that is
/// not gets cleared.
pub open spec fn valid_default(d: Option<PkgModel>, installed: Seq<PkgModel>) -> Option<
    PkgModel,
> {
    match d {
        Some(p) => if contains_identity(installed, p) {
            Some(p)
        } else {
            None
        },
        None => None,
    }
}

/// Whether the package at index `i` is superseded under the keep-only-latest
/// policy: its channel has the policy enabled and some other package of the
/// same build line is newer, or as new and earlier in the registry.
pub open spec fn superseded(s: Seq<PkgModel>, i: int, c: ConfigModel) -> bool {
    &&& keep_only_latest(c, channel_of(s[i].build))
    &&& exists|j: int|
        0 <= j < s.len() && j != i && same_build(s[j], s[i]) && (s[j].date > s[i].date || (
        s[j].date == s[i].date && j < i))
}

/// The first `n` packages of `s` with the superseded ones dropped.
pub open spec fn pruned_upto(s: Seq<PkgModel>, c: ConfigModel, n: int) -> Seq<PkgModel>
    decreases n,
{
    if n <= 0 {
        Seq::empty()
    } else if superseded(s, n - 1, c) {
        pruned_upto(s, c, n - 1)
    } else {
        pruned_upto(s, c, n - 1).push(s[n - 1])
    }
}

/// The packages of `s` that survive pruning, in order.
pub open spec fn pruned(s: Seq<PkgModel>, c: ConfigModel) -> Seq<PkgModel> {
    pruned_upto(s, c, s.len() as int)
}

/// The first `n` packages of `s` that pruning drops, in order.
pub open spec fn pruned_away_upto(s: Seq<PkgModel>, c: ConfigModel, n: int) -> Seq<PkgModel>
    decreases n,
{
    if n <= 0 {
        Seq::empty()
    } else if superseded(s, n - 1, c) {
        pruned_away_upto(s, c, n - 1).push(s[n - 1])
    } else {
        pruned_away_upto(s, c, n - 1)
    }
}

/// The packages of `s` that pruning drops, in order.
pub open spec fn pruned_away(s: Seq<PkgModel>, c: ConfigModel) -> Seq<PkgModel> {
    pruned_away_upto(s, c, s.len() as int)
}

/// Pruning depends on the per-channel keep-only-latest flags alone, never
/// on which package is the default or which channels check for updates.
pub proof fn lemma_pruned_ignores_default(s: Seq<PkgModel>, c1: ConfigModel, c2: ConfigModel)
    requires
        forall|ch: crate::package::Channel|
            keep_only_latest(c1, ch) == keep_only_latest(c2, ch),
    ensures
        pruned(s, c1) == pruned(s, c2),
        pruned_away(s, c1) == pruned_away(s, c2),
{
    lemma_pruned_upto_same(s, c1, c2, s.len() as int);
}

proof fn lemma_pruned_upto_same(s: Seq<PkgModel>, c1: ConfigModel, c2: ConfigModel, n: int)
    requires
        0 <= n <= s.len(),
        forall|ch: crate::package::Channel|
            keep_only_latest(c1, ch) == keep_only_latest(c2, ch),
    ensures
        pruned_upto(s, c1, n) == pruned_upto(s, c2, n),
        pruned_away_upto(s, c1, n) == pruned_away_upto(s, c2, n),
    decreases n,
{
    if n > 0 {
        lemma_pruned_upto_same(s, c1, c2, n - 1);
        assert(superseded(s, n - 1, c1) == superseded(s, n - 1, c2));
    }
}

/// Packages of the same build line sit in the same channel.
pub proof fn lemma_same_build_same_channel(a: PkgModel, b: PkgModel)
    requires
        same_build(a, b),
    ensures
        channel_of(a.build) == channel_of(b.build),
{
}

/// The indices of the first `n` packages of `s` that pruning keeps, in
/// order.
pub open spec fn kept_indices(s: Seq<PkgModel>, c: ConfigModel, n: int) -> Seq<int>
    decreases n,
{
    if n <= 0 {
        Seq::empty()
    } else if superseded(s, n - 1, c) {
        kept_indices(s, c, n - 1)
    } else {
        kept_indices(s, c, n - 1).push(n - 1)
    }
}

/// Pruning keeps exactly the packages at the unsuperseded indices, in
/// order: the kept indices are in bounds, unsuperseded, strictly
/// increasing, cover every unsuperseded index, and spell out the pruned
/// sequence.
pub proof fn lemma_pruned_upto_membership(s: Seq<PkgModel>, c: ConfigModel, n: int)
    requires
        0 <= n <= s.len(),
    ensures
        kept_indices(s, c, n).len() == pruned_upto(s, c, n).len(),
        forall|k: int| 0 <= k < kept_indices(s, c, n).len() ==> 0 <= #[trigger] kept_indices(
            s,
            c,
            n,
        )[k] < n,
        forall|k: int| 0 <= k < kept_indices(s, c, n).len() ==> !superseded(
            s,
            #[trigger] kept_indices(s, c, n)[k],
            c,
        ),
        forall|k: int|
            0 <= k < kept_indices(s, c, n).len() ==> #[trigger] pruned_upto(s, c, n)[k] == s[
                kept_indices(s, c, n)[k]],
        forall|k1: int, k2: int|
            #![trigger kept_indices(s, c, n)[k1], kept_indices(s, c, n)[k2]]
            0 <= k1 < k2 < kept_indices(s, c, n).len() ==> kept_indices(s, c, n)[k1]
                < kept_indices(s, c, n)[k2],
        forall|i: int|
            0 <= i < n && !(#[trigger] superseded(s, i, c)) ==> kept_indices(s, c, n).contains(
                i,
            ),
    decreases n,
{
    if n > 0 {
        lemma_pruned_upto_membership(s, c, n - 1);
        let previ = kept_indices(s, c, n - 1);
        let curi = kept_indices(s, c, n);
        if !superseded(s, n - 1, c) {
            assert(curi == previ.push(n - 1));
            assert forall|i: int|
                0 <= i < n && !(#[trigger] superseded(s, i, c)) implies curi.contains(i) by {
                if i < n - 1 {
                    let k = choose|k: int| 0 <= k < previ.len() && previ[k] == i;
                    assert(curi[k] == i);
                } else {
                    assert(curi[curi.len() - 1] == n - 1);
                }
            }
        } else {
            assert(curi == previ);
            assert forall|i: int|
                0 <= i < n && !(#[trigger] superseded(s, i, c)) implies curi.contains(i) by {
                let k = choose|k: int| 0 <= k < previ.len() && previ[k] == i;
                assert(curi[k] == i);
            }
        }
    }
}

/// Two distinct unsuperseded packages under an enabled keep-only-latest
/// policy cannot share a build line.
proof fn lemma_unsuperseded_distinct_lines(s: Seq<PkgModel>, c: ConfigModel, i1: int, i2: int)
    requires
        0 <= i1 < i2 < s.len(),
        !superseded(s, i1, c),
        !superseded(s, i2, c),
        keep_only_latest(c, channel_of(s[i1].build)),
    ensures
        !same_build(s[i1], s[i2]),
{
    if same_build(s[i1], s[i2]) {
        lemma_same_build_same_channel(s[i1], s[i2]);
        if s[i1].date > s[i2].date {
            assert(superseded(s, i2, c));
        } else if s[i1].date == s[i2].date {
            assert(superseded(s, i2, c));
        } else {
            assert(same_build(s[i2], s[i1]));
            assert(superseded(s, i1, c));
        }
    }
}

/// After pruning, a channel with keep-only-latest enabled retains at most
/// one package per build line, and every package that was not superseded is
/// still there.
pub proof fn lemma_prune_keeps_one_per_line(s: Seq<PkgModel>, c: ConfigModel)
    ensures
        forall|k1: int, k2: int|
            #![trigger pruned(s, c)[k1], pruned(s, c)[k2]]
            0 <= k1 < k2 < pruned(s, c).len() && keep_only_latest(
                c,
                channel_of(pruned(s, c)[k1].build),
            ) ==> !same_build(pruned(s, c)[k1], pruned(s, c)[k2]),
        forall|i: int|
            0 <= i < s.len() && !(#[trigger] superseded(s, i, c)) ==> pruned(s, c).contains(
                s[i],
            ),
{
    lemma_pruned_upto_membership(s, c, s.len() as int);
    let p = pruned(s, c);
    let idx = kept_indices(s, c, s.len() as int);
    assert forall|k1: int, k2: int|
        #![trigger p[k1], p[k2]]
        0 <= k1 < k2 < p.len() && keep_only_latest(c, channel_of(p[k1].build)) implies !same_build(
        p[k1],
        p[k2],
    ) by {
        lemma_unsuperseded_distinct_lines(s, c, idx[k1], idx[k2]);
    }
    assert forall|i: int|
        0 <= i < s.len() && !(#[trigger] superseded(s, i, c)) implies p.contains(s[i]) by {
        let k = choose|k: int| 0 <= k < idx.len() && idx[k] == i;
        assert(p[k] == s[i]);
    }
}

/// After a build that is strictly newer than every other installed build
/// of its line lands in a channel with keep-only-latest enabled, pruning
/// keeps that build and drops every other build of the line: nothing else
/// of it remains.
pub proof fn lemma_prune_leaves_only_newest(s: Seq<PkgModel>, c: ConfigModel, k: int)
    requires
        0 <= k < s.len(),
        keep_only_latest(c, channel_of(s[k].build)),
        forall|j: int|
            0 <= j < s.len() && j != k && #[trigger] same_build(s[j], s[k]) ==> s[j].date
                < s[k].date,
    ensures
        pruned(s, c).contains(s[k]),
        forall|m: int|
            0 <= m < pruned(s, c).len() && #[trigger] same_build(pruned(s, c)[m], s[k])
                ==> pruned(s, c)[m] == s[k],
{
    lemma_pruned_upto_membership(s, c, s.len() as int);
    let p = pruned(s, c);
    let idx = kept_indices(s, c, s.len() as int);
    assert(!superseded(s, k, c));
    assert(idx.contains(k));
    let m0 = choose|m0: int| 0 <= m0 < idx.len() && idx[m0] == k;
    assert(p[m0] == s[k]);
    assert(p.contains(s[k]));
    assert forall|m: int|
        0 <= m < p.len() && #[trigger] same_build(p[m], s[k]) implies p[m] == s[k] by {
        let i = idx[m];
        assert(p[m] == s[i]);
        if i != k {
            assert(same_build(s[i], s[k]));
            assert(s[i].date < s[k].date);
            lemma_same_build_same_channel(s[i], s[k]);
            assert(same_build(s[k], s[i]));
            assert(superseded(s, i, c));
        }
    }
}

/// Pruning keeps identities unique.
pub proof fn lemma_prune_unique(s: Seq<PkgModel>, c: ConfigModel)
    requires
        unique_identities(s),
    ensures
        unique_identities(pruned(s, c)),
{
    lemma_pruned_upto_membership(s, c, s.len() as int);
    let p = pruned(s, c);
    let idx = kept_indices(s, c, s.len() as int);
    assert forall|k1: int, k2: int|
        #![trigger p[k1], p[k2]]
        0 <= k1 < k2 < p.len() implies !same_identity(p[k1], p[k2]) by {
        assert(idx[k1] < idx[k2]);
        assert(!same_identity(s[idx[k1]], s[idx[k2]]));
    }
}

/// The locally installed packages. Every entry carries state `Installed`,
/// and no two entries share an identity.
#[derive(Debug)]
pub struct Installed {
    pub packages: Vec<Package>,
}

impl View for Installed {
    type V = Seq<PkgModel>;

    open spec fn view(&self) -> Seq<PkgModel> {
        models(self.packages@)
    }
}

impl Installed {
    /// The registry is well formed: entries are installed and identities are
    /// unique.
    pub open spec fn wf(&self) -> bool {
        all_installed(self@) && unique_identities(self@)
    }

    /// An empty registry.
    pub fn new() -> (r: Installed)
        ensures
            r@ =~= Seq::<PkgModel>::empty(),
            r.wf(),
    {
        Installed { packages: Vec::new() }
    }

    /// How many packages are installed.
    pub fn len(&self) -> (n: usize)
        ensures
            n == self@.len(),
    {
        self.packages.len()
    }

    /// The package at one position.
    pub fn get(&self, i: usize) -> (p: &Package)
        requires
            i < self@.len(),
        ensures
            p@ == self@[i as int],
    {
        &self.packages[i]
    }

    /// Whether some installed package has the given identity.
    pub fn contains(&self, package: &Package) -> (r: bool)
        ensures
            r == contains_identity(self@, package@),
    {
        let n = self.packages.len();
        let mut i: usize = 0;
        while i < n
            invariant
                n == self@.len(),
                i <= n,
                forall|j: int| 0 <= j < i ==> !same_identity(self@[j], package@),
            decreases n - i,
        {
            if self.packages[i] == *package {
                assert(same_identity(self@[i as int], package@));
                return true;
            }
            i += 1;
        }
        false
    }

    /// Replace the registry's contents with what a rescan of the
    /// installation root found, forcing every entry into the `Installed`
    /// state. Installation directories disambiguate identities, so the scan
    /// never reports the same identity twice.
    pub fn refresh_from_scan(&mut self, scanned: &Vec<Package>)
        requires
            unique_identities(models(scanned@)),
        ensures
            final(self)@ =~= with_installed_state(models(scanned@)),
            final(self).wf(),
    {
        let ghost target = models(scanned@);
        let n = scanned.len();
        let mut fresh: Vec<Package> = Vec::new();
        let mut i: usize = 0;
        while i < n
            invariant
                n == scanned@.len(),
                i <= n,
                fresh@.len() == i,
                forall|j: int| 0 <= j < i ==> fresh@[j]@ == (PkgModel {
                    state: PackageState::Installed,
                    ..scanned@[j]@
                }),
            decreases n - i,
        {
            let mut p = scanned[i].clone();
            p.state = PackageState::Installed;
            fresh.push(p);
            i += 1;
        }
        self.packages = fresh;
        assert(self@ =~= with_installed_state(target));
        assert forall|a: int, b: int| 0 <= a < b < self@.len() implies !same_identity(
            self@[a],
            self@[b],
        ) by {
            assert(!same_identity(target[a], target[b]));
        }
    }

    /// Whether some installed package shares the given package's build line.
    pub fn contains_build_line(&self, package: &Package) -> (r: bool)
        ensures
            r == exists|i: int|
                0 <= i < self@.len() && #[trigger] same_build(self@[i], package@),
    {
        let n = self.packages.len();
        let mut i: usize = 0;
        while i < n
            invariant
                n == self@.len(),
                i <= n,
                forall|j: int| 0 <= j < i ==> !(#[trigger] same_build(self@[j], package@)),
            decreases n - i,
        {
            if self.packages[i].build == package.build {
                assert(same_build(self@[i as int], package@));
                return true;
            }
            i += 1;
        }
        false
    }

    /// Clear the default package if it is no longer installed; a default
    /// that is still installed stays.
    pub fn update_default(&self, config: &mut Config)
        ensures
            final(config)@ == (ConfigModel {
                default_package: valid_default(old(config)@.default_package, self@),
                ..old(config)@
            }),
    {
        let clear = match &config.default_package {
            Some(d) => !self.contains(d),
            None => false,
        };
        if clear {
            config.default_package = None;
        }
    }

    /// Apply the keep-only-latest policy: for every channel with the policy
    /// enabled, drop each installed package that another package of the same
    /// build line supersedes. The dropped packages are handed back so the
    /// caller can delete their installation directories.
    pub fn remove_old_packages(&mut self, config: &Config) -> (removed: Vec<Package>)
        ensures
            final(self)@ =~= pruned(old(self)@, config@),
            models(removed@) =~= pruned_away(old(self)@, config@),
            old(self).wf() ==> final(self).wf(),
    {
        let ghost s = self@;
        let ghost c = config@;
        let n = self.packages.len();
        let mut kept: Vec<Package> = Vec::new();
        let mut removed: Vec<Package> = Vec::new();
        let mut i: usize = 0;
        while i < n
            invariant
                n == self@.len(),
                s == self@,
                c == config@,
                i <= n,
                models(kept@) =~= pruned_upto(s, c, i as int),
                models(removed@) =~= pruned_away_upto(s, c, i as int),
            decreases n - i,
        {
            let p = &self.packages[i];
            let mut beaten = false;
            if config.keep_only_latest(p.build.channel()) {
                let mut j: usize = 0;
                while j < n
                    invariant
                        n == self@.len(),
                        s == self@,
                        c == config@,
                        i < n,
                        j <= n,
                        p@ == s[i as int],
                        keep_only_latest(c, channel_of(s[i as int].build)),
                        beaten ==> superseded(s, i as int, c),
                        !beaten ==> forall|jj: int|
                            0 <= jj < j ==> !(jj != i && #[trigger] same_build(
                                s[jj],
                                s[i as int],
                            ) && (s[jj].date > s[i as int].date || (s[jj].date == s[
                                i as int].date && jj < i))),
                    decreases n - j,
                {
                    if j != i {
                        let q = &self.packages[j];
                        assert(q@ == s[j as int]);
                        if q.build == p.build && (q.date > p.date || (q.date == p.date && j < i))
                        {
                            beaten = true;
                            assert(superseded(s, i as int, c));
                        }
                    }
                    j += 1;
                }
            }
            assert(beaten == superseded(s, i as int, c));
            if beaten {
                removed.push(self.packages[i].clone());
            } else {
                kept.push(self.packages[i].clone());
            }
            i += 1;
        }
        self.packages = kept;
        proof {
            if old(self).wf() {
                lemma_prune_keeps_one_per_line(s, c);
                lemma_prune_unique(s, c);
                lemma_pruned_upto_membership(s, c, s.len() as int);
                let idx = kept_indices(s, c, s.len() as int);
                assert forall|k: int| 0 <= k < self@.len() implies self@[k].state
                    == PackageState::Installed by {
                    assert(self@[k] == s[idx[k]]);
                    assert(s[idx[k]].state == PackageState::Installed);
                }
            }
        }
        removed
    }
}

} // verus!
