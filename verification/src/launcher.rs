//! The launcher's core state: the release catalog, the file a build may be
//! asked to open, and the queue of packages with an install pipeline in
//! flight — at most one pipeline per package identity.

use vstd::prelude::*;

use crate::catalog::{lemma_synced_contains, store_of, synced_store, Releases};
use crate::config::{Config, ConfigModel};
use crate::installed::{pruned, pruned_away, valid_default, with_installed_state};
use crate::package::{channel_of, contains_identity, models, same_identity, unique_identities,
    Channel, Package, PkgModel};
use crate::pipeline::{install_refusal, refusal_of, PolicyRefusal};
use crate::store::ChannelStore;

verus! {

/// What the launcher starts from: the catalog loaded from the local
/// records, and the file it was asked to open, if any.
#[derive(Debug)]
pub struct GuiFlags {
    pub releases: Releases,
    pub file_path: Option<String>,
}

/// The answer of the policy gate to an install request.
#[derive(Clone, Copy, Debug, PartialEq, Eq, Structural)]
pub enum InstallDecision {
    /// The policy lets the request through: probe availability next.
    Proceed,
    /// The request was refused; the wording names the keep-only-latest setting.
    Refused(PolicyRefusal),
}

/// What came of an availability probe's answer.
#[derive(Clone, Copy, Debug, PartialEq, Eq, Structural)]
pub enum AvailabilityOutcome {
    /// The artifact exists and the probe guarded an install: start it.
    StartInstall,
    /// The artifact exists; the catalog's tags were recomputed.
    Resynced,
    /// The artifact is gone; its package was dropped from its channel, and
    /// the user, who asked to install it, must be told.
    RemovedWithNotice,
    /// The artifact is gone; its package was dropped from its channel
    /// during a routine recheck.
    RemovedQuietly,
}

/// The install queue after asking to install a package: a second request
/// for an identity already in flight is dropped.
pub open spec fn queue_after(q: Seq<PkgModel>, p: PkgModel) -> Seq<PkgModel> {
    if contains_identity(q, p) {
        q
    } else {
        q.push(p)
    }
}

/// How many entries of the queue share the given identity.
pub open spec fn count_identity(s: Seq<PkgModel>, p: PkgModel) -> nat
    decreases s.len(),
{
    if s.len() == 0 {
        0
    } else {
        count_identity(s.drop_last(), p) + if same_identity(s.last(), p) {
            1nat
        } else {
            0nat
        }
    }
}

/// A queue holds no entry of an identity exactly when its count is zero,
/// and a duplicate-free queue holds an identity it contains exactly once.
pub proof fn lemma_count_identity_props(s: Seq<PkgModel>, p: PkgModel)
    ensures
        (count_identity(s, p) == 0) <==> !contains_identity(s, p),
        unique_identities(s) && contains_identity(s, p) ==> count_identity(s, p) == 1,
    decreases s.len(),
{
    if s.len() > 0 {
        let rest = s.drop_last();
        assert(unique_identities(s) ==> unique_identities(rest));
        lemma_count_identity_props(rest, p);
        if contains_identity(s, p) {
            let i = choose|i: int| 0 <= i < s.len() && same_identity(s[i], p);
            if i < s.len() - 1 {
                assert(rest[i] == s[i]);
                assert(contains_identity(rest, p));
            }
        }
        if contains_identity(rest, p) {
            let i = choose|i: int| 0 <= i < rest.len() && same_identity(rest[i], p);
            assert(s[i] == rest[i]);
            assert(contains_identity(s, p));
        }
        if unique_identities(s) && contains_identity(s, p) && same_identity(s.last(), p) {
            if contains_identity(rest, p) {
                let i = choose|i: int| 0 <= i < rest.len() && same_identity(rest[i], p);
                crate::package::lemma_identity_trans(s[i], s.last(), p);
                assert(false);
            }
        }
    }
}

/// Asking twice to install the same package leaves the queue exactly as
/// one request left it, with a single pipeline entry for that identity:
/// the second request is dropped, never run beside the first.
pub proof fn lemma_at_most_one_pipeline(q: Seq<PkgModel>, p: PkgModel)
    requires
        unique_identities(q),
    ensures
        queue_after(queue_after(q, p), p) == queue_after(q, p),
        count_identity(queue_after(queue_after(q, p), p), p) == 1,
{
    if contains_identity(q, p) {
        lemma_count_identity_props(q, p);
    } else {
        let q1 = q.push(p);
        assert(same_identity(q1[q.len() as int], p));
        assert(contains_identity(q1, p));
        assert(q1.drop_last() =~= q);
        lemma_count_identity_props(q, p);
        assert(count_identity(q1, p) == 1);
    }
}

/// The launcher's core state.
#[derive(Debug)]
pub struct Launcher {
    pub releases: Releases,
    pub file_path: Option<String>,
    /// The packages with an install pipeline in flight, one entry per
    /// identity.
    pub installing: ChannelStore,
}

impl Launcher {
    /// The state is well formed: the catalog is, and no identity has two
    /// pipelines in flight.
    pub open spec fn wf(&self) -> bool {
        self.releases.wf() && unique_identities(self.installing@)
    }

    /// Start from the loaded catalog, clearing a default package that is no
    /// longer installed.
    pub fn new(flags: GuiFlags, config: &mut Config) -> (r: Launcher)
        requires
            flags.releases.wf(),
        ensures
            r.releases@ == flags.releases@,
            r.file_path == flags.file_path,
            r.installing@ =~= Seq::<PkgModel>::empty(),
            r.wf(),
            final(config)@ == (ConfigModel {
                default_package: valid_default(
                    old(config)@.default_package,
                    flags.releases@.installed,
                ),
                ..old(config)@
            }),
    {
        flags.releases.installed.update_default(config);
        Launcher {
            releases: flags.releases,
            file_path: flags.file_path,
            installing: ChannelStore::new(),
        }
    }

    /// Hold an install request against the keep-only-latest policy gate.
    /// Nothing changes here: a refusal never touches the catalog, and the
    /// package never leaves its present state.
    pub fn try_to_install(&self, package: &Package, config: &Config) -> (d: InstallDecision)
        ensures
            d == (match refusal_of(package@, self.releases@.installed, config@) {
                Some(r) => InstallDecision::Refused(r),
                None => InstallDecision::Proceed,
            }),
    {
        match install_refusal(package, &self.releases.installed, config) {
            Some(r) => InstallDecision::Refused(r),
            None => InstallDecision::Proceed,
        }
    }

    /// Take in what an availability probe of the package's url answered.
    /// An artifact that exists either lets the install go ahead or ends a
    /// routine recheck with freshly computed tags; one that is gone has its
    /// package removed from its channel store before the tags are
    /// recomputed, so the catalog no longer offers it.
    pub fn handle_availability(
        &mut self,
        available: bool,
        for_install: bool,
        package: &Package,
        config: &mut Config,
    ) -> (o: AvailabilityOutcome)
        requires
            old(self).wf(),
        ensures
            final(self).wf(),
            final(self).installing == old(self).installing,
            final(self).file_path == old(self).file_path,
            available && for_install ==> o == AvailabilityOutcome::StartInstall && final(self).releases@ == old(self).releases@ && final(config)@ == old(config)@,
            available && !for_install ==> o == AvailabilityOutcome::Resynced && (forall|
                ch: Channel,
            |
                store_of(final(self).releases@, ch) =~= synced_store(
                    store_of(old(self).releases@, ch),
                    old(self).releases@.installed,
                    old(config)@,
                )) && final(self).releases@.installed == old(self).releases@.installed && final(config)@ == (ConfigModel {
                default_package: valid_default(
                    old(config)@.default_package,
                    old(self).releases@.installed,
                ),
                ..old(config)@
            }),
            !available ==> o == (if for_install {
                AvailabilityOutcome::RemovedWithNotice
            } else {
                AvailabilityOutcome::RemovedQuietly
            }) && !contains_identity(
                store_of(final(self).releases@, channel_of(package@.build)),
                package@,
            ) && (forall|ch: Channel|
                ch != channel_of(package@.build) ==> store_of(final(self).releases@, ch)
                    =~= synced_store(
                    store_of(old(self).releases@, ch),
                    old(self).releases@.installed,
                    old(config)@,
                )) && final(self).releases@.installed == old(self).releases@.installed && final(config)@ == (ConfigModel {
                default_package: valid_default(
                    old(config)@.default_package,
                    old(self).releases@.installed,
                ),
                ..old(config)@
            }),
    {
        if available {
            if for_install {
                AvailabilityOutcome::StartInstall
            } else {
                self.releases.sync(config);
                AvailabilityOutcome::Resynced
            }
        } else {
            let ghost ch = channel_of(package@.build);
            let ghost pre = self.releases@;
            self.releases.remove_package(package);
            let ghost mid = self.releases@;
            self.releases.sync(config);
            proof {
                lemma_synced_contains(store_of(mid, ch), mid.installed, old(config)@, package@);
                assert(store_of(self.releases@, ch) =~= synced_store(
                    store_of(mid, ch),
                    mid.installed,
                    old(config)@,
                ));
                assert forall|ch2: Channel| ch2 != ch implies store_of(
                    self.releases@,
                    ch2,
                ) =~= synced_store(store_of(pre, ch2), pre.installed, old(config)@) by {
                    assert(store_of(mid, ch2) == store_of(pre, ch2));
                }
            }
            if for_install {
                AvailabilityOutcome::RemovedWithNotice
            } else {
                AvailabilityOutcome::RemovedQuietly
            }
        }
    }

    /// Enter a package into the install queue, unless a pipeline for its
    /// identity is already in flight: then nothing starts and nothing
    /// changes. This is the at-most-one-pipeline-per-identity gate.
    pub fn start_install(&mut self, package: &Package) -> (started: bool)
        requires
            old(self).wf(),
        ensures
            started == !contains_identity(old(self).installing@, package@),
            final(self).installing@ =~= queue_after(old(self).installing@, package@),
            final(self).releases == old(self).releases,
            final(self).file_path == old(self).file_path,
            final(self).wf(),
    {
        if self.installing.contains(package) {
            return false;
        }
        let ghost pre = self.installing@;
        self.installing.push(package.clone());
        assert forall|a: int, b: int| 0 <= a < b < self.installing@.len() implies !same_identity(
            self.installing@[a],
            self.installing@[b],
        ) by {
            if b == self.installing@.len() - 1 {
                if same_identity(self.installing@[a], self.installing@[b]) {
                    assert(same_identity(pre[a], package@));
                    assert(contains_identity(pre, package@));
                }
            }
        }
        true
    }

    /// Finish one pipeline: drop its queue entry, rebuild the installed
    /// registry from a fresh rescan of the installation root, revalidate
    /// the default package, prune the builds the keep-only-latest policy
    /// supersedes, and recompute every status tag. The pruned packages are
    /// handed back so the caller can delete their installation
    /// directories.
    pub fn package_installed(
        &mut self,
        package: &Package,
        scanned: &Vec<Package>,
        config: &mut Config,
    ) -> (removed: Vec<Package>)
        requires
            old(self).wf(),
            unique_identities(models(scanned@)),
        ensures
            !contains_identity(final(self).installing@, package@),
            final(self).releases@.installed =~= pruned(
                with_installed_state(models(scanned@)),
                old(config)@,
            ),
            models(removed@) =~= pruned_away(with_installed_state(models(scanned@)), old(
                config,
            )@),
            forall|ch: Channel|
                store_of(final(self).releases@, ch) =~= synced_store(
                    store_of(old(self).releases@, ch),
                    pruned(with_installed_state(models(scanned@)), old(config)@),
                    old(config)@,
                ),
            final(config)@ == (ConfigModel {
                default_package: valid_default(
                    valid_default(
                        old(config)@.default_package,
                        with_installed_state(models(scanned@)),
                    ),
                    pruned(with_installed_state(models(scanned@)), old(config)@),
                ),
                ..old(config)@
            }),
            final(self).file_path == old(self).file_path,
            final(self).wf(),
    {
        self.installing.remove_by_identity(package);
        self.releases.installed.refresh_from_scan(scanned);
        self.releases.installed.update_default(config);
        let ghost mid_config = config@;
        let removed = self.releases.installed.remove_old_packages(config);
        self.releases.sync(config);
        proof {
            crate::installed::lemma_pruned_ignores_default(
                with_installed_state(models(scanned@)),
                mid_config,
                old(config)@,
            );
            let registry = pruned(with_installed_state(models(scanned@)), old(config)@);
            assert forall|ch: Channel| #[trigger] store_of(
                self.releases@,
                ch,
            ) =~= synced_store(store_of(old(self).releases@, ch), registry, old(config)@) by {
                crate::catalog::lemma_synced_store_ignores_default(
                    store_of(old(self).releases@, ch),
                    registry,
                    mid_config,
                    old(config)@,
                );
            }
        }
        removed
    }
}

} // verus!
