//! The release catalog: one channel store per release channel plus the
//! installed registry, the per-channel merge of remote listings, status
//! tagging against what is installed, and the update counts.

use vstd::prelude::*;

use crate::config::{checks_enabled, Config, ConfigModel};
use crate::installed::{valid_default, Installed};
use crate::package::{channel_of, contains_identity, lemma_identity_trans, models, same_build,
    same_identity, unique_identities, Channel, Package, PackageState, PackageStatus, PkgModel};
use crate::store::ChannelStore;

verus! {

/// Whether every package of the sequence belongs to the given channel.
pub open spec fn channel_ok(s: Seq<PkgModel>, channel: Channel) -> bool {
    forall|i: int| 0 <= i < s.len() ==> channel_of(#[trigger] s[i].build) == channel
}

/// Whether a package counts as an update: its channel's update checking is
/// enabled and some installed package of the same build line is older.
/// Update detection goes by date, never by the version string.
pub open spec fn is_update(p: PkgModel, installed: Seq<PkgModel>, c: ConfigModel) -> bool {
    &&& checks_enabled(c, channel_of(p.build))
    &&& exists|i: int|
        0 <= i < installed.len() && #[trigger] same_build(installed[i], p) && installed[i].date
            < p.date
}

/// The sequence with every entry of the given identity retagged to the
/// given status.
pub open spec fn retag_identity(s: Seq<PkgModel>, p: PkgModel, status: PackageStatus) -> Seq<
    PkgModel,
> {
    Seq::new(
        s.len(),
        |i: int| if same_identity(s[i], p) {
            PkgModel { status: status, ..s[i] }
        } else {
            s[i]
        },
    )
}

/// The status a remote package is tagged with when it is merged into a
/// store: `Update` when an older installed build of its line exists, else
/// `Old` when the store already had it, else `New`.
pub open spec fn merge_status(
    r: PkgModel,
    present: bool,
    installed: Seq<PkgModel>,
    c: ConfigModel,
) -> PackageStatus {
    if is_update(r, installed, c) {
        PackageStatus::Update
    } else if present {
        PackageStatus::Old
    } else {
        PackageStatus::New
    }
}

/// The store after merging the first `n` remote packages: one not yet
/// present is appended in the `Fetched` state, one already present has its
/// entry retagged; either way the status comes from [`merge_status`].
pub open spec fn merged_upto(
    s: Seq<PkgModel>,
    remote: Seq<PkgModel>,
    installed: Seq<PkgModel>,
    c: ConfigModel,
    n: int,
) -> Seq<PkgModel>
    decreases n,
{
    if n <= 0 {
        s
    } else {
        let prev = merged_upto(s, remote, installed, c, n - 1);
        let r = remote[n - 1];
        if contains_identity(prev, r) {
            retag_identity(prev, r, merge_status(r, true, installed, c))
        } else {
            prev.push(
                (PkgModel {
                    status: merge_status(r, false, installed, c),
                    state: PackageState::Fetched,
                    ..r
                }),
            )
        }
    }
}

/// The store after merging a whole remote listing.
pub open spec fn merged(
    s: Seq<PkgModel>,
    remote: Seq<PkgModel>,
    installed: Seq<PkgModel>,
    c: ConfigModel,
) -> Seq<PkgModel> {
    merged_upto(s, remote, installed, c, remote.len() as int)
}

/// The store with every status recomputed against the installed registry:
/// `Update` where [`is_update`] holds, `Old` everywhere else.
pub open spec fn synced_store(
    s: Seq<PkgModel>,
    installed: Seq<PkgModel>,
    c: ConfigModel,
) -> Seq<PkgModel> {
    Seq::new(
        s.len(),
        |i: int| PkgModel {
            status: if is_update(s[i], installed, c) {
                PackageStatus::Update
            } else {
                PackageStatus::Old
            },
            ..s[i]
        },
    )
}

/// How many packages of the sequence are tagged `Update`.
pub open spec fn count_updates_in(s: Seq<PkgModel>) -> nat
    decreases s.len(),
{
    if s.len() == 0 {
        0
    } else {
        count_updates_in(s.drop_last()) + if s.last().status == PackageStatus::Update {
            1nat
        } else {
            0nat
        }
    }
}

/// No more packages are tagged `Update` than there are packages.
pub proof fn lemma_count_le_len(s: Seq<PkgModel>)
    ensures
        count_updates_in(s) <= s.len(),
    decreases s.len(),
{
    if s.len() > 0 {
        lemma_count_le_len(s.drop_last());
    }
}

/// Syncing is idempotent on a store: recomputing the tags of an already
/// recomputed store changes nothing, because the tags themselves never
/// enter the update test.
pub proof fn lemma_sync_idempotent(s: Seq<PkgModel>, installed: Seq<PkgModel>, c: ConfigModel)
    ensures
        synced_store(synced_store(s, installed, c), installed, c) =~= synced_store(
            s,
            installed,
            c,
        ),
        valid_default(valid_default(c.default_package, installed), installed) == valid_default(
            c.default_package,
            installed,
        ),
{
    let once = synced_store(s, installed, c);
    assert forall|i: int| 0 <= i < once.len() implies is_update(once[i], installed, c)
        == is_update(s[i], installed, c) by {
        assert(once[i].build == s[i].build && once[i].date == s[i].date);
        if is_update(s[i], installed, c) {
            let j = choose|j: int|
                0 <= j < installed.len() && #[trigger] same_build(installed[j], s[i])
                    && installed[j].date < s[i].date;
            assert(same_build(installed[j], once[i]));
        }
        if is_update(once[i], installed, c) {
            let j = choose|j: int|
                0 <= j < installed.len() && #[trigger] same_build(installed[j], once[i])
                    && installed[j].date < once[i].date;
            assert(same_build(installed[j], s[i]));
        }
    }
}

/// Whether a package counts as an update against the installed registry
/// under the current settings.
pub fn is_update_check(package: &Package, installed: &Installed, config: &Config) -> (r: bool)
    ensures
        r == is_update(package@, installed@, config@),
{
    if !config.checks_enabled(package.build.channel()) {
        return false;
    }
    let n = installed.len();
    let mut i: usize = 0;
    while i < n
        invariant
            n == installed@.len(),
            i <= n,
            checks_enabled(config@, channel_of(package@.build)),
            forall|j: int|
                0 <= j < i ==> !(#[trigger] same_build(installed@[j], package@) && installed@[
                j].date < package@.date),
        decreases n - i,
    {
        let q = installed.get(i);
        if q.build == package.build && q.date < package.date {
            assert(same_build(installed@[i as int], package@) && installed@[i as int].date
                < package@.date);
            assert(is_update(package@, installed@, config@));
            return true;
        }
        i += 1;
    }
    false
}

/// Merge a remote listing into one channel's store: a package not yet there
/// is appended in the `Fetched` state, a package already there is retagged;
/// the status of either says whether it is an update, newly seen, or old.
/// Reports whether anything was inserted.
fn merge_channel_store(
    store: &mut ChannelStore,
    remote: &Vec<Package>,
    installed: &Installed,
    config: &Config,
) -> (changed: bool)
    requires
        unique_identities(old(store)@),
    ensures
        final(store)@ =~= merged(old(store)@, models(remote@), installed@, config@),
        changed == (final(store)@.len() != old(store)@.len()),
        unique_identities(final(store)@),
        forall|ch: Channel|
            channel_ok(old(store)@, ch) && channel_ok(models(remote@), ch) ==> channel_ok(
                final(store)@,
                ch,
            ),
{
    let ghost s0 = store@;
    let ghost rem = models(remote@);
    let n0 = store.len();
    let n = remote.len();
    let mut k: usize = 0;
    while k < n
        invariant
            n == remote@.len(),
            rem == models(remote@),
            k <= n,
            store@ =~= merged_upto(s0, rem, installed@, config@, k as int),
            store@.len() >= s0.len(),
            unique_identities(store@),
            forall|ch: Channel|
                channel_ok(s0, ch) && channel_ok(rem, ch) ==> channel_ok(store@, ch),
        decreases n - k,
    {
        let ghost prev = store@;
        let r = &remote[k];
        assert(r@ == rem[k as int]);
        let upd = is_update_check(r, installed, config);
        match store.find_identity(r) {
            Some(i) => {
                let status = if upd {
                    PackageStatus::Update
                } else {
                    PackageStatus::Old
                };
                store.set_status(i, status);
                assert forall|j: int| 0 <= j < prev.len() implies store@[j] == retag_identity(
                    prev,
                    rem[k as int],
                    merge_status(rem[k as int], true, installed@, config@),
                )[j] by {
                    if j != i && same_identity(prev[j], rem[k as int]) {
                        lemma_identity_trans(prev[i as int], prev[j], rem[k as int]);
                        assert(false);
                    }
                }
                assert(store@ =~= retag_identity(
                    prev,
                    rem[k as int],
                    merge_status(rem[k as int], true, installed@, config@),
                ));
                assert forall|a: int, b: int| 0 <= a < b < store@.len() implies !same_identity(
                    store@[a],
                    store@[b],
                ) by {
                    assert(store@[a].build == prev[a].build && store@[a].version
                        == prev[a].version && store@[a].date == prev[a].date);
                    assert(store@[b].build == prev[b].build && store@[b].version
                        == prev[b].version && store@[b].date == prev[b].date);
                    assert(!same_identity(prev[a], prev[b]));
                }
            },
            None => {
                let mut fresh = r.clone();
                fresh.status = if upd {
                    PackageStatus::Update
                } else {
                    PackageStatus::New
                };
                fresh.state = PackageState::Fetched;
                store.push(fresh);
                assert(store@ =~= prev.push(
                    (PkgModel {
                        status: merge_status(rem[k as int], false, installed@, config@),
                        state: PackageState::Fetched,
                        ..rem[k as int]
                    }),
                ));
                assert forall|a: int, b: int| 0 <= a < b < store@.len() implies !same_identity(
                    store@[a],
                    store@[b],
                ) by {
                    if b == store@.len() - 1 {
                        if same_identity(store@[a], store@[b]) {
                            assert(same_identity(prev[a], rem[k as int]));
                            assert(contains_identity(prev, rem[k as int]));
                        }
                    }
                }
            },
        }
        k += 1;
    }
    assert(store@ =~= merged(s0, rem, installed@, config@));
    store.len() != n0
}

/// Recomputing statuses never adds or drops an identity.
pub proof fn lemma_synced_contains(
    s: Seq<PkgModel>,
    installed: Seq<PkgModel>,
    c: ConfigModel,
    p: PkgModel,
)
    ensures
        contains_identity(synced_store(s, installed, c), p) == contains_identity(s, p),
{
    let t = synced_store(s, installed, c);
    if contains_identity(s, p) {
        let i = choose|i: int| 0 <= i < s.len() && same_identity(s[i], p);
        assert(t[i].build == s[i].build && t[i].version == s[i].version && t[i].date
            == s[i].date);
        assert(same_identity(t[i], p));
    }
    if contains_identity(t, p) {
        let i = choose|i: int| 0 <= i < t.len() && same_identity(t[i], p);
        assert(t[i].build == s[i].build && t[i].version == s[i].version && t[i].date
            == s[i].date);
        assert(same_identity(s[i], p));
    }
}

/// Which packages count as updates depends on the per-channel flags and
/// the installed registry alone, never on which package is the default.
pub proof fn lemma_synced_store_ignores_default(
    s: Seq<PkgModel>,
    installed: Seq<PkgModel>,
    c1: ConfigModel,
    c2: ConfigModel,
)
    requires
        forall|ch: Channel| checks_enabled(c1, ch) == checks_enabled(c2, ch),
    ensures
        synced_store(s, installed, c1) =~= synced_store(s, installed, c2),
{
    assert forall|i: int| 0 <= i < s.len() implies is_update(s[i], installed, c1) == is_update(
        s[i],
        installed,
        c2,
    ) by {
        assert(checks_enabled(c1, channel_of(s[i].build)) == checks_enabled(
            c2,
            channel_of(s[i].build),
        ));
    }
}

/// Recomputing statuses touches nothing but the status field, so it keeps
/// identities unique and channels homogeneous.
proof fn lemma_synced_preserves(s: Seq<PkgModel>, installed: Seq<PkgModel>, c: ConfigModel)
    ensures
        unique_identities(s) ==> unique_identities(synced_store(s, installed, c)),
        forall|ch: Channel|
            channel_ok(s, ch) ==> channel_ok(synced_store(s, installed, c), ch),
{
    let t = synced_store(s, installed, c);
    if unique_identities(s) {
        assert forall|a: int, b: int| 0 <= a < b < t.len() implies !same_identity(
            t[a],
            t[b],
        ) by {
            assert(t[a].build == s[a].build && t[a].version == s[a].version && t[a].date
                == s[a].date);
            assert(t[b].build == s[b].build && t[b].version == s[b].version && t[b].date
                == s[b].date);
            assert(!same_identity(s[a], s[b]));
        }
    }
    assert forall|ch: Channel| channel_ok(s, ch) implies channel_ok(t, ch) by {
        assert forall|i: int| 0 <= i < t.len() implies channel_of(#[trigger] t[i].build)
            == ch by {
            assert(t[i].build == s[i].build);
            assert(channel_of(s[i].build) == ch);
        }
    }
}

/// Recompute every status of one store against the installed registry.
fn sync_store(store: &mut ChannelStore, installed: &Installed, config: &Config)
    ensures
        final(store)@ =~= synced_store(old(store)@, installed@, config@),
{
    let n = store.len();
    let mut i: usize = 0;
    while i < n
        invariant
            n == old(store)@.len(),
            i <= n,
            store@.len() == n,
            forall|j: int| i <= j < n ==> store@[j] == old(store)@[j],
            forall|j: int|
                0 <= j < i ==> store@[j] == synced_store(old(store)@, installed@, config@)[j],
        decreases n - i,
    {
        let upd = is_update_check(store.get(i), installed, config);
        let status = if upd {
            PackageStatus::Update
        } else {
            PackageStatus::Old
        };
        store.set_status(i, status);
        i += 1;
    }
}

/// Count the packages of one store that are tagged `Update`.
fn count_store(store: &ChannelStore) -> (r: usize)
    ensures
        r == count_updates_in(store@),
{
    let n = store.len();
    let mut r: usize = 0;
    let mut i: usize = 0;
    while i < n
        invariant
            n == store@.len(),
            i <= n,
            r <= i,
            r == count_updates_in(store@.take(i as int)),
        decreases n - i,
    {
        assert(store@.take(i + 1).drop_last() =~= store@.take(i as int));
        assert(store@.take(i + 1).last() == store@[i as int]);
        let is_upd = match store.get(i).status {
            PackageStatus::Update => true,
            _ => false,
        };
        if is_upd {
            r += 1;
        }
        i += 1;
    }
    assert(store@.take(n as int) =~= store@);
    r
}

/// The release catalog: one store per release channel plus the installed
/// registry. It is the single source of truth for what builds exist, what
/// is installed, and what needs updating.
#[derive(Debug)]
pub struct Releases {
    pub daily: ChannelStore,
    pub branched: ChannelStore,
    pub stable: ChannelStore,
    pub lts: ChannelStore,
    pub archived: ChannelStore,
    pub installed: Installed,
}

/// Mathematical shape of the catalog.
pub struct RelModel {
    pub daily: Seq<PkgModel>,
    pub branched: Seq<PkgModel>,
    pub stable: Seq<PkgModel>,
    pub lts: Seq<PkgModel>,
    pub archived: Seq<PkgModel>,
    pub installed: Seq<PkgModel>,
}

impl View for Releases {
    type V = RelModel;

    open spec fn view(&self) -> RelModel {
        RelModel {
            daily: self.daily@,
            branched: self.branched@,
            stable: self.stable@,
            lts: self.lts@,
            archived: self.archived@,
            installed: self.installed@,
        }
    }
}

/// The channel store of the catalog that serves one channel.
pub open spec fn store_of(m: RelModel, channel: Channel) -> Seq<PkgModel> {
    match channel {
        Channel::Daily => m.daily,
        Channel::Branched => m.branched,
        Channel::Stable => m.stable,
        Channel::Lts => m.lts,
        Channel::Archived => m.archived,
    }
}

impl Releases {
    /// The catalog is well formed: every store holds only its own channel's
    /// builds with no identity twice, and the installed registry is well
    /// formed. A consequence is that a logical package appears in at most
    /// one non-installed store.
    pub open spec fn wf(&self) -> bool {
        &&& unique_identities(self@.daily) && channel_ok(self@.daily, Channel::Daily)
        &&& unique_identities(self@.branched) && channel_ok(self@.branched, Channel::Branched)
        &&& unique_identities(self@.stable) && channel_ok(self@.stable, Channel::Stable)
        &&& unique_identities(self@.lts) && channel_ok(self@.lts, Channel::Lts)
        &&& unique_identities(self@.archived) && channel_ok(self@.archived, Channel::Archived)
        &&& self.installed.wf()
    }

    /// An empty catalog.
    pub fn new() -> (r: Releases)
        ensures
            r@.daily =~= Seq::<PkgModel>::empty(),
            r@.branched =~= Seq::<PkgModel>::empty(),
            r@.stable =~= Seq::<PkgModel>::empty(),
            r@.lts =~= Seq::<PkgModel>::empty(),
            r@.archived =~= Seq::<PkgModel>::empty(),
            r@.installed =~= Seq::<PkgModel>::empty(),
            r.wf(),
    {
        Releases {
            daily: ChannelStore::new(),
            branched: ChannelStore::new(),
            stable: ChannelStore::new(),
            lts: ChannelStore::new(),
            archived: ChannelStore::new(),
            installed: Installed::new(),
        }
    }

    /// Merge a remote listing into the store of one channel, tagging each
    /// remote package's status against the installed registry. The other
    /// stores and the registry stay untouched. Reports whether anything was
    /// inserted.
    pub fn check_channel_updates(
        &mut self,
        channel: Channel,
        remote: &Vec<Package>,
        config: &Config,
    ) -> (changed: bool)
        requires
            old(self).wf(),
            channel_ok(models(remote@), channel),
        ensures
            store_of(final(self)@, channel) =~= merged(
                store_of(old(self)@, channel),
                models(remote@),
                old(self)@.installed,
                config@,
            ),
            forall|ch: Channel|
                ch != channel ==> store_of(final(self)@, ch) == store_of(old(self)@, ch),
            final(self)@.installed == old(self)@.installed,
            changed == (store_of(final(self)@, channel).len() != store_of(
                old(self)@,
                channel,
            ).len()),
            final(self).wf(),
    {
        match channel {
            Channel::Daily => merge_channel_store(
                &mut self.daily,
                remote,
                &self.installed,
                config,
            ),
            Channel::Branched => merge_channel_store(
                &mut self.branched,
                remote,
                &self.installed,
                config,
            ),
            Channel::Stable => merge_channel_store(
                &mut self.stable,
                remote,
                &self.installed,
                config,
            ),
            Channel::Lts => merge_channel_store(&mut self.lts, remote, &self.installed, config),
            Channel::Archived => merge_channel_store(
                &mut self.archived,
                remote,
                &self.installed,
                config,
            ),
        }
    }

    /// Merge the remote listings of the four channels with an update
    /// cadence, as the catalog-wide check-for-updates does. Reports whether
    /// anything was inserted anywhere.
    pub fn check_updates(
        &mut self,
        remote_daily: &Vec<Package>,
        remote_branched: &Vec<Package>,
        remote_stable: &Vec<Package>,
        remote_lts: &Vec<Package>,
        config: &Config,
    ) -> (changed: bool)
        requires
            old(self).wf(),
            channel_ok(models(remote_daily@), Channel::Daily),
            channel_ok(models(remote_branched@), Channel::Branched),
            channel_ok(models(remote_stable@), Channel::Stable),
            channel_ok(models(remote_lts@), Channel::Lts),
        ensures
            final(self)@.daily =~= merged(
                old(self)@.daily,
                models(remote_daily@),
                old(self)@.installed,
                config@,
            ),
            final(self)@.branched =~= merged(
                old(self)@.branched,
                models(remote_branched@),
                old(self)@.installed,
                config@,
            ),
            final(self)@.stable =~= merged(
                old(self)@.stable,
                models(remote_stable@),
                old(self)@.installed,
                config@,
            ),
            final(self)@.lts =~= merged(
                old(self)@.lts,
                models(remote_lts@),
                old(self)@.installed,
                config@,
            ),
            final(self)@.archived == old(self)@.archived,
            final(self)@.installed == old(self)@.installed,
            changed == (final(self)@.daily.len() != old(self)@.daily.len()
                || final(self)@.branched.len() != old(self)@.branched.len()
                || final(self)@.stable.len() != old(self)@.stable.len()
                || final(self)@.lts.len() != old(self)@.lts.len()),
            final(self).wf(),
    {
        let ghost m0 = self@;
        let changed_daily = self.check_channel_updates(Channel::Daily, remote_daily, config);
        proof {
            assert(store_of(self@, Channel::Branched) == store_of(m0, Channel::Branched));
            assert(store_of(self@, Channel::Stable) == store_of(m0, Channel::Stable));
            assert(store_of(self@, Channel::Lts) == store_of(m0, Channel::Lts));
            assert(store_of(self@, Channel::Archived) == store_of(m0, Channel::Archived));
        }
        let ghost m1 = self@;
        let changed_branched = self.check_channel_updates(
            Channel::Branched,
            remote_branched,
            config,
        );
        proof {
            assert(store_of(self@, Channel::Daily) == store_of(m1, Channel::Daily));
            assert(store_of(self@, Channel::Stable) == store_of(m1, Channel::Stable));
            assert(store_of(self@, Channel::Lts) == store_of(m1, Channel::Lts));
            assert(store_of(self@, Channel::Archived) == store_of(m1, Channel::Archived));
        }
        let ghost m2 = self@;
        let changed_stable = self.check_channel_updates(Channel::Stable, remote_stable, config);
        proof {
            assert(store_of(self@, Channel::Daily) == store_of(m2, Channel::Daily));
            assert(store_of(self@, Channel::Branched) == store_of(m2, Channel::Branched));
            assert(store_of(self@, Channel::Lts) == store_of(m2, Channel::Lts));
            assert(store_of(self@, Channel::Archived) == store_of(m2, Channel::Archived));
        }
        let ghost m3 = self@;
        let changed_lts = self.check_channel_updates(Channel::Lts, remote_lts, config);
        proof {
            assert(store_of(self@, Channel::Daily) == store_of(m3, Channel::Daily));
            assert(store_of(self@, Channel::Branched) == store_of(m3, Channel::Branched));
            assert(store_of(self@, Channel::Stable) == store_of(m3, Channel::Stable));
            assert(store_of(self@, Channel::Archived) == store_of(m3, Channel::Archived));
        }
        changed_daily || changed_branched || changed_stable || changed_lts
    }

    /// Recompute every status tag across all channels against the current
    /// installed registry, and clear the default package if it is no longer
    /// installed. Idempotent: a second call with nothing changed in between
    /// retags identically (see [`lemma_sync_idempotent`]).
    pub fn sync(&mut self, config: &mut Config)
        requires
            old(self).wf(),
        ensures
            final(self)@.daily =~= synced_store(
                old(self)@.daily,
                old(self)@.installed,
                old(config)@,
            ),
            final(self)@.branched =~= synced_store(
                old(self)@.branched,
                old(self)@.installed,
                old(config)@,
            ),
            final(self)@.stable =~= synced_store(
                old(self)@.stable,
                old(self)@.installed,
                old(config)@,
            ),
            final(self)@.lts =~= synced_store(
                old(self)@.lts,
                old(self)@.installed,
                old(config)@,
            ),
            final(self)@.archived =~= synced_store(
                old(self)@.archived,
                old(self)@.installed,
                old(config)@,
            ),
            final(self)@.installed == old(self)@.installed,
            final(config)@ == (ConfigModel {
                default_package: valid_default(
                    old(config)@.default_package,
                    old(self)@.installed,
                ),
                ..old(config)@
            }),
            final(self).wf(),
    {
        sync_store(&mut self.daily, &self.installed, config);
        sync_store(&mut self.branched, &self.installed, config);
        sync_store(&mut self.stable, &self.installed, config);
        sync_store(&mut self.lts, &self.installed, config);
        sync_store(&mut self.archived, &self.installed, config);
        self.installed.update_default(config);
        proof {
            lemma_synced_preserves(old(self)@.daily, old(self)@.installed, old(config)@);
            lemma_synced_preserves(old(self)@.branched, old(self)@.installed, old(config)@);
            lemma_synced_preserves(old(self)@.stable, old(self)@.installed, old(config)@);
            lemma_synced_preserves(old(self)@.lts, old(self)@.installed, old(config)@);
            lemma_synced_preserves(old(self)@.archived, old(self)@.installed, old(config)@);
        }
    }

    /// Put back the four stores a catalog-wide update check took out, then
    /// recompute every status tag.
    pub fn add_new_packages(
        &mut self,
        daily: ChannelStore,
        branched: ChannelStore,
        stable: ChannelStore,
        lts: ChannelStore,
        config: &mut Config,
    )
        requires
            old(self).wf(),
            unique_identities(daily@),
            channel_ok(daily@, Channel::Daily),
            unique_identities(branched@),
            channel_ok(branched@, Channel::Branched),
            unique_identities(stable@),
            channel_ok(stable@, Channel::Stable),
            unique_identities(lts@),
            channel_ok(lts@, Channel::Lts),
        ensures
            final(self)@.daily =~= synced_store(daily@, old(self)@.installed, old(config)@),
            final(self)@.branched =~= synced_store(
                branched@,
                old(self)@.installed,
                old(config)@,
            ),
            final(self)@.stable =~= synced_store(stable@, old(self)@.installed, old(config)@),
            final(self)@.lts =~= synced_store(lts@, old(self)@.installed, old(config)@),
            final(self)@.archived =~= synced_store(
                old(self)@.archived,
                old(self)@.installed,
                old(config)@,
            ),
            final(self)@.installed == old(self)@.installed,
            final(config)@ == (ConfigModel {
                default_package: valid_default(
                    old(config)@.default_package,
                    old(self)@.installed,
                ),
                ..old(config)@
            }),
            final(self).wf(),
    {
        self.daily = daily;
        self.branched = branched;
        self.stable = stable;
        self.lts = lts;
        self.sync(config);
    }

    /// Remove the package of the given identity from the store of its own
    /// channel, if it is there. Other stores and the installed registry are
    /// untouched.
    pub fn remove_package(&mut self, package: &Package) -> (removed: bool)
        requires
            old(self).wf(),
        ensures
            removed == contains_identity(
                store_of(old(self)@, channel_of(package@.build)),
                package@,
            ),
            !contains_identity(store_of(final(self)@, channel_of(package@.build)), package@),
            removed ==> exists|i: int|
                0 <= i < store_of(old(self)@, channel_of(package@.build)).len()
                    && same_identity(
                    store_of(old(self)@, channel_of(package@.build))[i],
                    package@,
                ) && store_of(final(self)@, channel_of(package@.build)) =~= store_of(
                    old(self)@,
                    channel_of(package@.build),
                ).remove(i),
            !removed ==> store_of(final(self)@, channel_of(package@.build)) == store_of(
                old(self)@,
                channel_of(package@.build),
            ),
            forall|ch: Channel|
                ch != channel_of(package@.build) ==> store_of(final(self)@, ch) == store_of(
                    old(self)@,
                    ch,
                ),
            final(self)@.installed == old(self)@.installed,
            final(self).wf(),
    {
        let ghost ch = channel_of(package@.build);
        let ghost pre = store_of(self@, ch);
        let removed = match package.build.channel() {
            Channel::Daily => self.daily.remove_by_identity(package),
            Channel::Branched => self.branched.remove_by_identity(package),
            Channel::Stable => self.stable.remove_by_identity(package),
            Channel::Lts => self.lts.remove_by_identity(package),
            Channel::Archived => self.archived.remove_by_identity(package),
        };
        proof {
            let post = store_of(self@, ch);
            if removed {
                let i = choose|i: int|
                    0 <= i < pre.len() && same_identity(pre[i], package@) && post =~= pre.remove(
                        i,
                    );
                assert forall|j: int| 0 <= j < post.len() implies channel_of(
                    #[trigger] post[j].build,
                ) == ch by {
                    if j < i {
                        assert(post[j] == pre[j]);
                    } else {
                        assert(post[j] == pre[j + 1]);
                    }
                }
            }
        }
        removed
    }

    /// How many updates each channel with an update cadence offers, and in
    /// total. A channel's count is `None` while its update checking is
    /// disabled; the total is `None` when every such channel is disabled,
    /// else the sum over the enabled ones.
    pub fn count_updates(&self, config: &Config) -> (counts: (
        Option<usize>,
        Option<usize>,
        Option<usize>,
        Option<usize>,
        Option<usize>,
    ))
        requires
            self@.daily.len() + self@.branched.len() + self@.stable.len() + self@.lts.len()
                <= usize::MAX,
        ensures
            counts.1 == (if config@.update_daily {
                Some(count_updates_in(self@.daily) as usize)
            } else {
                None::<usize>
            }),
            counts.2 == (if config@.update_branched {
                Some(count_updates_in(self@.branched) as usize)
            } else {
                None::<usize>
            }),
            counts.3 == (if config@.update_stable {
                Some(count_updates_in(self@.stable) as usize)
            } else {
                None::<usize>
            }),
            counts.4 == (if config@.update_lts {
                Some(count_updates_in(self@.lts) as usize)
            } else {
                None::<usize>
            }),
            counts.0 == (if config@.update_daily || config@.update_branched
                || config@.update_stable || config@.update_lts {
                Some(
                    ((if config@.update_daily {
                        count_updates_in(self@.daily)
                    } else {
                        0
                    }) + (if config@.update_branched {
                        count_updates_in(self@.branched)
                    } else {
                        0
                    }) + (if config@.update_stable {
                        count_updates_in(self@.stable)
                    } else {
                        0
                    }) + (if config@.update_lts {
                        count_updates_in(self@.lts)
                    } else {
                        0
                    })) as usize,
                )
            } else {
                None::<usize>
            }),
    {
        proof {
            lemma_count_le_len(self@.daily);
            lemma_count_le_len(self@.branched);
            lemma_count_le_len(self@.stable);
            lemma_count_le_len(self@.lts);
        }
        let daily_count: usize = if config.update_daily {
            count_store(&self.daily)
        } else {
            0
        };
        let branched_count: usize = if config.update_branched {
            count_store(&self.branched)
        } else {
            0
        };
        let stable_count: usize = if config.update_stable {
            count_store(&self.stable)
        } else {
            0
        };
        let lts_count: usize = if config.update_lts {
            count_store(&self.lts)
        } else {
            0
        };
        let any = config.update_daily || config.update_branched || config.update_stable
            || config.update_lts;
        let total = if any {
            Some(daily_count + branched_count + stable_count + lts_count)
        } else {
            None
        };
        (
            total,
            if config.update_daily {
                Some(daily_count)
            } else {
                None
            },
            if config.update_branched {
                Some(branched_count)
            } else {
                None
            },
            if config.update_stable {
                Some(stable_count)
            } else {
                None
            },
            if config.update_lts {
                Some(lts_count)
            } else {
                None
            },
        )
    }
}

} // verus!

