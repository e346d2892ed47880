//! Channel stores: an ordered collection of packages with identity-based
//! lookup and removal, kept once per release channel and once for the
//! install queue.

use vstd::prelude::*;

use crate::package::{contains_identity, models, same_identity, unique_identities, Package,
    PackageStatus, PkgModel};

verus! {

/// An ordered collection of packages. Insertion order is kept; it carries
/// no meaning beyond being a stable default before sorting.
#[derive(Debug)]
pub struct ChannelStore {
    pub packages: Vec<Package>,
}

impl View for ChannelStore {
    type V = Seq<PkgModel>;

    open spec fn view(&self) -> Seq<PkgModel> {
        models(self.packages@)
    }
}

impl ChannelStore {
    /// An empty store.
    pub fn new() -> (store: ChannelStore)
        ensures
            store@ =~= Seq::<PkgModel>::empty(),
    {
        ChannelStore { packages: Vec::new() }
    }

    /// How many packages the store holds.
    pub fn len(&self) -> (n: usize)
        ensures
            n == self@.len(),
    {
        self.packages.len()
    }

    /// The package at one position.
    pub fn get(&self, i: usize) -> (p: &Package)
        requires
            i < self@.len(),
        ensures
            p@ == self@[i as int],
    {
        &self.packages[i]
    }

    /// Whether some package of the given identity is in the store.
    pub fn contains(&self, package: &Package) -> (r: bool)
        ensures
            r == contains_identity(self@, package@),
    {
        let n = self.packages.len();
        let mut i: usize = 0;
        while i < n
            invariant
                n == self@.len(),
                i <= n,
                forall|j: int| 0 <= j < i ==> !same_identity(self@[j], package@),
            decreases n - i,
        {
            if self.packages[i] == *package {
                assert(same_identity(self@[i as int], package@));
                return true;
            }
            i += 1;
        }
        false
    }

    /// Append a package.
    pub fn push(&mut self, package: Package)
        ensures
            final(self)@ =~= old(self)@.push(package@),
    {
        self.packages.push(package);
    }

    /// Remove the package of the given identity, if one is there. In a store
    /// free of duplicate identities this leaves no package of that identity
    /// behind.
    pub fn remove_by_identity(&mut self, package: &Package) -> (removed: bool)
        requires
            unique_identities(old(self)@),
        ensures
            removed == contains_identity(old(self)@, package@),
            !contains_identity(final(self)@, package@),
            unique_identities(final(self)@),
            removed ==> exists|i: int|
                0 <= i < old(self)@.len() && same_identity(old(self)@[i], package@)
                    && final(self)@ =~= old(self)@.remove(i),
            !removed ==> final(self)@ =~= old(self)@,
    {
        let n = self.packages.len();
        let mut i: usize = 0;
        while i < n
            invariant
                n == self@.len(),
                i <= n,
                *self == *old(self),
                unique_identities(self@),
                forall|j: int| 0 <= j < i ==> !same_identity(self@[j], package@),
            decreases n - i,
        {
            if self.packages[i] == *package {
                assert(same_identity(self@[i as int], package@));
                let ghost pre = self@;
                let ghost k = i as int;
                self.packages.remove(i);
                assert(self@ =~= pre.remove(k));
                assert forall|j: int| 0 <= j < self@.len() implies !same_identity(
                    self@[j],
                    package@,
                ) by {
                    if j < k {
                        assert(self@[j] == pre[j]);
                    } else {
                        assert(self@[j] == pre[j + 1]);
                        if same_identity(pre[j + 1], package@) {
                            assert(same_identity(pre[k], pre[j + 1]));
                        }
                    }
                }
                return true;
            }
            i += 1;
        }
        false
    }

    /// Where the package of the given identity sits, if it is in the store:
    /// the first position whose entry matches.
    pub fn find_identity(&self, package: &Package) -> (r: Option<usize>)
        ensures
            match r {
                Some(i) => i < self@.len() && same_identity(self@[i as int], package@) && forall|
                    j: int,
                | 0 <= j < i ==> !same_identity(self@[j], package@),
                None => !contains_identity(self@, package@),
            },
    {
        let n = self.packages.len();
        let mut i: usize = 0;
        while i < n
            invariant
                n == self@.len(),
                i <= n,
                forall|j: int| 0 <= j < i ==> !same_identity(self@[j], package@),
            decreases n - i,
        {
            if self.packages[i] == *package {
                assert(same_identity(self@[i as int], package@));
                return Some(i);
            }
            i += 1;
        }
        None
    }

    /// Retag the status of the package at one position.
    pub fn set_status(&mut self, i: usize, status: PackageStatus)
        requires
            i < old(self)@.len(),
        ensures
            final(self)@ =~= old(self)@.update(
                i as int,
                (PkgModel { status: status, ..old(self)@[i as int] }),
            ),
    {
        self.packages[i].status = status;
    }

    /// Hand the whole store to the caller and leave an empty one behind:
    /// the exclusive-checkout used while a remote fetch is under way.
    pub fn take(&mut self) -> (taken: ChannelStore)
        ensures
            taken@ == old(self)@,
            final(self)@ =~= Seq::<PkgModel>::empty(),
    {
        let mut empty = ChannelStore::new();
        core::mem::swap(self, &mut empty);
        empty
    }
}

} // verus!
