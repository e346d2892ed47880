//! The install pipeline's decision logic: the keep-only-latest policy gate
//! that may refuse an install before it starts, download progress as a
//! percentage, and the classification of an availability probe's response.

use vstd::prelude::*;

use vstd::arithmetic::div_mod::{lemma_div_by_multiple, lemma_div_is_ordered};
use vstd::arithmetic::mul::lemma_mul_inequality;

use crate::config::{keep_only_latest, Config, ConfigModel};
use crate::installed::Installed;
use crate::package::{channel_of, same_build, Channel, Package, PackageStatus, PkgModel};

verus! {

/// Why the policy gate refused to start an install.
#[derive(Clone, Copy, Debug, PartialEq, Eq, Structural)]
pub enum PolicyRefusal {
    DailyBuildType,
    BranchedBuildType,
    StablePackage,
    LtsPackage,
}

/// The wording of a policy refusal as it is shown to the user.
pub open spec fn refusal_text(r: PolicyRefusal) -> Seq<char> {
    match r {
        PolicyRefusal::DailyBuildType => "daily package of its build type"@,
        PolicyRefusal::BranchedBuildType => "branched package of its build type"@,
        PolicyRefusal::StablePackage => "stable package"@,
        PolicyRefusal::LtsPackage => "LTS package"@,
    }
}

impl PolicyRefusal {
    /// The user-visible wording of the refusal.
    pub fn describe(&self) -> (r: String)
        ensures
            r@ == refusal_text(*self),
    {
        match self {
            PolicyRefusal::DailyBuildType => String::from_str(
                "daily package of its build type",
            ),
            PolicyRefusal::BranchedBuildType => String::from_str(
                "branched package of its build type",
            ),
            PolicyRefusal::StablePackage => String::from_str("stable package"),
            PolicyRefusal::LtsPackage => String::from_str("LTS package"),
        }
    }
}

/// Whether the policy gate refuses an install, and with which wording: the
/// package's channel has keep-only-latest enabled, the package is not an
/// update, and a package of the same build line is already installed.
/// Archived builds are never refused.
pub open spec fn refusal_of(p: PkgModel, installed: Seq<PkgModel>, c: ConfigModel) -> Option<
    PolicyRefusal,
> {
    if keep_only_latest(c, channel_of(p.build)) && p.status != PackageStatus::Update && (
    exists|i: int| 0 <= i < installed.len() && #[trigger] same_build(installed[i], p)) {
        match channel_of(p.build) {
            Channel::Daily => Some(PolicyRefusal::DailyBuildType),
            Channel::Branched => Some(PolicyRefusal::BranchedBuildType),
            Channel::Stable => Some(PolicyRefusal::StablePackage),
            Channel::Lts => Some(PolicyRefusal::LtsPackage),
            Channel::Archived => None,
        }
    } else {
        None
    }
}

/// With keep-only-latest enabled for daily builds, a daily package that is
/// not an update, and an installed build of the same daily line, an
/// install request is refused, with the daily wording. The refusal is
/// decided before any pipeline work: a refused package never starts
/// downloading.
pub proof fn lemma_policy_refuses_stale_daily(
    p: PkgModel,
    installed: Seq<PkgModel>,
    c: ConfigModel,
    i: int,
)
    requires
        c.keep_only_latest_daily,
        p.build matches crate::package::BuildModel::Daily(_),
        p.status != PackageStatus::Update,
        0 <= i < installed.len(),
        same_build(installed[i], p),
    ensures
        refusal_of(p, installed, c) == Some(PolicyRefusal::DailyBuildType),
{
}

/// Hold a package against the keep-only-latest policy gate before any
/// install work starts. `None` means the pipeline may proceed.
pub fn install_refusal(package: &Package, installed: &Installed, config: &Config) -> (r: Option<
    PolicyRefusal,
>)
    ensures
        r == refusal_of(package@, installed@, config@),
{
    let channel = package.build.channel();
    if !config.keep_only_latest(channel) {
        return None;
    }
    let not_update = match package.status {
        PackageStatus::Update => false,
        _ => true,
    };
    if !not_update {
        return None;
    }
    if !installed.contains_build_line(package) {
        return None;
    }
    match channel {
        Channel::Daily => Some(PolicyRefusal::DailyBuildType),
        Channel::Branched => Some(PolicyRefusal::BranchedBuildType),
        Channel::Stable => Some(PolicyRefusal::StablePackage),
        Channel::Lts => Some(PolicyRefusal::LtsPackage),
        Channel::Archived => None,
    }
}

/// Download progress as a whole-number percentage of the bytes received.
pub fn progress_percent(received: u64, total: u64) -> (p: u8)
    requires
        total > 0,
        received <= total,
    ensures
        p == received * 100 / (total as int),
        p <= 100,
{
    let wide = (received as u128) * 100 / (total as u128);
    proof {
        lemma_mul_inequality(received as int, total as int, 100);
        lemma_div_is_ordered(received as int * 100, total as int * 100, total as int);
        lemma_div_by_multiple(100, total as int);
        assert(received as int * 100 / (total as int) <= 100);
    }
    wide as u8
}

/// How an availability probe's HTTP status is read: a client error means
/// the artifact is gone; anything else that got a response means it is
/// still there.
pub open spec fn available_status(status: u16) -> bool {
    !(400 <= status < 500)
}

/// Whether a probe's HTTP status says the remote artifact still exists.
/// Success and redirection codes do; a client error means it is gone for
/// good. A request that got no response at all never reaches this point:
/// that is a connectivity fault, surfaced to the caller instead.
pub fn remote_available(status: u16) -> (r: bool)
    ensures
        r == available_status(status),
{
    !(400 <= status && status < 500)
}

} // verus!
