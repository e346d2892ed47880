//! Packages: one downloadable or installed build, its identity, its release
//! channel, and the lifecycle state machine driven by install-pipeline events.

use vstd::prelude::*;
use vstd::std_specs::cmp::PartialEqSpec;

verus! {

/// The release channel a build belongs to.
#[derive(Clone, Copy, Debug, PartialEq, Eq, Structural)]
pub enum Channel {
    Daily,
    Branched,
    Stable,
    Lts,
    Archived,
}

/// The build line of a package: its channel and, for daily and branched
/// builds, the sub-identifier distinguishing build lines.
#[derive(Debug)]
pub enum Build {
    Daily(String),
    Branched(String),
    Stable,
    Lts,
    Archived,
}

/// Mathematical shape of a [`Build`], with strings as character sequences.
pub enum BuildModel {
    Daily(Seq<char>),
    Branched(Seq<char>),
    Stable,
    Lts,
    Archived,
}

impl View for Build {
    type V = BuildModel;

    open spec fn view(&self) -> BuildModel {
        match self {
            Build::Daily(s) => BuildModel::Daily(s@),
            Build::Branched(s) => BuildModel::Branched(s@),
            Build::Stable => BuildModel::Stable,
            Build::Lts => BuildModel::Lts,
            Build::Archived => BuildModel::Archived,
        }
    }
}

/// Whether two build lines are the same: same channel and, for daily and
/// branched builds, the same sub-identifier.
pub open spec fn build_eq(a: BuildModel, b: BuildModel) -> bool {
    match (a, b) {
        (BuildModel::Daily(x), BuildModel::Daily(y)) => x == y,
        (BuildModel::Branched(x), BuildModel::Branched(y)) => x == y,
        (BuildModel::Stable, BuildModel::Stable) => true,
        (BuildModel::Lts, BuildModel::Lts) => true,
        (BuildModel::Archived, BuildModel::Archived) => true,
        _ => false,
    }
}

/// The channel a build line belongs to.
pub open spec fn channel_of(b: BuildModel) -> Channel {
    match b {
        BuildModel::Daily(_) => Channel::Daily,
        BuildModel::Branched(_) => Channel::Branched,
        BuildModel::Stable => Channel::Stable,
        BuildModel::Lts => Channel::Lts,
        BuildModel::Archived => Channel::Archived,
    }
}

impl Build {
    /// The channel this build line belongs to.
    pub fn channel(&self) -> (c: Channel)
        ensures
            c == channel_of(self@),
    {
        match self {
            Build::Daily(_) => Channel::Daily,
            Build::Branched(_) => Channel::Branched,
            Build::Stable => Channel::Stable,
            Build::Lts => Channel::Lts,
            Build::Archived => Channel::Archived,
        }
    }
}

impl Clone for Build {
    fn clone(&self) -> (r: Build)
        ensures
            r@ == self@,
    {
        match self {
            Build::Daily(s) => Build::Daily(s.clone()),
            Build::Branched(s) => Build::Branched(s.clone()),
            Build::Stable => Build::Stable,
            Build::Lts => Build::Lts,
            Build::Archived => Build::Archived,
        }
    }
}

impl PartialEq for Build {
    fn eq(&self, other: &Build) -> (r: bool) {
        match (self, other) {
            (Build::Daily(x), Build::Daily(y)) => *x == *y,
            (Build::Branched(x), Build::Branched(y)) => *x == *y,
            (Build::Stable, Build::Stable) => true,
            (Build::Lts, Build::Lts) => true,
            (Build::Archived, Build::Archived) => true,
            _ => false,
        }
    }
}

impl vstd::std_specs::cmp::PartialEqSpecImpl for Build {
    open spec fn obeys_eq_spec() -> bool {
        true
    }

    open spec fn eq_spec(&self, other: &Build) -> bool {
        build_eq(self@, other@)
    }
}

/// How a package relates to what is installed locally: never seen before,
/// newer than an installed build of the same line, or neither.
#[derive(Clone, Copy, Debug, PartialEq, Eq, Structural)]
pub enum PackageStatus {
    Update,
    New,
    Old,
}

/// Lifecycle state of a package. Progress is a whole-number percentage in
/// `0..=100`.
#[derive(Clone, Copy, Debug, PartialEq, Eq, Structural)]
pub enum PackageState {
    Fetched,
    Downloading { progress: u8 },
    Extracting { progress: u8 },
    Installed,
    Errored,
}

/// One downloadable or installed build.
#[derive(Debug)]
pub struct Package {
    pub name: String,
    pub version: String,
    /// Build or release timestamp; recency ordering and update detection go
    /// by this field, never by the version string.
    pub date: u64,
    pub url: String,
    pub build: Build,
    pub status: PackageStatus,
    pub state: PackageState,
}

/// Mathematical shape of a [`Package`], with strings as character sequences.
pub struct PkgModel {
    pub name: Seq<char>,
    pub version: Seq<char>,
    pub date: u64,
    pub url: Seq<char>,
    pub build: BuildModel,
    pub status: PackageStatus,
    pub state: PackageState,
}

impl View for Package {
    type V = PkgModel;

    open spec fn view(&self) -> PkgModel {
        PkgModel {
            name: self.name@,
            version: self.version@,
            date: self.date,
            url: self.url@,
            build: self.build@,
            status: self.status,
            state: self.state,
        }
    }
}

/// Whether two packages are the same logical package: same build line, same
/// version string, same date. This identity is what lookup, dedup, and
/// removal go by across every channel.
pub open spec fn same_identity(a: PkgModel, b: PkgModel) -> bool {
    build_eq(a.build, b.build) && a.version == b.version && a.date == b.date
}

/// Whether two packages belong to the same build line.
pub open spec fn same_build(a: PkgModel, b: PkgModel) -> bool {
    build_eq(a.build, b.build)
}

/// The models of a sequence of packages.
pub open spec fn models(s: Seq<Package>) -> Seq<PkgModel> {
    Seq::new(s.len(), |i: int| s[i]@)
}

/// Whether some package of the given identity occurs in the sequence.
pub open spec fn contains_identity(s: Seq<PkgModel>, p: PkgModel) -> bool {
    exists|i: int| 0 <= i < s.len() && same_identity(s[i], p)
}

/// Whether no two packages of the sequence share an identity.
pub open spec fn unique_identities(s: Seq<PkgModel>) -> bool {
    forall|i: int, j: int| 0 <= i < j < s.len() ==> !same_identity(s[i], s[j])
}

/// Sharing an identity is transitive: two packages that both match a third
/// match each other.
pub proof fn lemma_identity_trans(a: PkgModel, b: PkgModel, p: PkgModel)
    requires
        same_identity(a, p),
        same_identity(b, p),
    ensures
        same_identity(a, b),
{
}

impl Clone for Package {
    fn clone(&self) -> (r: Package)
        ensures
            r@ == self@,
    {
        Package {
            name: self.name.clone(),
            version: self.version.clone(),
            date: self.date,
            url: self.url.clone(),
            build: self.build.clone(),
            status: self.status,
            state: self.state,
        }
    }
}

impl PartialEq for Package {
    fn eq(&self, other: &Package) -> (r: bool) {
        self.build == other.build && self.version == other.version && self.date == other.date
    }
}

impl vstd::std_specs::cmp::PartialEqSpecImpl for Package {
    open spec fn obeys_eq_spec() -> bool {
        true
    }

    open spec fn eq_spec(&self, other: &Package) -> bool {
        same_identity(self@, other@)
    }
}

/// Package equality goes by identity alone: two packages compare equal
/// exactly when build line, version, and date all match.
pub proof fn lemma_package_eq_iff_identity(a: &Package, b: &Package)
    ensures
        a.eq_spec(b) <==> (build_eq(a@.build, b@.build) && a@.version == b@.version && a@.date
            == b@.date),
{
}

/// Progress events emitted by the install pipeline for one package.
#[derive(Clone, Copy, Debug, PartialEq, Eq, Structural)]
pub enum Progress {
    Started,
    DownloadProgress(u8),
    FinishedDownloading,
    ExtractionProgress(u8),
    FinishedExtracting,
    FinishedInstalling,
    Errored,
}

/// Requests and events that drive one package's row of the catalog.
#[derive(Clone, Copy, Debug, PartialEq, Eq, Structural)]
pub enum PackageMessage {
    Install,
    InstallationProgress(Progress),
    Remove,
    OpenBlender,
    OpenBlenderWithFile,
    SetDefault,
    UnsetDefault,
}

/// What the caller must do next after a package handled a message.
#[derive(Clone, Copy, Debug, PartialEq, Eq, Structural)]
pub enum Action {
    Nothing,
    TryToInstall,
    PackageInstalled,
    PackageRemoved,
    OpenBlender,
    OpenBlenderWithFile,
    SetAsDefault,
    UnsetAsDefault,
}

/// The lifecycle state a package moves to on a message. Only progress events
/// move the state: an install attempt enters `Downloading { 0 }` on
/// `Started`, download and extraction progress updates carry their
/// percentage, `FinishedDownloading` and `FinishedExtracting` are transition
/// points rather than states, `FinishedInstalling` and `Errored` are the two
/// terminal outcomes.
pub open spec fn state_after(state: PackageState, message: PackageMessage) -> PackageState {
    match message {
        PackageMessage::InstallationProgress(progress) => match progress {
            Progress::Started => (PackageState::Downloading { progress: 0 }),
            Progress::DownloadProgress(p) => (PackageState::Downloading { progress: p }),
            Progress::FinishedDownloading => state,
            Progress::ExtractionProgress(p) => (PackageState::Extracting { progress: p }),
            Progress::FinishedExtracting => state,
            Progress::FinishedInstalling => PackageState::Installed,
            Progress::Errored => PackageState::Errored,
        },
        _ => state,
    }
}

/// The follow-up a message asks of the caller.
pub open spec fn action_for(message: PackageMessage) -> Action {
    match message {
        PackageMessage::Install => Action::TryToInstall,
        PackageMessage::InstallationProgress(progress) => match progress {
            Progress::FinishedInstalling => Action::PackageInstalled,
            _ => Action::Nothing,
        },
        PackageMessage::Remove => Action::PackageRemoved,
        PackageMessage::OpenBlender => Action::OpenBlender,
        PackageMessage::OpenBlenderWithFile => Action::OpenBlenderWithFile,
        PackageMessage::SetDefault => Action::SetAsDefault,
        PackageMessage::UnsetDefault => Action::UnsetAsDefault,
    }
}

impl Package {
    /// Step the lifecycle state machine by one message and say what the
    /// caller must do next. Identity, status, and every other field stay
    /// untouched.
    pub fn update(&mut self, message: PackageMessage) -> (action: Action)
        ensures
            final(self)@ == (PkgModel { state: state_after(old(self)@.state, message), ..old(
                self,
            )@ }),
            action == action_for(message),
    {
        match message {
            PackageMessage::Install => Action::TryToInstall,
            PackageMessage::InstallationProgress(progress) => match progress {
                Progress::Started => {
                    self.state = PackageState::Downloading { progress: 0 };
                    Action::Nothing
                },
                Progress::DownloadProgress(p) => {
                    self.state = PackageState::Downloading { progress: p };
                    Action::Nothing
                },
                Progress::FinishedDownloading => Action::Nothing,
                Progress::ExtractionProgress(p) => {
                    self.state = PackageState::Extracting { progress: p };
                    Action::Nothing
                },
                Progress::FinishedExtracting => Action::Nothing,
                Progress::FinishedInstalling => {
                    self.state = PackageState::Installed;
                    Action::PackageInstalled
                },
                Progress::Errored => {
                    self.state = PackageState::Errored;
                    Action::Nothing
                },
            },
            PackageMessage::Remove => Action::PackageRemoved,
            PackageMessage::OpenBlender => Action::OpenBlender,
            PackageMessage::OpenBlenderWithFile => Action::OpenBlenderWithFile,
            PackageMessage::SetDefault => Action::SetAsDefault,
            PackageMessage::UnsetDefault => Action::UnsetAsDefault,
        }
    }
}

} // verus!
