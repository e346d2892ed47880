use blender_launcher::config::Config;
use blender_launcher::installed::Installed;
use blender_launcher::package::{Action, Build, Package, PackageMessage, PackageState,
    PackageStatus, Progress};
use blender_launcher::pipeline::{install_refusal, progress_percent, remote_available,
    PolicyRefusal};

fn pkg(name: &str, version: &str, date: u64, build: Build) -> Package {
    Package {
        name: name.to_string(),
        version: version.to_string(),
        date,
        url: format!("https://builder.example/{}", name),
        build,
        status: PackageStatus::New,
        state: PackageState::Fetched,
    }
}

fn registry_with(packages: Vec<Package>) -> Installed {
    let mut installed = Installed::new();
    installed.refresh_from_scan(&packages);
    installed
}

#[test]
fn daily_install_refused_with_daily_wording() {
    let mut config = Config::default();
    config.keep_only_latest_daily = true;
    let line = Build::Daily(String::from("alpha"));
    let installed = registry_with(vec![pkg("old-alpha", "3.0", 100, line.clone())]);
    let candidate = pkg("new-alpha", "3.0.1", 90, line);
    let refusal = install_refusal(&candidate, &installed, &config);
    assert_eq!(refusal, Some(PolicyRefusal::DailyBuildType));
    assert_eq!(
        refusal.unwrap().describe(),
        "daily package of its build type"
    );
    // A refusal happens before anything starts: the package never left its
    // fetched state.
    assert_eq!(candidate.state, PackageState::Fetched);
}

#[test]
fn update_passes_the_gate() {
    let mut config = Config::default();
    config.keep_only_latest_daily = true;
    let line = Build::Daily(String::from("alpha"));
    let installed = registry_with(vec![pkg("old-alpha", "3.0", 100, line.clone())]);
    let mut candidate = pkg("new-alpha", "3.0.1", 200, line);
    candidate.status = PackageStatus::Update;
    assert_eq!(install_refusal(&candidate, &installed, &config), None);
}

#[test]
fn gate_passes_when_policy_disabled_or_line_empty() {
    let config = Config::default();
    let line = Build::Daily(String::from("alpha"));
    let installed = registry_with(vec![pkg("old-alpha", "3.0", 100, line.clone())]);
    assert_eq!(install_refusal(&pkg("n", "3.1", 90, line), &installed, &config), None);

    let mut config = Config::default();
    config.keep_only_latest_stable = true;
    let empty = registry_with(vec![]);
    assert_eq!(
        install_refusal(&pkg("s", "3.1", 90, Build::Stable), &empty, &config),
        None
    );
}

#[test]
fn branched_stable_lts_wordings() {
    let mut config = Config::default();
    config.keep_only_latest_branched = true;
    config.keep_only_latest_stable = true;
    config.keep_only_latest_lts = true;
    let branched = Build::Branched(String::from("spring"));
    let installed = registry_with(vec![
        pkg("b", "3.0", 100, branched.clone()),
        pkg("s", "3.0", 100, Build::Stable),
        pkg("l", "2.83", 100, Build::Lts),
    ]);
    assert_eq!(
        install_refusal(&pkg("nb", "3.1", 90, branched), &installed, &config)
            .unwrap()
            .describe(),
        "branched package of its build type"
    );
    assert_eq!(
        install_refusal(&pkg("ns", "3.1", 90, Build::Stable), &installed, &config)
            .unwrap()
            .describe(),
        "stable package"
    );
    assert_eq!(
        install_refusal(&pkg("nl", "2.93", 90, Build::Lts), &installed, &config)
            .unwrap()
            .describe(),
        "LTS package"
    );
}

#[test]
fn archived_is_never_refused() {
    let mut config = Config::default();
    config.keep_only_latest_daily = true;
    config.keep_only_latest_branched = true;
    config.keep_only_latest_stable = true;
    config.keep_only_latest_lts = true;
    let installed = registry_with(vec![pkg("a", "2.79", 10, Build::Archived)]);
    assert_eq!(
        install_refusal(&pkg("a2", "2.79b", 5, Build::Archived), &installed, &config),
        None
    );
}

#[test]
fn progress_percent_exact_values() {
    assert_eq!(progress_percent(0, 1000), 0);
    assert_eq!(progress_percent(500, 1000), 50);
    assert_eq!(progress_percent(1000, 1000), 100);
    assert_eq!(progress_percent(1, 3), 33);
    assert_eq!(progress_percent(2, 3), 66);
}

#[test]
fn probe_status_classification() {
    assert!(remote_available(200));
    assert!(remote_available(301));
    assert!(remote_available(399));
    assert!(!remote_available(400));
    assert!(!remote_available(404));
    assert!(!remote_available(499));
    assert!(remote_available(500));
}

#[test]
fn state_machine_walks_the_install_pipeline() {
    let mut p = pkg("blender", "3.1", 100, Build::Stable);
    assert_eq!(
        p.update(PackageMessage::InstallationProgress(Progress::Started)),
        Action::Nothing
    );
    assert_eq!(p.state, PackageState::Downloading { progress: 0 });
    p.update(PackageMessage::InstallationProgress(Progress::DownloadProgress(55)));
    assert_eq!(p.state, PackageState::Downloading { progress: 55 });
    // A transition point, not a state: nothing moves.
    p.update(PackageMessage::InstallationProgress(Progress::FinishedDownloading));
    assert_eq!(p.state, PackageState::Downloading { progress: 55 });
    p.update(PackageMessage::InstallationProgress(Progress::ExtractionProgress(10)));
    assert_eq!(p.state, PackageState::Extracting { progress: 10 });
    p.update(PackageMessage::InstallationProgress(Progress::FinishedExtracting));
    assert_eq!(p.state, PackageState::Extracting { progress: 10 });
    assert_eq!(
        p.update(PackageMessage::InstallationProgress(Progress::FinishedInstalling)),
        Action::PackageInstalled
    );
    assert_eq!(p.state, PackageState::Installed);
}

#[test]
fn repeated_identical_progress_is_harmless() {
    let mut p = pkg("blender", "3.1", 100, Build::Stable);
    p.update(PackageMessage::InstallationProgress(Progress::Started));
    p.update(PackageMessage::InstallationProgress(Progress::DownloadProgress(40)));
    p.update(PackageMessage::InstallationProgress(Progress::DownloadProgress(40)));
    assert_eq!(p.state, PackageState::Downloading { progress: 40 });
}

#[test]
fn error_event_ends_in_errored() {
    let mut p = pkg("blender", "3.1", 100, Build::Stable);
    p.update(PackageMessage::InstallationProgress(Progress::Started));
    p.update(PackageMessage::InstallationProgress(Progress::Errored));
    assert_eq!(p.state, PackageState::Errored);
    // A fresh attempt re-enters at the start of the download.
    p.update(PackageMessage::InstallationProgress(Progress::Started));
    assert_eq!(p.state, PackageState::Downloading { progress: 0 });
}

#[test]
fn non_progress_messages_leave_state_alone() {
    let mut p = pkg("blender", "3.1", 100, Build::Stable);
    assert_eq!(p.update(PackageMessage::Install), Action::TryToInstall);
    assert_eq!(p.update(PackageMessage::Remove), Action::PackageRemoved);
    assert_eq!(p.update(PackageMessage::OpenBlender), Action::OpenBlender);
    assert_eq!(p.update(PackageMessage::OpenBlenderWithFile), Action::OpenBlenderWithFile);
    assert_eq!(p.update(PackageMessage::SetDefault), Action::SetAsDefault);
    assert_eq!(p.update(PackageMessage::UnsetDefault), Action::UnsetAsDefault);
    assert_eq!(p.state, PackageState::Fetched);
}
