use blender_launcher::catalog::Releases;
use blender_launcher::config::{Choice, Config};
use blender_launcher::launcher::{AvailabilityOutcome, GuiFlags, InstallDecision, Launcher};
use blender_launcher::package::{Build, Channel, Package, PackageState, PackageStatus};
use blender_launcher::pipeline::PolicyRefusal;

fn entry(name: &str, version: &str, date: u64, build: Build) -> Package {
    Package {
        name: name.to_string(),
        version: version.to_string(),
        date,
        url: format!("https://builder.example/{}", name),
        build,
        status: PackageStatus::New,
        state: PackageState::Fetched,
    }
}

fn launcher_with_stable(listing: Vec<Package>, config: &mut Config) -> Launcher {
    let mut releases = Releases::new();
    config.update_stable = true;
    releases.check_channel_updates(Channel::Stable, &listing, config);
    Launcher::new(GuiFlags { releases, file_path: None }, config)
}

#[test]
fn second_install_request_for_same_identity_is_rejected() {
    let mut config = Config::default();
    let target = entry("blender-3.1", "3.1", 200, Build::Stable);
    let mut launcher = launcher_with_stable(vec![target.clone()], &mut config);
    assert!(launcher.start_install(&target));
    assert!(!launcher.start_install(&target));
    assert_eq!(launcher.installing.len(), 1);
    // A different identity is independent.
    let other = entry("blender-3.2", "3.2", 300, Build::Stable);
    assert!(launcher.start_install(&other));
    assert_eq!(launcher.installing.len(), 2);
}

#[test]
fn gone_artifact_is_removed_from_its_channel() {
    let mut config = Config::default();
    let target = entry("blender-3.1", "3.1", 200, Build::Stable);
    let mut launcher = launcher_with_stable(vec![target.clone()], &mut config);
    assert!(launcher.releases.stable.contains(&target));
    let outcome = launcher.handle_availability(false, true, &target, &mut config);
    assert_eq!(outcome, AvailabilityOutcome::RemovedWithNotice);
    assert!(!launcher.releases.stable.contains(&target));
}

#[test]
fn gone_artifact_during_recheck_is_removed_quietly() {
    let mut config = Config::default();
    let target = entry("blender-3.1", "3.1", 200, Build::Stable);
    let mut launcher = launcher_with_stable(vec![target.clone()], &mut config);
    let outcome = launcher.handle_availability(false, false, &target, &mut config);
    assert_eq!(outcome, AvailabilityOutcome::RemovedQuietly);
    assert!(!launcher.releases.stable.contains(&target));
}

#[test]
fn available_artifact_lets_the_install_start() {
    let mut config = Config::default();
    let target = entry("blender-3.1", "3.1", 200, Build::Stable);
    let mut launcher = launcher_with_stable(vec![target.clone()], &mut config);
    let outcome = launcher.handle_availability(true, true, &target, &mut config);
    assert_eq!(outcome, AvailabilityOutcome::StartInstall);
    assert!(launcher.releases.stable.contains(&target));
}

#[test]
fn available_artifact_on_recheck_resyncs_tags() {
    let mut config = Config::default();
    let target = entry("blender-3.1", "3.1", 200, Build::Stable);
    let mut launcher = launcher_with_stable(vec![target.clone()], &mut config);
    let outcome = launcher.handle_availability(true, false, &target, &mut config);
    assert_eq!(outcome, AvailabilityOutcome::Resynced);
    assert!(launcher.releases.stable.contains(&target));
    // With nothing installed the recheck retags the entry as old.
    assert_eq!(launcher.releases.stable.get(0).status, PackageStatus::Old);
}

#[test]
fn policy_refusal_surfaces_through_the_launcher() {
    let mut config = Config::default();
    config.keep_only_latest_daily = true;
    let line = Build::Daily(String::from("alpha"));
    let mut releases = Releases::new();
    let mut old_install = entry("old-alpha", "3.0", 100, line.clone());
    old_install.state = PackageState::Installed;
    releases.installed.refresh_from_scan(&vec![old_install]);
    let launcher = Launcher::new(GuiFlags { releases, file_path: None }, &mut config);
    let candidate = entry("new-alpha", "3.0.1", 90, line);
    assert_eq!(
        launcher.try_to_install(&candidate, &config),
        InstallDecision::Refused(PolicyRefusal::DailyBuildType)
    );
}

#[test]
fn pruning_after_install_keeps_one_daily_per_line() {
    let mut config = Config::default();
    config.update_daily = true;
    config.keep_only_latest_daily = true;
    let line = Build::Daily(String::from("alpha"));
    let mut launcher = launcher_with_stable(vec![], &mut config);

    let newest = entry("alpha-300", "3.1", 300, line.clone());
    launcher.start_install(&newest);
    let scanned = vec![
        entry("alpha-100", "3.0", 100, line.clone()),
        entry("alpha-200", "3.0.5", 200, line.clone()),
        newest.clone(),
        entry("beta-50", "3.0", 50, Build::Daily(String::from("beta"))),
    ];
    let removed = launcher.package_installed(&newest, &scanned, &mut config);

    // The two superseded alpha builds went; the newest alpha and the
    // untouched beta line stay.
    assert_eq!(removed.len(), 2);
    assert!(removed.iter().all(|p| matches!(&p.build, Build::Daily(s) if s == "alpha")));
    assert!(removed.iter().all(|p| p.date < 300));
    assert_eq!(launcher.releases.installed.len(), 2);
    assert!(launcher.releases.installed.contains(&newest));
    assert!(launcher.installing.len() == 0);
}

#[test]
fn pruning_without_policy_keeps_everything() {
    let mut config = Config::default();
    let line = Build::Daily(String::from("alpha"));
    let mut launcher = launcher_with_stable(vec![], &mut config);
    let newest = entry("alpha-300", "3.1", 300, line.clone());
    launcher.start_install(&newest);
    let scanned = vec![entry("alpha-100", "3.0", 100, line.clone()), newest.clone()];
    let removed = launcher.package_installed(&newest, &scanned, &mut config);
    assert!(removed.is_empty());
    assert_eq!(launcher.releases.installed.len(), 2);
}

#[test]
fn new_launcher_clears_a_default_that_is_not_installed() {
    let mut config = Config::default();
    config.default_package = Some(entry("gone", "1.0", 10, Build::Stable));
    let launcher = Launcher::new(
        GuiFlags { releases: Releases::new(), file_path: None },
        &mut config,
    );
    assert!(config.default_package.is_none());
    assert_eq!(launcher.installing.len(), 0);
}

#[test]
fn new_launcher_keeps_an_installed_default() {
    let mut config = Config::default();
    let keeper = entry("blender-3.0", "3.0", 100, Build::Stable);
    let mut releases = Releases::new();
    releases.installed.refresh_from_scan(&vec![keeper.clone()]);
    config.default_package = Some(keeper.clone());
    Launcher::new(GuiFlags { releases, file_path: None }, &mut config);
    assert_eq!(config.default_package, Some(keeper));
}

#[test]
fn uninstalling_the_default_clears_it() {
    let mut config = Config::default();
    let keeper = entry("blender-3.0", "3.0", 100, Build::Stable);
    config.default_package = Some(keeper.clone());
    config.clear_default_if_matches(&keeper);
    assert!(config.default_package.is_none());
    // Uninstalling something else leaves the default alone.
    config.default_package = Some(keeper.clone());
    config.clear_default_if_matches(&entry("other", "2.0", 5, Build::Lts));
    assert_eq!(config.default_package, Some(keeper));
}

#[test]
fn settings_choices_toggle_flags() {
    let mut config = Config::default();
    config.set_check_updates(Channel::Daily, Choice::Enable);
    assert!(config.update_daily);
    config.set_check_updates(Channel::Daily, Choice::Disable);
    assert!(!config.update_daily);
    config.set_keep_only_latest(Channel::Lts, Choice::Enable);
    assert!(config.keep_only_latest_lts);
    // Archived builds have no such settings.
    config.set_check_updates(Channel::Archived, Choice::Enable);
    config.set_keep_only_latest(Channel::Archived, Choice::Enable);
    assert!(!config.update_daily && !config.keep_only_latest_daily);
    assert!(Choice::Enable.enabled() && !Choice::Disable.enabled());
}
