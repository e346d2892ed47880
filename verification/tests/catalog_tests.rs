use blender_launcher::catalog::Releases;
use blender_launcher::config::Config;
use blender_launcher::package::{Build, Channel, Package, PackageState, PackageStatus};

fn remote(name: &str, version: &str, date: u64, build: Build) -> Package {
    Package {
        name: name.to_string(),
        version: version.to_string(),
        date,
        url: format!("https://builder.example/{}", name),
        build,
        status: PackageStatus::New,
        state: PackageState::Fetched,
    }
}

fn installed_pkg(name: &str, version: &str, date: u64, build: Build) -> Package {
    Package {
        name: name.to_string(),
        version: version.to_string(),
        date,
        url: format!("https://builder.example/{}", name),
        build,
        status: PackageStatus::Old,
        state: PackageState::Installed,
    }
}

fn stable_config() -> Config {
    let mut config = Config::default();
    config.update_stable = true;
    config
}

#[test]
fn newer_remote_stable_is_tagged_update() {
    let mut releases = Releases::new();
    let scanned = vec![installed_pkg("blender-3.0", "3.0", 100, Build::Stable)];
    releases.installed.refresh_from_scan(&scanned);

    let config = stable_config();
    let listing = vec![remote("blender-3.1", "3.1", 200, Build::Stable)];
    let changed = releases.check_channel_updates(Channel::Stable, &listing, &config);

    assert!(changed);
    assert_eq!(releases.stable.len(), 1);
    assert_eq!(releases.stable.get(0).status, PackageStatus::Update);

    let counts = releases.count_updates(&config);
    assert_eq!(counts.3, Some(1));
    assert_eq!(counts.0, Some(1));
}

#[test]
fn unseen_remote_without_installed_line_is_tagged_new() {
    let mut releases = Releases::new();
    let config = stable_config();
    let listing = vec![remote("blender-3.1", "3.1", 200, Build::Stable)];
    releases.check_channel_updates(Channel::Stable, &listing, &config);
    assert_eq!(releases.stable.get(0).status, PackageStatus::New);
}

#[test]
fn remote_already_known_and_not_newer_is_tagged_old() {
    let mut releases = Releases::new();
    let config = stable_config();
    let listing = vec![remote("blender-3.1", "3.1", 200, Build::Stable)];
    releases.check_channel_updates(Channel::Stable, &listing, &config);
    let changed = releases.check_channel_updates(Channel::Stable, &listing, &config);
    assert!(!changed);
    assert_eq!(releases.stable.len(), 1);
    assert_eq!(releases.stable.get(0).status, PackageStatus::Old);
}

#[test]
fn update_detection_goes_by_date_not_version_string() {
    let mut releases = Releases::new();
    let scanned = vec![installed_pkg("blender-9.9", "9.9", 500, Build::Stable)];
    releases.installed.refresh_from_scan(&scanned);
    let config = stable_config();
    // A higher version string with an older date is no update.
    let listing = vec![remote("blender-10.0", "10.0", 400, Build::Stable)];
    releases.check_channel_updates(Channel::Stable, &listing, &config);
    assert_eq!(releases.stable.get(0).status, PackageStatus::New);
}

#[test]
fn disabled_channel_counts_none() {
    let mut releases = Releases::new();
    let config = Config::default();
    let listing = vec![remote("blender-3.1", "3.1", 200, Build::Stable)];
    releases.check_channel_updates(Channel::Stable, &listing, &config);
    let counts = releases.count_updates(&config);
    assert_eq!(counts.0, None);
    assert_eq!(counts.1, None);
    assert_eq!(counts.2, None);
    assert_eq!(counts.3, None);
    assert_eq!(counts.4, None);
}

#[test]
fn daily_lines_update_independently() {
    let mut releases = Releases::new();
    let scanned = vec![
        installed_pkg("alpha-100", "3.0", 100, Build::Daily(String::from("alpha"))),
        installed_pkg("beta-300", "3.0", 300, Build::Daily(String::from("beta"))),
    ];
    releases.installed.refresh_from_scan(&scanned);
    let mut config = Config::default();
    config.update_daily = true;
    let listing = vec![
        remote("alpha-200", "3.1", 200, Build::Daily(String::from("alpha"))),
        remote("beta-200", "3.1", 200, Build::Daily(String::from("beta"))),
    ];
    releases.check_channel_updates(Channel::Daily, &listing, &config);
    assert_eq!(releases.daily.get(0).status, PackageStatus::Update);
    assert_eq!(releases.daily.get(1).status, PackageStatus::New);
    let counts = releases.count_updates(&config);
    assert_eq!(counts.1, Some(1));
}

#[test]
fn sync_twice_gives_identical_tags_and_counts() {
    let mut releases = Releases::new();
    let scanned = vec![installed_pkg("blender-3.0", "3.0", 100, Build::Stable)];
    releases.installed.refresh_from_scan(&scanned);
    let mut config = stable_config();
    let listing = vec![
        remote("blender-3.1", "3.1", 200, Build::Stable),
        remote("blender-2.9", "2.9", 50, Build::Stable),
    ];
    releases.check_channel_updates(Channel::Stable, &listing, &config);

    releases.sync(&mut config);
    let first_tags: Vec<PackageStatus> = (0..releases.stable.len())
        .map(|i| releases.stable.get(i).status)
        .collect();
    let first_counts = releases.count_updates(&config);

    releases.sync(&mut config);
    let second_tags: Vec<PackageStatus> = (0..releases.stable.len())
        .map(|i| releases.stable.get(i).status)
        .collect();
    let second_counts = releases.count_updates(&config);

    assert_eq!(first_tags, second_tags);
    assert_eq!(first_counts, second_counts);
    assert_eq!(first_tags, vec![PackageStatus::Update, PackageStatus::Old]);
}

#[test]
fn sync_clears_missing_default_package() {
    let mut releases = Releases::new();
    let mut config = Config::default();
    config.default_package = Some(remote("gone", "1.0", 10, Build::Stable));
    releases.sync(&mut config);
    assert!(config.default_package.is_none());
}

#[test]
fn sync_keeps_installed_default_package() {
    let mut releases = Releases::new();
    let keeper = installed_pkg("blender-3.0", "3.0", 100, Build::Stable);
    releases.installed.refresh_from_scan(&vec![keeper.clone()]);
    let mut config = Config::default();
    config.default_package = Some(keeper.clone());
    releases.sync(&mut config);
    assert_eq!(config.default_package, Some(keeper));
}

#[test]
fn removed_package_leaves_its_channel_store() {
    let mut releases = Releases::new();
    let config = stable_config();
    let listing = vec![remote("blender-3.1", "3.1", 200, Build::Stable)];
    releases.check_channel_updates(Channel::Stable, &listing, &config);
    let target = listing[0].clone();
    assert!(releases.stable.contains(&target));
    let removed = releases.remove_package(&target);
    assert!(removed);
    assert!(!releases.stable.contains(&target));
    assert_eq!(releases.stable.len(), 0);
}

#[test]
fn stores_can_be_taken_out_and_merged_back() {
    let mut releases = Releases::new();
    let scanned = vec![installed_pkg("blender-3.0", "3.0", 100, Build::Stable)];
    releases.installed.refresh_from_scan(&scanned);
    let mut config = stable_config();

    // The combined check takes the four stores out for the fetch and hands
    // them back through add_new_packages, which retags everything.
    let daily = releases.daily.take();
    let branched = releases.branched.take();
    let mut stable = releases.stable.take();
    let lts = releases.lts.take();
    assert_eq!(releases.stable.len(), 0);
    stable.push(remote("blender-3.1", "3.1", 200, Build::Stable));
    releases.add_new_packages(daily, branched, stable, lts, &mut config);
    assert_eq!(releases.stable.len(), 1);
    assert_eq!(releases.stable.get(0).status, PackageStatus::Update);
}

#[test]
fn check_updates_merges_all_four_channels() {
    let mut releases = Releases::new();
    let mut config = Config::default();
    config.update_daily = true;
    config.update_branched = true;
    config.update_stable = true;
    config.update_lts = true;
    let changed = releases.check_updates(
        &vec![remote("d", "3.1", 10, Build::Daily(String::from("alpha")))],
        &vec![remote("b", "3.1", 10, Build::Branched(String::from("spring")))],
        &vec![remote("s", "3.1", 10, Build::Stable)],
        &vec![remote("l", "2.83", 10, Build::Lts)],
        &config,
    );
    assert!(changed);
    assert_eq!(releases.daily.len(), 1);
    assert_eq!(releases.branched.len(), 1);
    assert_eq!(releases.stable.len(), 1);
    assert_eq!(releases.lts.len(), 1);
    assert_eq!(releases.archived.len(), 0);
}
