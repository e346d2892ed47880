use std::cmp::Ordering;

use blender_launcher::filters::{Filters, SortBy, Tab};
use blender_launcher::package::{Build, Package, PackageState, PackageStatus};

fn shown(name: &str, build: Build, status: PackageStatus, state: PackageState) -> Package {
    Package {
        name: name.to_string(),
        version: String::from("3.0"),
        date: 100,
        url: String::from("https://builder.example/p"),
        build,
        status,
        state,
    }
}

fn versioned(version: &str) -> Package {
    Package {
        name: format!("blender-{}", version),
        version: version.to_string(),
        date: 100,
        url: String::from("https://builder.example/p"),
        build: Build::Stable,
        status: PackageStatus::Old,
        state: PackageState::Fetched,
    }
}

#[test]
fn default_filters_show_every_channel() {
    let f = Filters::default();
    assert!(f.all && f.daily && f.branched && f.stable && f.lts && f.archived);
    assert!(!f.updates && !f.installed);
    assert!(f.matches(&shown("p", Build::Stable, PackageStatus::Old, PackageState::Fetched)));
}

#[test]
fn updates_filter_narrows_to_updates_of_shown_channels() {
    let mut f = Filters::default();
    f.set_updates(true);
    assert!(f.matches(&shown("u", Build::Stable, PackageStatus::Update, PackageState::Fetched)));
    assert!(!f.matches(&shown("o", Build::Stable, PackageStatus::Old, PackageState::Fetched)));
    f.set_channel(blender_launcher::package::Channel::Stable, false);
    assert!(!f.matches(&shown("u", Build::Stable, PackageStatus::Update, PackageState::Fetched)));
}

#[test]
fn installed_filter_narrows_to_installed() {
    let mut f = Filters::default();
    f.set_installed(true);
    assert!(f.matches(&shown("i", Build::Lts, PackageStatus::Old, PackageState::Installed)));
    assert!(!f.matches(&shown("f", Build::Lts, PackageStatus::Old, PackageState::Fetched)));
}

#[test]
fn updates_and_installed_narrowings_exclude_each_other() {
    let mut f = Filters::default();
    f.set_updates(true);
    f.set_installed(true);
    assert!(f.installed && !f.updates);
    f.set_updates(true);
    assert!(f.updates && !f.installed);
}

#[test]
fn refresh_all_mirrors_channel_flags() {
    let mut f = Filters::default();
    f.set_channel(blender_launcher::package::Channel::Daily, false);
    assert!(!f.all);
    f.set_channel(blender_launcher::package::Channel::Daily, true);
    assert!(f.all);
    f.set_all(false);
    assert!(!f.daily && !f.archived);
    f.daily = true;
    f.branched = true;
    f.stable = true;
    f.lts = true;
    f.archived = true;
    f.refresh_all();
    assert!(f.all);
}

#[test]
fn natural_version_order_compares_digit_runs_as_numbers() {
    let sort = SortBy::VersionAscending;
    let a = versioned("2.9");
    let b = versioned("2.90");
    // "2.9" sorts before "2.90": 9 < 90 numerically.
    assert_eq!(sort.get_ordering(&a, &b), Ordering::Less);
    assert_eq!(SortBy::VersionDescending.get_ordering(&a, &b), Ordering::Greater);
    assert_eq!(sort.get_ordering(&versioned("2.10"), &versioned("2.9")), Ordering::Greater);
    assert_eq!(sort.get_ordering(&versioned("2.90"), &versioned("2.90")), Ordering::Equal);
}

#[test]
fn natural_version_order_ignores_case() {
    let sort = SortBy::VersionAscending;
    assert_eq!(
        sort.get_ordering(&versioned("ALPHA2"), &versioned("alpha10")),
        Ordering::Less
    );
    assert_eq!(
        sort.get_ordering(&versioned("Beta"), &versioned("beta")),
        Ordering::Equal
    );
}

#[test]
fn name_and_date_orderings() {
    let mut a = versioned("3.0");
    let mut b = versioned("3.0");
    a.name = String::from("alpha");
    b.name = String::from("beta");
    assert_eq!(SortBy::NameAscending.get_ordering(&a, &b), Ordering::Less);
    assert_eq!(SortBy::NameDescending.get_ordering(&a, &b), Ordering::Greater);
    assert_eq!(SortBy::NameAscending.get_ordering(&a, &a), Ordering::Equal);
    a.date = 50;
    b.date = 100;
    assert_eq!(SortBy::DateAscending.get_ordering(&a, &b), Ordering::Less);
    assert_eq!(SortBy::DateDescending.get_ordering(&a, &b), Ordering::Greater);
}

#[test]
fn name_prefix_sorts_first() {
    let mut a = versioned("3.0");
    let mut b = versioned("3.0");
    a.name = String::from("blender");
    b.name = String::from("blender-lts");
    assert_eq!(SortBy::NameAscending.get_ordering(&a, &b), Ordering::Less);
}

#[test]
fn sort_labels_and_default() {
    assert_eq!(SortBy::default(), SortBy::VersionDescending);
    assert_eq!(SortBy::NameAscending.label(), "Name [A]");
    assert_eq!(SortBy::NameDescending.label(), "Name [D]");
    assert_eq!(SortBy::DateAscending.label(), "Date [A]");
    assert_eq!(SortBy::DateDescending.label(), "Date [D]");
    assert_eq!(SortBy::VersionAscending.label(), "Version [A]");
    assert_eq!(SortBy::VersionDescending.label(), "Version [D]");
}

#[test]
fn tabs_compare() {
    assert_eq!(Tab::Packages, Tab::Packages);
    assert_ne!(Tab::Packages, Tab::Settings);
    assert_ne!(Tab::Settings, Tab::About);
}
