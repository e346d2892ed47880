use blender_launcher::codec::{decode_record, encode_record};
use blender_launcher::package::{Build, Package, PackageState, PackageStatus};

fn sample(name: &str, version: &str, date: u64, build: Build) -> Package {
    Package {
        name: name.to_string(),
        version: version.to_string(),
        date,
        url: format!("https://builder.example/{}", name),
        build,
        status: PackageStatus::Old,
        state: PackageState::Fetched,
    }
}

#[test]
fn equality_goes_by_build_version_date() {
    let a = sample("blender-2.93", "2.93", 100, Build::Stable);
    let mut b = sample("other-name", "2.93", 100, Build::Stable);
    b.url = String::from("https://elsewhere.example/x");
    b.status = PackageStatus::Update;
    b.state = PackageState::Installed;
    assert_eq!(a, b);
}

#[test]
fn equality_rejects_version_difference() {
    let a = sample("blender", "2.93", 100, Build::Stable);
    let b = sample("blender", "2.94", 100, Build::Stable);
    assert_ne!(a, b);
}

#[test]
fn equality_rejects_date_difference() {
    let a = sample("blender", "2.93", 100, Build::Stable);
    let b = sample("blender", "2.93", 101, Build::Stable);
    assert_ne!(a, b);
}

#[test]
fn equality_rejects_build_difference() {
    let a = sample("blender", "2.93", 100, Build::Daily(String::from("alpha")));
    let b = sample("blender", "2.93", 100, Build::Daily(String::from("beta")));
    let c = sample("blender", "2.93", 100, Build::Lts);
    assert_ne!(a, b);
    assert_ne!(a, c);
}

#[test]
fn clone_preserves_identity() {
    let a = sample("blender", "3.1", 555, Build::Branched(String::from("spring")));
    let b = a.clone();
    assert_eq!(a, b);
    assert_eq!(a.name, b.name);
    assert_eq!(a.url, b.url);
}

#[test]
fn record_round_trip_restores_packages() {
    let packages = vec![
        sample("blender-2.93.4", "2.93.4", 700, Build::Stable),
        sample("blender-3.0-alpha", "3.0", 800, Build::Daily(String::from("alpha"))),
        Package {
            name: String::from("blender-2.83-lts"),
            version: String::from("2.83.17"),
            date: 650,
            url: String::from("https://builder.example/lts"),
            build: Build::Lts,
            status: PackageStatus::Update,
            state: PackageState::Downloading { progress: 42 },
        },
    ];
    let bytes = encode_record(&packages);
    let restored = decode_record(&bytes).expect("a written record reads back");
    assert_eq!(restored.len(), packages.len());
    for (orig, back) in packages.iter().zip(restored.iter()) {
        assert_eq!(orig, back);
        assert_eq!(orig.name, back.name);
        assert_eq!(orig.url, back.url);
        assert_eq!(orig.status, back.status);
        assert_eq!(orig.state, back.state);
    }
}

#[test]
fn non_ascii_strings_round_trip() {
    let packages = vec![Package {
        name: String::from("blender-\u{e9}t\u{e9}-\u{1f419}"),
        version: String::from("3.0\u{3b1}"),
        date: 1,
        url: String::from("https://builder.example/\u{e9}"),
        build: Build::Branched(String::from("prin\u{e7}temps")),
        status: PackageStatus::New,
        state: PackageState::Extracting { progress: 7 },
    }];
    let bytes = encode_record(&packages);
    let restored = decode_record(&bytes).expect("a written record reads back");
    assert_eq!(restored[0].name, packages[0].name);
    assert_eq!(restored[0].version, packages[0].version);
    assert_eq!(restored[0].url, packages[0].url);
    assert_eq!(restored[0], packages[0]);
    assert_eq!(restored[0].state, packages[0].state);
}

#[test]
fn empty_record_round_trips() {
    let packages: Vec<Package> = Vec::new();
    let bytes = encode_record(&packages);
    let restored = decode_record(&bytes).expect("an empty record reads back");
    assert!(restored.is_empty());
}

#[test]
fn truncated_record_is_rejected() {
    let packages = vec![sample("blender", "3.2", 900, Build::Stable)];
    let mut bytes = encode_record(&packages);
    bytes.pop();
    assert!(decode_record(&bytes).is_none());
}

#[test]
fn garbage_bytes_are_rejected() {
    let bytes = vec![9u8, 9, 9];
    assert!(decode_record(&bytes).is_none());
}

#[test]
fn trailing_bytes_are_rejected() {
    let packages = vec![sample("blender", "3.2", 900, Build::Stable)];
    let mut bytes = encode_record(&packages);
    bytes.push(0);
    assert!(decode_record(&bytes).is_none());
}
