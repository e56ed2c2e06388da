use cargo_hack::manifest::Manifest;
use cargo_hack::manifest::remove_dev_deps;
use cargo_hack::restore::Restore;

fn edited(input: &str) -> String {
    let mut doc: toml_edit::Document = input.parse().unwrap();
    remove_dev_deps(&mut doc);
    doc.to_string()
}

#[test]
fn removes_dev_deps_tables() {
    assert_eq!(
        "\
[package]
[dependencies]
[[example]]
",
        edited(
            "\
[package]
[dependencies]
[[example]]
[dev-dependencies.opencl]
[dev-dependencies]"
        )
    );
}

#[test]
fn removes_dev_deps_tables_trailing_newline() {
    assert_eq!(
        "\
[package]
[dependencies]
[[example]]
",
        edited(
            "\
[package]
[dependencies]
[[example]]
[dev-dependencies.opencl]
[dev-dependencies]
"
        )
    );
}

#[test]
fn removes_dev_deps_with_entries() {
    assert_eq!(
        "\
         ",
        edited(
            "\
[dev-dependencies]
foo = { features = [] }
bar = \"0.1\"
"
        )
    );
}

#[test]
fn keeps_plain_dependencies() {
    assert_eq!(
        "
[dependencies]
bar = { features = [], a = [] }
",
        edited(
            "\
[dev-dependencies.foo]
features = []

[dev-dependencies]
bar = { features = [], a = [] }

[dependencies]
bar = { features = [], a = [] }
"
        )
    );
}

#[test]
fn removes_many_lines() {
    assert_eq!(
        "\
[package]
",
        edited(
            "\
[package]\n\n

[dev-dependencies.opencl]


[dev-dependencies]
"
        )
    );
}

#[test]
fn removes_target_dev_deps_only() {
    assert_eq!(
        "\
[package]

[dependencies]
",
        edited(
            "\
[package]

[target.'cfg(unix)'.dev-dependencies]

[dependencies]
"
        )
    );
}

#[test]
fn keeps_sibling_target_dependencies() {
    assert_eq!(
        "\
[package]

[target.'cfg(unix)'.dependencies]
foo = \"0.1\"
",
        edited(
            "\
[package]

[target.'cfg(unix)'.dev-dependencies]
foo = \"0.1\"

[target.'cfg(unix)'.dev-dependencies.bar]

[dev-dependencies]
foo = \"0.1\"

[target.'cfg(unix)'.dependencies]
foo = \"0.1\"
"
        )
    );
}

#[test]
fn keeps_target_dependencies_without_dev_deps() {
    assert_eq!(
        "\
[package]

[target.'cfg(unix)'.dependencies]
",
        edited(
            "\
[package]

[target.'cfg(unix)'.dependencies]

[dev-dependencies]
"
        )
    );
}

#[test]
fn removes_lone_target_dev_deps() {
    assert_eq!(
        "\
[package]
",
        edited(
            "\
[package]

[target.'cfg(unix)'.dev-dependencies]
"
        )
    );
}

#[test]
fn leaves_non_table_occurrences_alone() {
    let input = "\
[package]
foo = [
    ['dev-dependencies'],
    [\"dev-dependencies\"]
]
";
    assert_eq!(input, edited(input));
}

#[test]
fn manifest_edit_restore_round_trip() {
    let raw = "\
[package]
name = \"demo\"

[dependencies]
serde = \"1\"

[dev-dependencies]
quickcheck = \"1\"
";
    let m = Manifest::new("Cargo.toml".to_string(), raw.to_string()).unwrap();
    let edited = m.remove_dev_deps();
    assert!(!edited.contains("quickcheck"));
    assert!(edited.contains("serde"));

    let cx = context_with_no_dev_deps();
    let mut restore = Restore::new(&cx);
    restore.set_manifest(&m.path, &m.raw);
    // The edited text would be written to disk here; the backup keeps the
    // raw bytes regardless.
    let (path, bytes) = restore.close().unwrap();
    assert_eq!(path, "Cargo.toml");
    assert_eq!(bytes, raw);
    // A second release hands back nothing.
    assert!(restore.close().is_none());
}

#[test]
fn permanent_removal_takes_no_backup() {
    let mut cx = context_with_no_dev_deps();
    cx.no_dev_deps = false;
    cx.remove_dev_deps = true;
    let mut restore = Restore::new(&cx);
    restore.set_manifest(&"Cargo.toml".to_string(), &"[package]".to_string());
    assert!(restore.close().is_none());
}

#[test]
fn manifest_rejects_bad_toml() {
    let r = Manifest::new("Cargo.toml".to_string(), "[package".to_string());
    assert!(matches!(r, Err(cargo_hack::error::Error::Manifest { .. })));
}

#[test]
fn manifest_rejects_missing_package_table() {
    let r = Manifest::new("Cargo.toml".to_string(), "[dependencies]\n".to_string());
    let e = r.err().unwrap();
    assert_eq!(e.message(), "failed to parse `package` field from manifest `Cargo.toml`");
}

#[test]
fn manifest_reads_publish_list() {
    let m = Manifest::new(
        "Cargo.toml".to_string(),
        "[package]\nname = \"x\"\npublish = []\n".to_string(),
    )
    .unwrap();
    assert!(!m.package.publish);
    let m = Manifest::new(
        "Cargo.toml".to_string(),
        "[package]\nname = \"x\"\npublish = false\n".to_string(),
    )
    .unwrap();
    assert!(!m.package.publish);
    let m = Manifest::new("Cargo.toml".to_string(), "[package]\nname = \"x\"\n".to_string())
        .unwrap();
    assert!(m.package.publish);
}

#[test]
fn manifest_reads_rust_version() {
    let m = Manifest::new(
        "Cargo.toml".to_string(),
        "[package]\nrust-version = \"1.56\"\n".to_string(),
    )
    .unwrap();
    assert_eq!(m.package.rust_version.as_deref(), Some("1.56"));
    let r = Manifest::new(
        "Cargo.toml".to_string(),
        "[package]\nrust-version = 3\n".to_string(),
    );
    let e = r.err().unwrap();
    assert_eq!(e.message(), "failed to parse `rust-version` field from manifest `Cargo.toml`");
}

fn context_with_no_dev_deps() -> cargo_hack::context::Context {
    cargo_hack::context::Context {
        program: "cargo".to_string(),
        leading_args: vec!["check".to_string()],
        trailing_args: vec![],
        subcommand: Some("check".to_string()),
        package: vec![],
        exclude: vec![],
        workspace: false,
        each_feature: false,
        feature_powerset: false,
        depth: None,
        include_features: vec![],
        exclude_features: vec![],
        optional_deps: None,
        include_deps_features: false,
        group_features: vec![],
        no_default_features: false,
        exclude_no_default_features: false,
        exclude_all_features: false,
        no_dev_deps: true,
        remove_dev_deps: false,
        ignore_private: false,
        clean_per_run: false,
        verbose: false,
    }
}
