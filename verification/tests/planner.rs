use cargo_hack::cli::Coloring;
use cargo_hack::cli::multi_arg;
use cargo_hack::cli::req_arg;
use cargo_hack::cli::validate;
use cargo_hack::context::Context;
use cargo_hack::context::PackageMeta;
use cargo_hack::context::Workspace;
use cargo_hack::error::Error;
use cargo_hack::error::Status;
use cargo_hack::plan::exec_cargo;
use cargo_hack::plan::try_main;
use cargo_hack::process::CommandLine;
use cargo_hack::run::Progress;
use cargo_hack::run::Runner;

fn base_context() -> Context {
    Context {
        program: "cargo".to_string(),
        leading_args: vec!["check".to_string()],
        trailing_args: vec![],
        subcommand: Some("check".to_string()),
        package: vec![],
        exclude: vec![],
        workspace: false,
        each_feature: false,
        feature_powerset: false,
        depth: None,
        include_features: vec![],
        exclude_features: vec![],
        optional_deps: None,
        include_deps_features: false,
        group_features: vec![],
        no_default_features: false,
        exclude_no_default_features: false,
        exclude_all_features: false,
        no_dev_deps: false,
        remove_dev_deps: false,
        ignore_private: false,
        clean_per_run: false,
        verbose: false,
    }
}

fn package(name: &str, features: &[&str]) -> PackageMeta {
    PackageMeta {
        name: name.to_string(),
        manifest_path: format!("{}/Cargo.toml", name),
        publish: true,
        features: features.iter().map(|f| f.to_string()).collect(),
        optional_deps: vec![],
        deps_features: vec![],
    }
}

fn workspace(members: Vec<PackageMeta>) -> Workspace {
    Workspace { root: "/ws".to_string(), members, current: None }
}

fn args_of(line: &CommandLine) -> Vec<String> {
    line.args.clone()
}

#[test]
fn normal_mode_yields_one_unit_per_package() {
    let cx = base_context();
    let ws = workspace(vec![package("a", &[]), package("b", &["x"])]);
    let (plan, warnings) = try_main(&cx, &ws).unwrap();
    assert!(warnings.is_empty());
    assert_eq!(plan.total, 2);
    assert_eq!(plan.units.len(), 2);
    assert_eq!(plan.units[0].package, 0);
    assert_eq!(plan.units[1].package, 1);
    assert_eq!(args_of(&plan.units[0].line), vec!["check", "--manifest-path", "a/Cargo.toml"]);
}

#[test]
fn each_feature_order_and_total() {
    let mut cx = base_context();
    cx.each_feature = true;
    let ws = workspace(vec![package("a", &["f1", "f2"])]);
    let (plan, _) = try_main(&cx, &ws).unwrap();
    // no-default-features run, one run per feature, all-features run.
    assert_eq!(plan.total, 4);
    let all: Vec<Vec<String>> = plan.units.iter().map(|u| args_of(&u.line)).collect();
    assert_eq!(
        all,
        vec![
            vec!["check", "--manifest-path", "a/Cargo.toml", "--no-default-features"],
            vec![
                "check",
                "--manifest-path",
                "a/Cargo.toml",
                "--no-default-features",
                "--features",
                "f1"
            ],
            vec![
                "check",
                "--manifest-path",
                "a/Cargo.toml",
                "--no-default-features",
                "--features",
                "f2"
            ],
            vec!["check", "--manifest-path", "a/Cargo.toml", "--all-features"],
        ]
        .into_iter()
        .map(|v: Vec<&str>| v.into_iter().map(|s| s.to_string()).collect::<Vec<String>>())
        .collect::<Vec<Vec<String>>>()
    );
}

#[test]
fn powerset_mode_skips_empty_combination_in_total() {
    let mut cx = base_context();
    cx.feature_powerset = true;
    let ws = workspace(vec![package("a", &["f1", "f2"])]);
    let (plan, _) = try_main(&cx, &ws).unwrap();
    // Combinations [f1], [f2], [f1,f2] plus the two flag runs; [] is covered
    // by the no-default-features run and not counted.
    assert_eq!(plan.total, 5);
    let variant: Vec<String> = args_of(&plan.units[3].line);
    assert_eq!(
        variant,
        vec![
            "check",
            "--manifest-path",
            "a/Cargo.toml",
            "--no-default-features",
            "--features",
            "f1,f2"
        ]
    );
}

#[test]
fn featureless_package_degrades_to_normal() {
    let mut cx = base_context();
    cx.feature_powerset = true;
    let ws = workspace(vec![package("a", &[])]);
    let (plan, _) = try_main(&cx, &ws).unwrap();
    assert_eq!(plan.total, 1);
    assert_eq!(args_of(&plan.units[0].line), vec!["check", "--manifest-path", "a/Cargo.toml"]);
}

#[test]
fn group_members_are_replaced_by_the_group_name() {
    let mut cx = base_context();
    cx.each_feature = true;
    cx.group_features = vec![cargo_hack::context::FeatureGroup {
        members: vec!["f1".to_string(), "f2".to_string()],
        name: "f1,f2".to_string(),
    }];
    let ws = workspace(vec![package("a", &["f1", "f2", "f3"])]);
    let (plan, _) = try_main(&cx, &ws).unwrap();
    // f3 and the synthetic group name, plus the two flag runs.
    assert_eq!(plan.total, 4);
    assert_eq!(args_of(&plan.units[1].line).last().unwrap(), "f3");
    assert_eq!(args_of(&plan.units[2].line).last().unwrap(), "f1,f2");
}

#[test]
fn include_list_overrides_declared_features() {
    let mut cx = base_context();
    cx.each_feature = true;
    cx.include_features = vec!["f2".to_string()];
    let ws = workspace(vec![package("a", &["f1", "f2"])]);
    let (plan, _) = try_main(&cx, &ws).unwrap();
    // Only f2 qualifies, plus the two flag runs; the per-package baseline
    // carries the user's feature list.
    assert_eq!(plan.total, 3);
    assert_eq!(
        args_of(&plan.units[1].line),
        vec![
            "check",
            "--features",
            "f2",
            "--manifest-path",
            "a/Cargo.toml",
            "--no-default-features",
            "--features",
            "f2"
        ]
    );
}

#[test]
fn skip_and_exclude_features() {
    let mut cx = base_context();
    cx.each_feature = true;
    cx.exclude_features = vec!["f2".to_string(), "nope".to_string()];
    let ws = workspace(vec![package("a", &["f1", "f2"])]);
    let (plan, warnings) = try_main(&cx, &ws).unwrap();
    assert_eq!(plan.total, 3);
    let msgs: Vec<String> = warnings.iter().map(|w| w.message()).collect();
    assert_eq!(msgs, vec!["specified feature `nope` not found in package `a`"]);
}

#[test]
fn private_packages_are_skipped() {
    let mut cx = base_context();
    cx.ignore_private = true;
    let mut p = package("a", &[]);
    p.publish = false;
    let ws = workspace(vec![p, package("b", &[])]);
    let (plan, _) = try_main(&cx, &ws).unwrap();
    assert_eq!(plan.total, 1);
    assert_eq!(plan.entries.len(), 2);
    assert_eq!(plan.entries[0], (0, true));
    assert_eq!(plan.entries[1], (1, false));
    assert_eq!(plan.units[0].package, 1);
}

#[test]
fn unknown_package_name_is_fatal() {
    let mut cx = base_context();
    cx.package = vec!["missing".to_string()];
    let ws = workspace(vec![package("a", &[])]);
    let e = try_main(&cx, &ws).err().unwrap();
    assert_eq!(e.message(), "package ID specification `missing` matched no packages");
    assert!(matches!(e, Error::Resolution { .. }));
}

#[test]
fn unknown_excluded_package_only_warns() {
    let mut cx = base_context();
    cx.workspace = true;
    cx.exclude = vec!["missing".to_string()];
    let ws = workspace(vec![package("a", &[])]);
    let (plan, warnings) = try_main(&cx, &ws).unwrap();
    assert_eq!(plan.total, 1);
    let msgs: Vec<String> = warnings.iter().map(|w| w.message()).collect();
    assert_eq!(msgs, vec!["excluded package(s) missing not found in workspace `/ws`"]);
}

#[test]
fn current_package_selection() {
    let cx = base_context();
    let mut ws = workspace(vec![package("a", &[]), package("b", &[])]);
    ws.current = Some("b".to_string());
    let (plan, _) = try_main(&cx, &ws).unwrap();
    assert_eq!(plan.total, 1);
    assert_eq!(plan.units[0].package, 1);
}

#[test]
fn trailing_args_come_last() {
    let mut cx = base_context();
    cx.trailing_args = vec!["--ignored".to_string()];
    let ws = workspace(vec![package("a", &[])]);
    let (plan, _) = try_main(&cx, &ws).unwrap();
    assert_eq!(
        args_of(&plan.units[0].line),
        vec!["check", "--manifest-path", "a/Cargo.toml", "--", "--ignored"]
    );
}

#[test]
fn contradictory_flags_are_rejected() {
    let mut cx = base_context();
    cx.each_feature = true;
    cx.feature_powerset = true;
    let e = validate(&cx).err().unwrap();
    assert_eq!(e.message(), "--each-feature may not be used together with --feature-powerset");

    let mut cx = base_context();
    cx.no_dev_deps = true;
    cx.remove_dev_deps = true;
    let e = validate(&cx).err().unwrap();
    assert_eq!(e.message(), "--no-dev-deps may not be used together with --remove-dev-deps");

    let mut cx = base_context();
    cx.subcommand = Some("test".to_string());
    cx.no_dev_deps = true;
    let e = validate(&cx).err().unwrap();
    assert_eq!(e.message(), "--no-dev-deps may not be used together with test subcommand");

    let mut cx = base_context();
    cx.exclude = vec!["a".to_string()];
    let e = validate(&cx).err().unwrap();
    assert_eq!(e.message(), "--exclude can only be used together with --workspace");

    let mut cx = base_context();
    cx.optional_deps = Some(vec![]);
    let e = validate(&cx).err().unwrap();
    assert_eq!(
        e.message(),
        "--optional-deps can only be used with either --each-feature or --feature-powerset"
    );
}

#[test]
fn dev_deps_removal_rejects_target_flags() {
    let mut cx = base_context();
    cx.no_dev_deps = true;
    cx.leading_args = vec!["check".to_string(), "--all-targets".to_string()];
    let e = validate(&cx).err().unwrap();
    assert_eq!(e.message(), "--no-dev-deps may not be used together with --all-targets");

    let mut cx = base_context();
    cx.remove_dev_deps = true;
    cx.subcommand = Some("build".to_string());
    cx.leading_args = vec!["build".to_string(), "--example=demo".to_string()];
    let e = validate(&cx).err().unwrap();
    assert_eq!(e.message(), "--remove-dev-deps may not be used together with --example=demo");

    let mut cx = base_context();
    cx.no_dev_deps = true;
    cx.leading_args = vec!["check".to_string(), "--examples-like".to_string()];
    assert!(validate(&cx).is_ok());
}

#[test]
fn progress_message_counts_units() {
    let cx = base_context();
    let mut line = CommandLine::new("cargo".to_string());
    line.arg("check");
    let mut progress = Progress::new(3);
    let run = exec_cargo(&cx, &"demo".to_string(), &line, &mut progress);
    assert_eq!(run.message, "running `cargo check` on demo (1/3)");
    assert!(run.clean.is_none());
    let run = exec_cargo(&cx, &"demo".to_string(), &line, &mut progress);
    assert_eq!(run.message, "running `cargo check` on demo (2/3)");
}

#[test]
fn verbose_progress_message_omits_package() {
    let mut cx = base_context();
    cx.verbose = true;
    cx.clean_per_run = true;
    let line = CommandLine::new("cargo".to_string());
    let mut progress = Progress::new(10);
    let run = exec_cargo(&cx, &"demo".to_string(), &line, &mut progress);
    assert_eq!(run.message, "running `cargo` (1/10)");
    let clean = run.clean.unwrap();
    assert_eq!(clean.program, "cargo");
    assert_eq!(clean.args, vec!["clean", "--package", "demo"]);
    assert_eq!(run.clean_message.as_deref(), Some("running `cargo clean --package demo`"));
}

#[test]
fn runner_counts_successes() {
    let ok = Status { success: true, code: Some(0) };
    let mut runner = Runner::new(2);
    assert!(runner.active());
    runner.record(ok);
    runner.record(ok);
    assert!(!runner.active());
    assert!(runner.report().is_ok());
    assert_eq!(runner.progress.count, 2);
}

#[test]
fn runner_fail_fast_stops_and_reports_first_failure() {
    let ok = Status { success: true, code: Some(0) };
    let bad = Status { success: false, code: Some(101) };
    let mut runner = Runner::new(4);
    runner.record(ok);
    runner.record(bad);
    // Units after the failing one are never handed out.
    assert!(!runner.active());
    assert_eq!(runner.progress.count, 2);
    let e = runner.report().err().unwrap();
    assert_eq!(e.message(), "build failed with exit code 101");
}

#[test]
fn skip_message_names_the_package() {
    assert_eq!(
        cargo_hack::plan::skip_message(&"secret".to_string()),
        "skipped running on private crate secret"
    );
}

#[test]
fn io_error_carries_its_message() {
    let e = Error::Io { message: "failed to restore manifest file: Cargo.toml".to_string() };
    assert_eq!(e.message(), "failed to restore manifest file: Cargo.toml");
}

#[test]
fn build_error_message_for_signal_and_negative_code() {
    let e = Error::Build { status: Status { success: false, code: None } };
    assert_eq!(e.message(), "build terminated by a signal");
    let e = Error::Build { status: Status { success: false, code: Some(-3) } };
    assert_eq!(e.message(), "build failed with exit code -3");
}

#[test]
fn coloring_names() {
    assert_eq!(Coloring::Auto.as_str(), "auto");
    assert_eq!(Coloring::Always.as_str(), "always");
    assert_eq!(Coloring::Never.as_str(), "never");
    assert!(matches!(Coloring::from_name(&"always".to_string()), Ok(Coloring::Always)));
    let e = Coloring::from_name(&"blue".to_string()).err().unwrap();
    assert_eq!(e.message(), "must be auto, always, or never, but found `blue`");
}

#[test]
fn flag_argument_errors() {
    let e = req_arg("--color <WHEN>", None);
    assert_eq!(
        e.message(),
        "The argument '--color <WHEN>' requires a value but none was supplied\n\nUSAGE:\n    cargo hack --color <WHEN>\n\nFor more information try --help\n"
    );
    let e = multi_arg("--workspace", Some(&"check".to_string()));
    assert_eq!(
        e.message(),
        "The argument '--workspace' was provided more than once, but cannot be used multiple times\n\nUSAGE:\n    cargo hack check --workspace\n\nFor more information try --help\n"
    );
}

#[test]
fn optional_deps_join_the_matrix() {
    let mut cx = base_context();
    cx.each_feature = true;
    cx.optional_deps = Some(vec![]);
    let mut p = package("a", &["f1"]);
    p.optional_deps = vec!["serde".to_string()];
    let ws = workspace(vec![p]);
    let (plan, _) = try_main(&cx, &ws).unwrap();
    // f1, serde, plus the two flag runs.
    assert_eq!(plan.total, 4);
    let third: Vec<String> = args_of(&plan.units[2].line);
    assert_eq!(third.last().unwrap(), "serde");
}
