use vstd::prelude::*;

use crate::features::strs;
use vstd::string::StringExecFns;

verus! {

/// One workspace member, as the workspace metadata provider reports it.
pub struct PackageMeta {
    pub name: String,
    pub manifest_path: String,
    /// Is publishing allowed? `false` marks a private package.
    pub publish: bool,
    /// The package's declared feature names, in declaration order.
    pub features: Vec<String>,
    /// Feature names derived from optional dependencies.
    pub optional_deps: Vec<String>,
    /// Feature names derived from transitive dependencies.
    pub deps_features: Vec<String>,
}

/// The read-only workspace snapshot the planner works from.
pub struct Workspace {
    pub root: String,
    /// All members, in the metadata provider's listing order.
    pub members: Vec<PackageMeta>,
    /// The name of the package of the ambient working context, if resolvable.
    pub current: Option<String>,
}

/// A named feature group: its member features are replaced by the group's
/// synthetic combined name.
pub struct FeatureGroup {
    pub members: Vec<String>,
    pub name: String,
}

/// The resolved run policy: which packages to visit, which feature variants
/// to build, and how to treat manifests.
pub struct Context {
    /// The build tool binary.
    pub program: String,
    /// Arguments repeated on every invocation, subcommand included.
    pub leading_args: Vec<String>,
    /// Arguments passed through to the build tool after `--`.
    pub trailing_args: Vec<String>,
    pub subcommand: Option<String>,
    /// Explicitly selected package names.
    pub package: Vec<String>,
    /// Package names excluded from a whole-workspace run.
    pub exclude: Vec<String>,
    pub workspace: bool,
    pub each_feature: bool,
    pub feature_powerset: bool,
    /// The optional maximum size of a power-set combination.
    pub depth: Option<usize>,
    /// An explicit feature include list; empty means "not given".
    pub include_features: Vec<String>,
    /// Feature names to leave out of the matrix.
    pub exclude_features: Vec<String>,
    /// When present, optional-dependency features join the matrix; a
    /// non-empty list restricts them to that subset.
    pub optional_deps: Option<Vec<String>>,
    pub include_deps_features: bool,
    pub group_features: Vec<FeatureGroup>,
    /// Was `--no-default-features` already part of the baseline arguments?
    pub no_default_features: bool,
    /// Leave out the run with only `--no-default-features`.
    pub exclude_no_default_features: bool,
    /// Leave out the run with `--all-features`.
    pub exclude_all_features: bool,
    /// Remove dev-dependencies for the run and restore them afterwards.
    pub no_dev_deps: bool,
    /// Remove dev-dependencies permanently.
    pub remove_dev_deps: bool,
    /// Skip packages whose manifest forbids publishing.
    pub ignore_private: bool,
    /// Run the tool's clean step before each unit.
    pub clean_per_run: bool,
    pub verbose: bool,
}

/// The spec-level content of a warning.
pub enum WarningModel {
    UnknownFeature { name: Seq<char>, package: Seq<char> },
    UnknownOptionalDep { name: Seq<char>, package: Seq<char> },
    UnknownExcludedPackage { name: Seq<char>, workspace_root: Seq<char> },
}

/// A recoverable condition: reported to the user, then execution continues.
pub enum Warning {
    /// An excluded feature name that no declared feature matches.
    UnknownFeature { name: String, package: String },
    /// A requested optional dependency that the package does not have.
    UnknownOptionalDep { name: String, package: String },
    /// An excluded package name that no workspace member matches.
    UnknownExcludedPackage { name: String, workspace_root: String },
}

impl View for Warning {
    type V = WarningModel;

    open spec fn view(&self) -> WarningModel {
        match self {
            Warning::UnknownFeature { name, package } => WarningModel::UnknownFeature {
                name: name@,
                package: package@,
            },
            Warning::UnknownOptionalDep { name, package } => WarningModel::UnknownOptionalDep {
                name: name@,
                package: package@,
            },
            Warning::UnknownExcludedPackage { name, workspace_root } => (
            WarningModel::UnknownExcludedPackage {
                name: name@,
                workspace_root: workspace_root@,
            }),
        }
    }
}

/// The views of a sequence of warnings.
pub open spec fn warns(v: Seq<Warning>) -> Seq<WarningModel> {
    v.map_values(|w: Warning| w@)
}

/// The message of a warning, as shown to the user.
pub open spec fn warning_message_spec(w: WarningModel) -> Seq<char> {
    match w {
        WarningModel::UnknownFeature { name, package } => "specified feature `"@ + name
            + "` not found in package `"@ + package + "`"@,
        WarningModel::UnknownOptionalDep { name, package } => "specified optional dependency `"@
            + name + "` not found in package `"@ + package + "`"@,
        WarningModel::UnknownExcludedPackage { name, workspace_root } => "excluded package(s) "@
            + name + " not found in workspace `"@ + workspace_root + "`"@,
    }
}

impl Warning {
    /// The message shown to the user for this warning.
    pub fn message(&self) -> (r: String)
        ensures
            r@ == warning_message_spec(self@),
    {
        let mut r = String::new();
        match self {
            Warning::UnknownFeature { name, package } => {
                r.append("specified feature `");
                r.append(name.as_str());
                r.append("` not found in package `");
                r.append(package.as_str());
                r.append("`");
            },
            Warning::UnknownOptionalDep { name, package } => {
                r.append("specified optional dependency `");
                r.append(name.as_str());
                r.append("` not found in package `");
                r.append(package.as_str());
                r.append("`");
            },
            Warning::UnknownExcludedPackage { name, workspace_root } => {
                r.append("excluded package(s) ");
                r.append(name.as_str());
                r.append(" not found in workspace `");
                r.append(workspace_root.as_str());
                r.append("`");
            },
        }
        proof {
            assert(r@ =~= warning_message_spec(self@));
        }
        r
    }
}

/// Does a string list contain these characters?
pub fn contains_str(v: &Vec<String>, s: &String) -> (r: bool)
    ensures
        r == strs(v@).contains(s@),
{
    let mut i: usize = 0;
    while i < v.len()
        invariant
            i <= v@.len(),
            forall|m: int| 0 <= m < i ==> strs(v@)[m] != s@,
        decreases v@.len() - i,
    {
        if v[i].eq(s) {
            proof {
                assert(strs(v@)[i as int] == s@);
            }
            return true;
        }
        i += 1;
    }
    false
}

/// Does a string equal a literal?
pub fn string_is(s: &String, lit: &str) -> (r: bool)
    ensures
        r == (s@ == lit@),
{
    let other = String::from_str(lit);
    s.eq(&other)
}

} // verus!
