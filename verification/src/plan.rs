use vstd::prelude::*;

use crate::context::Context;
use crate::context::PackageMeta;
use crate::context::Warning;
use crate::context::WarningModel;
use crate::context::Workspace;
use crate::context::contains_str;
use crate::context::warns;
use crate::error::Error;
use crate::cli::config_error_message;
use crate::cli::validate;
use crate::process::dec_str;
use crate::process::push_decimal;
use crate::process::render_spec;
use crate::run::Progress;
use crate::error::Status;
use crate::run::run_trace;
use crate::run::runner_start;
use crate::run::lemma_total_attempted;
use vstd::string::StringExecFns;
use crate::features::enumerate_features;
use crate::features::enumerated_features;
use crate::features::feature_warnings;
use crate::features::powerset_features;
use crate::features::powerset_spec;
use crate::features::lemma_powerset_shape;
use crate::features::str_sets;
use crate::features::strs;
use crate::process::CommandLine;
use crate::process::join_comma;
use crate::process::join_features;

verus! {

/// How one package is executed: skipped, once with default features, or once
/// per feature variant.
pub enum Kind {
    /// No build subcommand was requested: the package yields no units.
    NoSubcommand,
    /// A "skip private packages" policy excludes this package.
    SkipAsPrivate,
    /// One unit with default features.
    Normal,
    /// One unit per enumerated feature.
    Each { features: Vec<String> },
    /// One unit per feature combination.
    Powerset { features: Vec<Vec<String>> },
}

/// Does the policy skip this package as private?
pub open spec fn skip_private(cx: Context, p: PackageMeta) -> bool {
    cx.ignore_private && !p.publish
}

/// A package with nothing to enumerate degrades to a single default-features
/// run when it declares no features at all, or when an explicit include list
/// left nothing.
pub open spec fn degrades_to_normal(cx: Context, p: PackageMeta) -> bool {
    enumerated_features(cx, p).len() == 0 && (p.features@.len() == 0 || cx.include_features@.len()
        > 0)
}

/// Does `k` classify the package as the planner's rules demand?
pub open spec fn kind_matches(cx: Context, p: PackageMeta, k: Kind) -> bool {
    if skip_private(cx, p) {
        k is SkipAsPrivate
    } else if cx.subcommand is None {
        k is NoSubcommand
    } else if !cx.each_feature && !cx.feature_powerset {
        k is Normal
    } else if degrades_to_normal(cx, p) {
        k is Normal
    } else if cx.each_feature {
        k matches Kind::Each { features } && strs(features@) == enumerated_features(cx, p)
    } else {
        k matches Kind::Powerset { features } && str_sets(features@) == powerset_spec(
            enumerated_features(cx, p),
            cx.depth,
        )
    }
}

/// The warnings classification emits: the enumerator's, when it runs at all.
pub open spec fn kind_warnings(cx: Context, p: PackageMeta) -> Seq<WarningModel> {
    if skip_private(cx, p) || cx.subcommand is None || (!cx.each_feature && !cx.feature_powerset) {
        Seq::empty()
    } else {
        feature_warnings(cx, p)
    }
}

/// Classify one package into the way it is executed, enumerating its feature
/// variants where the policy asks for them.
pub fn determine_kind(cx: &Context, package: &PackageMeta, warnings: &mut Vec<Warning>) -> (r: Kind)
    ensures
        kind_matches(*cx, *package, r),
        warns(final(warnings)@) == warns(old(warnings)@) + kind_warnings(*cx, *package),
{
    if cx.ignore_private && !package.publish {
        proof {
            assert(warns(warnings@) =~= warns(old(warnings)@) + kind_warnings(*cx, *package));
        }
        return Kind::SkipAsPrivate;
    }
    if cx.subcommand.is_none() {
        proof {
            assert(warns(warnings@) =~= warns(old(warnings)@) + kind_warnings(*cx, *package));
        }
        return Kind::NoSubcommand;
    }
    if !cx.each_feature && !cx.feature_powerset {
        proof {
            assert(warns(warnings@) =~= warns(old(warnings)@) + kind_warnings(*cx, *package));
        }
        return Kind::Normal;
    }
    let features = enumerate_features(cx, package, warnings);
    if features.len() == 0 && (package.features.len() == 0 || cx.include_features.len() > 0) {
        return Kind::Normal;
    }
    if cx.each_feature {
        Kind::Each { features }
    } else {
        let combos = powerset_features(&features, cx.depth);
        Kind::Powerset { features: combos }
    }
}

/// One planned invocation: the package it belongs to and its full command
/// line.
pub struct ExecutionUnit {
    pub package: usize,
    pub line: CommandLine,
}

/// The passthrough arguments, appended after a `--` separator when present.
pub open spec fn with_trailing(cx: Context, args: Seq<Seq<char>>) -> Seq<Seq<char>> {
    if cx.trailing_args@.len() > 0 {
        args.push("--"@) + strs(cx.trailing_args@)
    } else {
        args
    }
}

/// The per-package baseline of a variant unit: `--no-default-features` is
/// always carried, added here unless the shared arguments hold it already.
pub open spec fn ndf_base(cx: Context, base: Seq<Seq<char>>) -> Seq<Seq<char>> {
    if cx.no_default_features {
        base
    } else {
        base.push("--no-default-features"@)
    }
}

/// The arguments of one feature-variant unit.
pub open spec fn variant_args(nb: Seq<Seq<char>>, combo: Seq<Seq<char>>) -> Seq<Seq<char>> {
    nb.push("--features"@).push(join_comma(combo))
}

/// The leading no-default-features unit, unless excluded by policy.
pub open spec fn maybe_ndf(cx: Context, base: Seq<Seq<char>>) -> Seq<Seq<Seq<char>>> {
    if cx.exclude_no_default_features {
        Seq::empty()
    } else {
        seq![with_trailing(cx, ndf_base(cx, base))]
    }
}

/// The trailing all-features unit, unless excluded by policy.
pub open spec fn maybe_all(cx: Context, base: Seq<Seq<char>>) -> Seq<Seq<Seq<char>>> {
    if cx.exclude_all_features {
        Seq::empty()
    } else {
        seq![with_trailing(cx, base.push("--all-features"@))]
    }
}

/// The argument lists of every unit a classified package yields, in
/// execution order: the no-default-features run first, one run per variant in
/// enumerator order, the all-features run last.
pub open spec fn units_for_kind(cx: Context, k: Kind, base: Seq<Seq<char>>) -> Seq<Seq<Seq<char>>> {
    match k {
        Kind::NoSubcommand => Seq::empty(),
        Kind::SkipAsPrivate => Seq::empty(),
        Kind::Normal => seq![with_trailing(cx, base)],
        Kind::Each { features } => maybe_ndf(cx, base) + strs(features@).map_values(
            |f: Seq<char>| with_trailing(cx, variant_args(ndf_base(cx, base), seq![f])),
        ) + maybe_all(cx, base),
        Kind::Powerset { features } => maybe_ndf(cx, base) + (if str_sets(features@).len() == 0 {
            Seq::empty()
        } else {
            str_sets(features@).drop_first().map_values(
                |c: Seq<Seq<char>>| with_trailing(cx, variant_args(ndf_base(cx, base), c)),
            )
        }) + maybe_all(cx, base),
    }
}

/// Does one planned unit carry exactly these arguments?
pub open spec fn unit_matches(u: ExecutionUnit, args: Seq<Seq<char>>, pkg: int, program: Seq<char>) -> bool {
    u.package == pkg && u.line.program@ == program && strs(u.line.args@) == args
}

/// Do the planned units carry exactly these argument lists, in order?
pub open spec fn units_match(
    us: Seq<ExecutionUnit>,
    specs: Seq<Seq<Seq<char>>>,
    pkg: int,
    program: Seq<char>,
) -> bool {
    us.len() == specs.len() && forall|i: int|
        0 <= i < us.len() ==> unit_matches(#[trigger] us[i], specs[i], pkg, program)
}

/// Append the passthrough arguments, after a `--` separator, when there are
/// any.
fn append_trailing(line: &mut CommandLine, cx: &Context)
    ensures
        final(line).program == old(line).program,
        strs(final(line).args@) == with_trailing(*cx, strs(old(line).args@)),
{
    if cx.trailing_args.len() > 0 {
        line.arg("--");
        let ghost head = strs(old(line).args@).push("--"@);
        let ghost trail = strs(cx.trailing_args@);
        let mut i: usize = 0;
        while i < cx.trailing_args.len()
            invariant
                i <= trail.len(),
                trail == strs(cx.trailing_args@),
                line.program == old(line).program,
                strs(line.args@) == head + trail.take(i as int),
            decreases trail.len() - i,
        {
            line.arg(cx.trailing_args[i].as_str());
            proof {
                Seq::push_distributes_over_add(head, trail.take(i as int), trail[i as int]);
                trail.lemma_take_succ_push(i as int);
            }
            i += 1;
        }
        proof {
            assert(trail.take(trail.len() as int) == trail);
        }
    } else {
        proof {
            assert(strs(line.args@) == with_trailing(*cx, strs(old(line).args@)));
        }
    }
}

/// One variant invocation: the baseline plus `--features` and the variant's
/// comma-joined names, with the passthrough arguments last.
pub fn exec_cargo_with_features(cx: &Context, line: &CommandLine, features: &Vec<String>) -> (r:
    CommandLine)
    ensures
        r.program@ == line.program@,
        strs(r.args@) == with_trailing(*cx, variant_args(strs(line.args@), strs(features@))),
{
    let mut r = line.duplicate();
    r.arg("--features");
    let joined = join_features(features);
    r.arg_string(joined);
    append_trailing(&mut r, cx);
    r
}

/// How many units a classified package contributes to the total: one for a
/// default-features run; for a feature matrix, one per qualifying variant
/// plus the no-default-features and all-features runs the policy keeps, a
/// power set's leading empty combination not counted as a variant.
pub open spec fn flag_count(cx: Context) -> int {
    (if cx.exclude_no_default_features {
        0int
    } else {
        1int
    }) + (if cx.exclude_all_features {
        0int
    } else {
        1int
    })
}

/// The unit count the planner owes for one package.
pub open spec fn package_unit_count(cx: Context, p: PackageMeta) -> int {
    if skip_private(cx, p) || cx.subcommand is None {
        0
    } else if !cx.each_feature && !cx.feature_powerset {
        1
    } else if degrades_to_normal(cx, p) {
        1
    } else if cx.each_feature {
        enumerated_features(cx, p).len() + flag_count(cx)
    } else {
        powerset_spec(enumerated_features(cx, p), cx.depth).len() - 1 + flag_count(cx)
    }
}

/// A classified package yields exactly as many units as the count formula
/// says: the total is computed from the same rules that generate the units.
pub proof fn lemma_units_count(cx: Context, p: PackageMeta, k: Kind, base: Seq<Seq<char>>)
    requires
        kind_matches(cx, p, k),
    ensures
        units_for_kind(cx, k, base).len() == package_unit_count(cx, p),
{
    if skip_private(cx, p) || cx.subcommand is None {
    } else if !cx.each_feature && !cx.feature_powerset {
    } else if degrades_to_normal(cx, p) {
    } else if cx.each_feature {
    } else {
        lemma_powerset_shape(enumerated_features(cx, p), cx.depth);
        if let Kind::Powerset { features } = k {
            assert(str_sets(features@).len() >= 1);
        }
    }
}

/// Generate one package's execution units in order: the
/// no-default-features run first (unless excluded), each qualifying variant
/// in enumerator order, the all-features run last (unless excluded). The
/// units are attempted in this order by the run state machine, which stops
/// at the first failure (`run_trace`, `lemma_fail_fast`).
pub fn exec_actual(cx: &Context, kind: &Kind, package_index: usize, line: &CommandLine) -> (r: Vec<
    ExecutionUnit,
>)
    ensures
        units_match(
            r@,
            units_for_kind(*cx, *kind, strs(line.args@)),
            package_index as int,
            line.program@,
        ),
{
    let ghost base = strs(line.args@);
    match kind {
        Kind::NoSubcommand => Vec::new(),
        Kind::SkipAsPrivate => Vec::new(),
        Kind::Normal => {
            let mut l = line.duplicate();
            append_trailing(&mut l, cx);
            let mut units: Vec<ExecutionUnit> = Vec::new();
            units.push(ExecutionUnit { package: package_index, line: l });
            units
        },
        Kind::Each { features } => {
            let ghost specs = units_for_kind(*cx, *kind, base);
            let ghost mids = strs(features@).map_values(
                |f: Seq<char>| with_trailing(*cx, variant_args(ndf_base(*cx, base), seq![f])),
            );
            let mut nb = line.duplicate();
            if !cx.no_default_features {
                nb.arg("--no-default-features");
            }
            proof {
                assert(strs(nb.args@) == ndf_base(*cx, base));
            }
            let mut units: Vec<ExecutionUnit> = Vec::new();
            if !cx.exclude_no_default_features {
                let mut l = nb.duplicate();
                append_trailing(&mut l, cx);
                units.push(ExecutionUnit { package: package_index, line: l });
            }
            let ghost head = maybe_ndf(*cx, base);
            let mut j: usize = 0;
            while j < features.len()
                invariant
                    j <= features@.len(),
                    strs(nb.args@) == ndf_base(*cx, base),
                    nb.program@ == line.program@,
                    base == strs(line.args@),
                    head == maybe_ndf(*cx, base),
                    mids == strs(features@).map_values(
                        |f: Seq<char>| with_trailing(
                            *cx,
                            variant_args(ndf_base(*cx, base), seq![f]),
                        ),
                    ),
                    units@.len() == head.len() + j,
                    forall|m: int|
                        0 <= m < units@.len() ==> unit_matches(
                            #[trigger] units@[m],
                            (head + mids)[m],
                            package_index as int,
                            line.program@,
                        ),
                decreases features@.len() - j,
            {
                let mut one: Vec<String> = Vec::new();
                one.push(features[j].clone());
                proof {
                    assert(strs(one@) =~= seq![features@[j as int]@]);
                }
                let l = exec_cargo_with_features(cx, &nb, &one);
                units.push(ExecutionUnit { package: package_index, line: l });
                proof {
                    assert((head + mids)[head.len() + j] == mids[j as int]);
                    assert(mids[j as int] == with_trailing(
                        *cx,
                        variant_args(ndf_base(*cx, base), seq![strs(features@)[j as int]]),
                    ));
                }
                j += 1;
            }
            if !cx.exclude_all_features {
                let mut l = line.duplicate();
                l.arg("--all-features");
                append_trailing(&mut l, cx);
                units.push(ExecutionUnit { package: package_index, line: l });
                proof {
                    assert(strs(l.args@) == with_trailing(*cx, base.push("--all-features"@)));
                }
            }
            proof {
                let tail = maybe_all(*cx, base);
                assert(specs == head + mids + tail);
                assert(units@.len() == specs.len());
                assert forall|m: int| 0 <= m < units@.len() implies unit_matches(
                    #[trigger] units@[m],
                    specs[m],
                    package_index as int,
                    line.program@,
                ) by {
                    if m < head.len() + mids.len() {
                        assert(specs[m] == (head + mids)[m]);
                    } else {
                        assert(specs[m] == tail[0]);
                    }
                }
            }
            units
        },
        Kind::Powerset { features } => {
            let ghost specs = units_for_kind(*cx, *kind, base);
            let ghost mids = if str_sets(features@).len() == 0 {
                Seq::<Seq<Seq<char>>>::empty()
            } else {
                str_sets(features@).drop_first().map_values(
                    |c: Seq<Seq<char>>| with_trailing(*cx, variant_args(ndf_base(*cx, base), c)),
                )
            };
            let mut nb = line.duplicate();
            if !cx.no_default_features {
                nb.arg("--no-default-features");
            }
            proof {
                assert(strs(nb.args@) == ndf_base(*cx, base));
            }
            let mut units: Vec<ExecutionUnit> = Vec::new();
            if !cx.exclude_no_default_features {
                let mut l = nb.duplicate();
                append_trailing(&mut l, cx);
                units.push(ExecutionUnit { package: package_index, line: l });
            }
            let ghost head = maybe_ndf(*cx, base);
            // The first combination of a power set is `[]`: it is covered by
            // the no-default-features run, so generation starts at 1.
            let mut j: usize = 1;
            while j < features.len()
                invariant
                    1 <= j <= features@.len() || (features@.len() == 0 && j == 1),
                    strs(nb.args@) == ndf_base(*cx, base),
                    nb.program@ == line.program@,
                    base == strs(line.args@),
                    head == maybe_ndf(*cx, base),
                    mids == (if str_sets(features@).len() == 0 {
                        Seq::<Seq<Seq<char>>>::empty()
                    } else {
                        str_sets(features@).drop_first().map_values(
                            |c: Seq<Seq<char>>| with_trailing(
                                *cx,
                                variant_args(ndf_base(*cx, base), c),
                            ),
                        )
                    }),
                    units@.len() == head.len() + j - 1,
                    forall|m: int|
                        0 <= m < units@.len() ==> unit_matches(
                            #[trigger] units@[m],
                            (head + mids)[m],
                            package_index as int,
                            line.program@,
                        ),
                decreases features@.len() - j,
            {
                let l = exec_cargo_with_features(cx, &nb, &features[j]);
                units.push(ExecutionUnit { package: package_index, line: l });
                proof {
                    assert((head + mids)[head.len() + j - 1] == mids[j - 1]);
                    assert(str_sets(features@).drop_first()[j - 1] == str_sets(
                        features@,
                    )[j as int]);
                    assert(mids[j - 1] == with_trailing(
                        *cx,
                        variant_args(ndf_base(*cx, base), strs(features@[j as int]@)),
                    ));
                }
                j += 1;
            }
            if !cx.exclude_all_features {
                let mut l = line.duplicate();
                l.arg("--all-features");
                append_trailing(&mut l, cx);
                units.push(ExecutionUnit { package: package_index, line: l });
                proof {
                    assert(strs(l.args@) == with_trailing(*cx, base.push("--all-features"@)));
                }
            }
            proof {
                let tail = maybe_all(*cx, base);
                assert(specs == head + mids + tail);
                assert(units@.len() == specs.len());
                assert forall|m: int| 0 <= m < units@.len() implies unit_matches(
                    #[trigger] units@[m],
                    specs[m],
                    package_index as int,
                    line.program@,
                ) by {
                    if m < head.len() + mids.len() {
                        assert(specs[m] == (head + mids)[m]);
                    } else {
                        assert(specs[m] == tail[0]);
                    }
                }
            }
            units
        },
    }
}

/// The per-package baseline: the shared arguments, the user's passthrough
/// feature list, and the package's manifest path.
pub open spec fn package_args(cx: Context, p: PackageMeta, base: Seq<Seq<char>>) -> Seq<Seq<char>> {
    let b = if cx.include_features@.len() > 0 {
        base.push("--features"@).push(join_comma(strs(cx.include_features@)))
    } else {
        base
    };
    b.push("--manifest-path"@).push(p.manifest_path@)
}

/// One package's place in the plan: its member index, whether it was skipped
/// as private, and its units in execution order.
pub struct PackagePlan {
    pub package: usize,
    pub skipped_as_private: bool,
    pub units: Vec<ExecutionUnit>,
}

/// Build one package's part of the plan: extend the shared command line with
/// the package-scoped arguments and generate its units.
pub fn exec_on_package(
    cx: &Context,
    package: &PackageMeta,
    package_index: usize,
    kind: &Kind,
    line: &CommandLine,
) -> (r: PackagePlan)
    ensures
        r.package == package_index,
        r.skipped_as_private == (kind is SkipAsPrivate),
        units_match(
            r.units@,
            units_for_kind(*cx, *kind, package_args(*cx, *package, strs(line.args@))),
            package_index as int,
            line.program@,
        ),
{
    if let Kind::SkipAsPrivate = kind {
        return PackagePlan {
            package: package_index,
            skipped_as_private: true,
            units: Vec::new(),
        };
    }
    let mut l = line.duplicate();
    if cx.include_features.len() > 0 {
        l.arg("--features");
        let joined = join_features(&cx.include_features);
        l.arg_string(joined);
    }
    l.arg("--manifest-path");
    l.arg_string(package.manifest_path.clone());
    proof {
        assert(strs(l.args@) == package_args(*cx, *package, strs(line.args@)));
    }
    let units = exec_actual(cx, kind, package_index, &l);
    PackagePlan { package: package_index, skipped_as_private: false, units }
}


/// The names of the workspace members, in listing order.
pub open spec fn member_names(ws: Workspace) -> Seq<Seq<char>> {
    ws.members@.map_values(|p: PackageMeta| p.name@)
}

/// The member indices `0 .. n`, in order.
pub open spec fn index_seq(n: int) -> Seq<int> {
    Seq::new(n as nat, |i: int| i)
}

/// Does the selection policy take member `i`? Used by the whole-workspace,
/// explicit-list and no-ambient-package branches.
pub open spec fn selects(cx: Context, ws: Workspace, i: int) -> bool {
    if cx.workspace {
        !strs(cx.exclude@).contains(member_names(ws)[i])
    } else if cx.package@.len() > 0 {
        strs(cx.package@).contains(member_names(ws)[i])
    } else {
        true
    }
}

/// The first member with this name, scanning from position `i`.
pub open spec fn first_named_at(members: Seq<PackageMeta>, name: Seq<char>, i: int) -> Option<int>
    decreases members.len() - i,
{
    if i < 0 || i >= members.len() {
        Option::None
    } else if members[i].name@ == name {
        Option::Some(i)
    } else {
        first_named_at(members, name, i + 1)
    }
}

/// The member indices the run visits, in cross-package order: all workspace
/// members minus exclusions, or the explicitly named members, or every
/// member, or the one package of the ambient working context.
pub open spec fn selected_indices(cx: Context, ws: Workspace) -> Seq<int> {
    if cx.workspace || cx.package@.len() > 0 || ws.current is None {
        index_seq(ws.members@.len() as int).filter(|i: int| selects(cx, ws, i))
    } else {
        match first_named_at(ws.members@, ws.current.unwrap()@, 0) {
            Option::Some(i) => seq![i],
            Option::None => Seq::empty(),
        }
    }
}

/// The warnings for excluded package names that match no member.
pub open spec fn excluded_package_warnings(cx: Context, ws: Workspace) -> Seq<WarningModel> {
    if cx.workspace {
        strs(cx.exclude@).filter(|n: Seq<char>| !member_names(ws).contains(n)).map_values(
            |n: Seq<char>| WarningModel::UnknownExcludedPackage {
                name: n,
                workspace_root: ws.root@,
            },
        )
    } else {
        Seq::empty()
    }
}

/// The first explicitly named package that matches no member, scanning the
/// explicit list from position `i`.
pub open spec fn first_unknown_package(cx: Context, ws: Workspace, i: int) -> Option<Seq<char>>
    decreases cx.package@.len() - i,
{
    if i < 0 || i >= cx.package@.len() {
        Option::None
    } else if !member_names(ws).contains(strs(cx.package@)[i]) {
        Option::Some(strs(cx.package@)[i])
    } else {
        first_unknown_package(cx, ws, i + 1)
    }
}

/// The warnings classification emits over a list of members, in order.
pub open spec fn list_warnings(cx: Context, ws: Workspace, sel: Seq<int>) -> Seq<WarningModel>
    decreases sel.len(),
{
    if sel.len() == 0 {
        Seq::empty()
    } else {
        list_warnings(cx, ws, sel.drop_last()) + kind_warnings(cx, ws.members@[sel.last()])
    }
}

/// Does the classified list pair exactly these member indices with kinds the
/// planner's rules demand?
pub open spec fn list_matches(
    cx: Context,
    ws: Workspace,
    sel: Seq<int>,
    list: Seq<(usize, Kind)>,
) -> bool {
    list.len() == sel.len() && forall|m: int|
        0 <= m < list.len() ==> (#[trigger] list[m]).0 as int == sel[m] && kind_matches(
            cx,
            ws.members@[sel[m]],
            list[m].1,
        )
}

/// Is some member so named?
fn member_named(ws: &Workspace, name: &String) -> (r: bool)
    ensures
        r == member_names(*ws).contains(name@),
{
    let mut i: usize = 0;
    while i < ws.members.len()
        invariant
            i <= ws.members@.len(),
            forall|m: int| 0 <= m < i ==> member_names(*ws)[m] != name@,
        decreases ws.members@.len() - i,
    {
        if ws.members[i].name.eq(name) {
            proof {
                assert(member_names(*ws)[i as int] == name@);
            }
            return true;
        }
        i += 1;
    }
    false
}

/// Select the packages the run visits and classify each: all workspace
/// members minus exclusions, the explicitly named members, every member, or
/// the ambient package. Naming an unknown package is fatal; excluding an
/// unknown one only warns.
pub fn determine_package_list(cx: &Context, ws: &Workspace, warnings: &mut Vec<Warning>) -> (r:
    Result<Vec<(usize, Kind)>, Error>)
    ensures
        r matches Ok(list) ==> list_matches(*cx, *ws, selected_indices(*cx, *ws), list@) && warns(
            final(warnings)@,
        ) == warns(old(warnings)@) + excluded_package_warnings(*cx, *ws) + list_warnings(
            *cx,
            *ws,
            selected_indices(*cx, *ws),
        ),
        r is Err ==> !cx.workspace && cx.package@.len() > 0 && first_unknown_package(
            *cx,
            *ws,
            0,
        ) is Some && final(warnings)@ == old(warnings)@,
        r matches Err(e) ==> e matches Error::Resolution { message } && message@
            == "package ID specification `"@ + first_unknown_package(*cx, *ws, 0).unwrap()
            + "` matched no packages"@,
        !cx.workspace && cx.package@.len() > 0 && first_unknown_package(*cx, *ws, 0) is Some
            ==> r is Err,
{
    let ghost w0 = warns(warnings@);
    if cx.workspace {
        let ghost excluded = strs(cx.exclude@);
        let ghost missing = |n: Seq<char>| !member_names(*ws).contains(n);
        let ghost to_warning = |n: Seq<char>| WarningModel::UnknownExcludedPackage {
            name: n,
            workspace_root: ws.root@,
        };
        let mut i: usize = 0;
        while i < cx.exclude.len()
            invariant
                i <= excluded.len(),
                excluded == strs(cx.exclude@),
                missing == (|n: Seq<char>| !member_names(*ws).contains(n)),
                to_warning == (|n: Seq<char>| WarningModel::UnknownExcludedPackage {
                    name: n,
                    workspace_root: ws.root@,
                }),
                warns(warnings@) == w0 + excluded.take(i as int).filter(missing).map_values(
                    to_warning,
                ),
            decreases excluded.len() - i,
        {
            proof {
                excluded.lemma_take_succ_push(i as int);
                excluded.take(i as int).lemma_filter_push(excluded[i as int], missing);
            }
            if !member_named(ws, &cx.exclude[i]) {
                let w = Warning::UnknownExcludedPackage {
                    name: cx.exclude[i].clone(),
                    workspace_root: ws.root.clone(),
                };
                let ghost pre = warnings@;
                proof {
                    assert(w@ == to_warning(excluded[i as int]));
                }
                warnings.push(w);
                proof {
                    let tail = excluded.take(i as int).filter(missing).map_values(to_warning);
                    crate::features::lemma_warns_push_concat(pre, w, w0, tail);
                    excluded.take(i as int).filter(missing).lemma_push_map_commute(
                        to_warning,
                        excluded[i as int],
                    );
                    assert(warns(warnings@) =~= w0 + excluded.take(i + 1).filter(
                        missing,
                    ).map_values(to_warning));
                }
            } else {
                proof {
                    assert(warns(warnings@) =~= w0 + excluded.take(i + 1).filter(
                        missing,
                    ).map_values(to_warning));
                }
            }
            i += 1;
        }
        proof {
            assert(excluded.take(excluded.len() as int) == excluded);
        }
    } else if cx.package.len() > 0 {
        let mut i: usize = 0;
        while i < cx.package.len()
            invariant
                i <= cx.package@.len(),
                !cx.workspace,
                cx.package@.len() > 0,
                first_unknown_package(*cx, *ws, 0) == first_unknown_package(*cx, *ws, i as int),
                warnings@ == old(warnings)@,
            decreases cx.package@.len() - i,
        {
            if !member_named(ws, &cx.package[i]) {
                let mut message = String::from_str("package ID specification `");
                message.append(cx.package[i].as_str());
                message.append("` matched no packages");
                proof {
                    assert(first_unknown_package(*cx, *ws, i as int) == Option::Some(
                        strs(cx.package@)[i as int],
                    ));
                    assert(message@ =~= "package ID specification `"@ + first_unknown_package(
                        *cx,
                        *ws,
                        0,
                    ).unwrap() + "` matched no packages"@);
                    assert(!cx.workspace && cx.package@.len() > 0 && first_unknown_package(
                        *cx,
                        *ws,
                        0,
                    ) is Some && warnings@ == old(warnings)@);
                }
                return Err(Error::Resolution { message });
            }
            i += 1;
        }
    }
    proof {
        if !cx.workspace {
            assert(warns(warnings@) =~= w0 + excluded_package_warnings(*cx, *ws));
        }
        assert(warns(warnings@) == w0 + excluded_package_warnings(*cx, *ws));
    }
    let ghost w1 = warns(warnings@);
    let mut list: Vec<(usize, Kind)> = Vec::new();
    if cx.workspace || cx.package.len() > 0 || ws.current.is_none() {
        let ghost idxs = index_seq(ws.members@.len() as int);
        let ghost pred = |i: int| selects(*cx, *ws, i);
        let mut i: usize = 0;
        while i < ws.members.len()
            invariant
                i <= ws.members@.len(),
                idxs == index_seq(ws.members@.len() as int),
                pred == (|i: int| selects(*cx, *ws, i)),
                cx.workspace || cx.package@.len() > 0 || ws.current is None,
                list_matches(*cx, *ws, idxs.take(i as int).filter(pred), list@),
                warns(warnings@) == w1 + list_warnings(*cx, *ws, idxs.take(i as int).filter(pred)),
            decreases ws.members@.len() - i,
        {
            proof {
                idxs.lemma_take_succ_push(i as int);
                idxs.take(i as int).lemma_filter_push(idxs[i as int], pred);
                assert(idxs[i as int] == i as int);
            }
            let selected = if cx.workspace {
                !contains_str(&cx.exclude, &ws.members[i].name)
            } else if cx.package.len() > 0 {
                contains_str(&cx.package, &ws.members[i].name)
            } else {
                true
            };
            proof {
                assert(member_names(*ws)[i as int] == ws.members@[i as int].name@);
                assert(selected == selects(*cx, *ws, i as int));
            }
            if selected {
                let ghost sel = idxs.take(i as int).filter(pred);
                let kind = determine_kind(cx, &ws.members[i], warnings);
                list.push((i, kind));
                proof {
                    assert(sel.push(i as int).drop_last() =~= sel);
                    assert(sel.push(i as int).last() == i as int);
                    assert(list_warnings(*cx, *ws, sel.push(i as int)) == list_warnings(
                        *cx,
                        *ws,
                        sel,
                    ) + kind_warnings(*cx, ws.members@[i as int]));
                    assert(warns(warnings@) =~= w1 + list_warnings(*cx, *ws, sel.push(i as int)));
                    assert forall|m: int| 0 <= m < list@.len() implies (#[trigger] list@[m]).0
                        as int == sel.push(i as int)[m] && kind_matches(
                        *cx,
                        ws.members@[sel.push(i as int)[m]],
                        list@[m].1,
                    ) by {
                        if m < list@.len() - 1 {
                            assert(sel.push(i as int)[m] == sel[m]);
                            assert(list@[m] == list@.drop_last()[m]);
                        }
                    }
                }
            }
            i += 1;
        }
        proof {
            assert(idxs.take(idxs.len() as int) == idxs);
            assert(selected_indices(*cx, *ws) == idxs.filter(pred));
        }
        Ok(list)
    } else {
        let current = match &ws.current {
            Option::Some(c) => c,
            Option::None => {
                proof {
                    assert(false);
                }
                return Ok(list);
            },
        };
        let mut i: usize = 0;
        let mut found: bool = false;
        while i < ws.members.len() && !found
            invariant
                i <= ws.members@.len(),
                !cx.workspace && cx.package@.len() == 0,
                ws.current matches Some(c) && c@ == current@,
                found ==> i < ws.members@.len() && first_named_at(ws.members@, current@, 0)
                    == Option::Some(i as int) && list_matches(*cx, *ws, seq![i as int], list@)
                    && warns(warnings@) == w1 + list_warnings(*cx, *ws, seq![i as int]),
                !found ==> first_named_at(ws.members@, current@, 0) == first_named_at(
                    ws.members@,
                    current@,
                    i as int,
                ) && list@.len() == 0 && warns(warnings@) == w1,
            decreases ws.members@.len() - i + (if found { 0int } else { 1int }),
        {
            if ws.members[i].name.eq(current) {
                let kind = determine_kind(cx, &ws.members[i], warnings);
                list.push((i, kind));
                found = true;
                proof {
                    let sel = seq![i as int];
                    assert(sel.drop_last() =~= Seq::<int>::empty());
                    assert(list_warnings(*cx, *ws, Seq::<int>::empty())
                        == Seq::<WarningModel>::empty());
                    assert(sel.last() == i as int);
                    assert(list_warnings(*cx, *ws, sel) == list_warnings(*cx, *ws, sel.drop_last())
                        + kind_warnings(*cx, ws.members@[i as int]));
                    assert(list_warnings(*cx, *ws, sel) =~= kind_warnings(
                        *cx,
                        ws.members@[i as int],
                    ));
                    assert(warns(warnings@) =~= w1 + list_warnings(*cx, *ws, sel));
                }
            } else {
                i += 1;
            }
        }
        proof {
            if !found {
                assert(first_named_at(ws.members@, current@, 0) is None);
                assert(selected_indices(*cx, *ws) =~= Seq::<int>::empty());
                assert(warns(warnings@) =~= w1 + list_warnings(*cx, *ws, Seq::<int>::empty()));
            } else {
                assert(selected_indices(*cx, *ws) == seq![first_named_at(
                    ws.members@,
                    current@,
                    0,
                ).unwrap()]);
            }
        }
        Ok(list)
    }
}


/// The units one member contributes, fixed by the policy and the package
/// alone: the classification inlined into the unit lists.
pub open spec fn member_units(cx: Context, p: PackageMeta, base0: Seq<Seq<char>>) -> Seq<
    Seq<Seq<char>>,
> {
    let base = package_args(cx, p, base0);
    if skip_private(cx, p) || cx.subcommand is None {
        Seq::empty()
    } else if (!cx.each_feature && !cx.feature_powerset) || degrades_to_normal(cx, p) {
        seq![with_trailing(cx, base)]
    } else if cx.each_feature {
        maybe_ndf(cx, base) + enumerated_features(cx, p).map_values(
            |f: Seq<char>| with_trailing(cx, variant_args(ndf_base(cx, base), seq![f])),
        ) + maybe_all(cx, base)
    } else {
        maybe_ndf(cx, base) + powerset_spec(enumerated_features(cx, p), cx.depth).drop_first()
            .map_values(
            |c: Seq<Seq<char>>| with_trailing(cx, variant_args(ndf_base(cx, base), c)),
        ) + maybe_all(cx, base)
    }
}

/// A matching classification yields exactly the member's units.
pub proof fn lemma_member_units(cx: Context, p: PackageMeta, k: Kind, base0: Seq<Seq<char>>)
    requires
        kind_matches(cx, p, k),
    ensures
        units_for_kind(cx, k, package_args(cx, p, base0)) == member_units(cx, p, base0),
        member_units(cx, p, base0).len() == package_unit_count(cx, p),
{
    let base = package_args(cx, p, base0);
    lemma_units_count(cx, p, k, base);
    if skip_private(cx, p) || cx.subcommand is None {
    } else if (!cx.each_feature && !cx.feature_powerset) || degrades_to_normal(cx, p) {
    } else if cx.each_feature {
    } else {
        lemma_powerset_shape(enumerated_features(cx, p), cx.depth);
        if let Kind::Powerset { features } = k {
            assert(str_sets(features@).len() >= 1);
        }
    }
}

/// The (member, arguments) pairs of the planned units, in order.
pub open spec fn unit_pairs(us: Seq<ExecutionUnit>) -> Seq<(int, Seq<Seq<char>>)> {
    us.map_values(|u: ExecutionUnit| (u.package as int, strs(u.line.args@)))
}

/// The (member, arguments) pairs the whole plan owes, member by member.
pub open spec fn plan_pairs(cx: Context, ws: Workspace, sel: Seq<int>, base0: Seq<Seq<char>>) -> Seq<
    (int, Seq<Seq<char>>),
>
    decreases sel.len(),
{
    if sel.len() == 0 {
        Seq::empty()
    } else {
        plan_pairs(cx, ws, sel.drop_last(), base0) + member_units(
            cx,
            ws.members@[sel.last()],
            base0,
        ).map_values(|a: Seq<Seq<char>>| (sel.last(), a))
    }
}

/// The total the planner owes over a list of members.
pub open spec fn total_of(cx: Context, ws: Workspace, sel: Seq<int>) -> int
    decreases sel.len(),
{
    if sel.len() == 0 {
        0
    } else {
        total_of(cx, ws, sel.drop_last()) + package_unit_count(cx, ws.members@[sel.last()])
    }
}

/// The total unit count the whole run owes, fixed before the first unit runs.
pub open spec fn total_spec(cx: Context, ws: Workspace) -> int {
    total_of(cx, ws, selected_indices(cx, ws))
}

/// Pairs distribute over concatenation of unit lists.
proof fn lemma_unit_pairs_add(a: Seq<ExecutionUnit>, b: Seq<ExecutionUnit>)
    ensures
        unit_pairs(a + b) == unit_pairs(a) + unit_pairs(b),
{
    assert(unit_pairs(a + b) =~= unit_pairs(a) + unit_pairs(b));
}

/// Every selected index names a workspace member.
proof fn lemma_first_named_range(members: Seq<PackageMeta>, name: Seq<char>, i: int)
    requires
        0 <= i,
    ensures
        first_named_at(members, name, i) matches Option::Some(j) ==> i <= j < members.len(),
    decreases members.len() - i,
{
    if i < members.len() && members[i].name@ != name {
        lemma_first_named_range(members, name, i + 1);
    }
}

/// Every selected index names a workspace member.
pub proof fn lemma_selected_in_range(cx: Context, ws: Workspace)
    ensures
        forall|m: int|
            0 <= m < selected_indices(cx, ws).len() ==> 0 <= #[trigger] selected_indices(
                cx,
                ws,
            )[m] < ws.members@.len(),
{
    let sel = selected_indices(cx, ws);
    if cx.workspace || cx.package@.len() > 0 || ws.current is None {
        let idxs = index_seq(ws.members@.len() as int);
        let pred = |i: int| selects(cx, ws, i);
        let in_range = |x: int| 0 <= x < ws.members@.len();
        assert forall|i: int| 0 <= i < idxs.len() implies in_range(#[trigger] idxs[i]) by {
            assert(idxs[i] == i);
        }
        crate::features::lemma_filter_preserves_all(idxs, pred, in_range);
        assert forall|m: int| 0 <= m < sel.len() implies 0 <= #[trigger] sel[m]
            < ws.members@.len() by {
            assert(in_range(idxs.filter(pred)[m]));
        }
    } else {
        lemma_first_named_range(ws.members@, ws.current.unwrap()@, 0);
    }
}

/// The plan one run executes: the selected members in order, every unit in
/// execution order, and the total fixed before the first unit runs.
pub struct ExecutionPlan {
    /// Each visited member's index, and whether it was skipped as private.
    pub entries: Vec<(usize, bool)>,
    /// Every unit of the run, grouped by member, in execution order.
    pub units: Vec<ExecutionUnit>,
    /// The unit count, fixed at planning time.
    pub total: usize,
}

/// Plan the whole run: build the shared command line, select and classify
/// the packages, generate every unit, and fix the total.
pub fn exec_on_workspace(cx: &Context, ws: &Workspace) -> (r: Result<
    (ExecutionPlan, Vec<Warning>),
    Error,
>)
    ensures
        r matches Ok((plan, warnings)) ==> {
            &&& plan.total == plan.units@.len()
            &&& plan.total as int == total_spec(*cx, *ws)
            &&& unit_pairs(plan.units@) == plan_pairs(
                *cx,
                *ws,
                selected_indices(*cx, *ws),
                strs(cx.leading_args@),
            )
            &&& forall|m: int|
                0 <= m < plan.units@.len() ==> (#[trigger] plan.units@[m]).line.program@
                    == cx.program@
            &&& plan.entries@.len() == selected_indices(*cx, *ws).len()
            &&& forall|m: int|
                0 <= m < plan.entries@.len() ==> (#[trigger] plan.entries@[m]).0 as int
                    == selected_indices(*cx, *ws)[m] && plan.entries@[m].1 == skip_private(
                    *cx,
                    ws.members@[selected_indices(*cx, *ws)[m]],
                )
            &&& warns(warnings@) == excluded_package_warnings(*cx, *ws) + list_warnings(
                *cx,
                *ws,
                selected_indices(*cx, *ws),
            )
        },
        r is Err ==> !cx.workspace && cx.package@.len() > 0 && first_unknown_package(
            *cx,
            *ws,
            0,
        ) is Some,
        r matches Err(e) ==> e matches Error::Resolution { message } && message@
            == "package ID specification `"@ + first_unknown_package(*cx, *ws, 0).unwrap()
            + "` matched no packages"@,
        !cx.workspace && cx.package@.len() > 0 && first_unknown_package(*cx, *ws, 0) is Some
            ==> r is Err,
{
    let mut line = CommandLine::new(cx.program.clone());
    let ghost lead = strs(cx.leading_args@);
    let mut i: usize = 0;
    while i < cx.leading_args.len()
        invariant
            i <= lead.len(),
            lead == strs(cx.leading_args@),
            line.program@ == cx.program@,
            strs(line.args@) == lead.take(i as int),
        decreases lead.len() - i,
    {
        line.arg(cx.leading_args[i].as_str());
        proof {
            lead.lemma_take_succ_push(i as int);
        }
        i += 1;
    }
    proof {
        assert(lead.take(lead.len() as int) == lead);
    }
    let mut warnings: Vec<Warning> = Vec::new();
    let list = match determine_package_list(cx, ws, &mut warnings) {
        Ok(list) => list,
        Err(e) => {
            return Err(e);
        },
    };
    let ghost sel = selected_indices(*cx, *ws);
    proof {
        lemma_selected_in_range(*cx, *ws);
    }
    let mut units: Vec<ExecutionUnit> = Vec::new();
    let mut entries: Vec<(usize, bool)> = Vec::new();
    let mut k: usize = 0;
    while k < list.len()
        invariant
            k <= list@.len(),
            sel == selected_indices(*cx, *ws),
            lead == strs(cx.leading_args@),
            line.program@ == cx.program@,
            strs(line.args@) == lead,
            list_matches(*cx, *ws, sel, list@),
            forall|m: int|
                0 <= m < sel.len() ==> 0 <= #[trigger] sel[m] < ws.members@.len(),
            unit_pairs(units@) == plan_pairs(*cx, *ws, sel.take(k as int), lead),
            units@.len() as int == total_of(*cx, *ws, sel.take(k as int)),
            forall|m: int|
                0 <= m < units@.len() ==> (#[trigger] units@[m]).line.program@ == cx.program@,
            entries@.len() == k,
            forall|m: int|
                0 <= m < k ==> (#[trigger] entries@[m]).0 as int == sel[m] && entries@[m].1
                    == skip_private(*cx, ws.members@[sel[m]]),
        decreases list@.len() - k,
    {
        let (idx, kind) = &list[k];
        proof {
            assert(list@[k as int].0 as int == sel[k as int]);
        }
        let pp = exec_on_package(cx, &ws.members[*idx], *idx, kind, &line);
        entries.push((pp.package, pp.skipped_as_private));
        let ghost upre = units@;
        let ghost punits = pp.units@;
        let mut us = pp.units;
        units.append(&mut us);
        proof {
            let p = ws.members@[sel[k as int]];
            lemma_member_units(*cx, p, list@[k as int].1, lead);
            assert(units_match(
                punits,
                member_units(*cx, p, lead),
                sel[k as int],
                cx.program@,
            ));
            assert(unit_pairs(punits) =~= member_units(*cx, p, lead).map_values(
                |a: Seq<Seq<char>>| (sel[k as int], a),
            ));
            assert(units@ == upre + punits);
            lemma_unit_pairs_add(upre, punits);
            assert(sel.take(k + 1).drop_last() =~= sel.take(k as int));
            assert(sel.take(k + 1).last() == sel[k as int]);
            assert(unit_pairs(units@) == plan_pairs(*cx, *ws, sel.take(k + 1), lead));
            assert(pp.skipped_as_private == skip_private(*cx, p)) by {
                if skip_private(*cx, p) {
                } else {
                }
            }
        }
        k += 1;
    }
    proof {
        assert(sel.take(list@.len() as int) == sel);
    }
    let total = units.len();
    Ok((ExecutionPlan { entries, units, total }, warnings))
}

/// Plan a run from the policy and a workspace snapshot: reject contradictory
/// policies, then plan every selected package's units.
pub fn try_main(cx: &Context, ws: &Workspace) -> (r: Result<(ExecutionPlan, Vec<Warning>), Error>)
    ensures
        config_error_message(*cx) matches Some(m) ==> (r matches Err(e) && e matches Error::Config {
            message,
        } && message@ == m),
        config_error_message(*cx) is None ==> {
            &&& (r matches Ok((plan, warnings)) ==> {
                &&& plan.total == plan.units@.len()
                &&& plan.total as int == total_spec(*cx, *ws)
                &&& unit_pairs(plan.units@) == plan_pairs(
                    *cx,
                    *ws,
                    selected_indices(*cx, *ws),
                    strs(cx.leading_args@),
                )
                &&& plan.entries@.len() == selected_indices(*cx, *ws).len()
                &&& forall|m: int|
                    0 <= m < plan.entries@.len() ==> (#[trigger] plan.entries@[m]).0 as int
                        == selected_indices(*cx, *ws)[m] && plan.entries@[m].1 == skip_private(
                        *cx,
                        ws.members@[selected_indices(*cx, *ws)[m]],
                    )
                &&& warns(warnings@) == excluded_package_warnings(*cx, *ws) + list_warnings(
                    *cx,
                    *ws,
                    selected_indices(*cx, *ws),
                )
            })
            &&& (r is Err ==> !cx.workspace && cx.package@.len() > 0 && first_unknown_package(
                *cx,
                *ws,
                0,
            ) is Some)
            &&& (!cx.workspace && cx.package@.len() > 0 && first_unknown_package(
                *cx,
                *ws,
                0,
            ) is Some ==> r is Err)
        },
{
    match validate(cx) {
        Ok(()) => (),
        Err(e) => {
            return Err(e);
        },
    }
    exec_on_workspace(cx, ws)
}

/// What one unit's execution step hands back to the driver: the optional
/// clean invocation and the progress line to print.
pub struct UnitRun {
    pub clean: Option<CommandLine>,
    pub clean_message: Option<String>,
    pub message: String,
}

/// The progress line printed before a unit runs.
pub open spec fn running_message(
    verbose: bool,
    rendered: Seq<char>,
    name: Seq<char>,
    count: int,
    total: int,
) -> Seq<char> {
    let head = if verbose {
        "running "@ + rendered
    } else {
        "running "@ + rendered + " on "@ + name
    };
    head + " ("@ + dec_str(count) + "/"@ + dec_str(total) + ")"@
}

/// The clean invocation that precedes a unit when the policy asks for one.
pub fn cargo_clean(cx: &Context, package_name: &String) -> (r: (CommandLine, Option<String>))
    ensures
        r.0.program@ == cx.program@,
        strs(r.0.args@) == seq!["clean"@, "--package"@, package_name@],
        cx.verbose ==> (r.1 matches Some(m) && m@ == "running "@ + render_spec(r.0)),
        !cx.verbose ==> r.1 is None,
{
    let mut line = CommandLine::new(cx.program.clone());
    line.arg("clean");
    line.arg("--package");
    line.arg(package_name.as_str());
    proof {
        assert(strs(line.args@) =~= seq!["clean"@, "--package"@, package_name@]);
    }
    if cx.verbose {
        let mut m = String::from_str("running ");
        let rendered = line.render();
        m.append(rendered.as_str());
        (line, Some(m))
    } else {
        (line, None)
    }
}

/// Count one attempt and prepare its progress line, and the clean invocation
/// when the policy asks for one.
pub fn exec_cargo(
    cx: &Context,
    package_name: &String,
    line: &CommandLine,
    progress: &mut Progress,
) -> (r: UnitRun)
    requires
        old(progress).count < old(progress).total,
    ensures
        final(progress).count == old(progress).count + 1,
        final(progress).total == old(progress).total,
        r.message@ == running_message(
            cx.verbose,
            render_spec(*line),
            package_name@,
            old(progress).count + 1,
            old(progress).total as int,
        ),
        cx.clean_per_run ==> (r.clean matches Some(c) && c.program@ == cx.program@ && strs(
            c.args@,
        ) == seq!["clean"@, "--package"@, package_name@]),
        !cx.clean_per_run ==> r.clean is None,
{
    progress.count = progress.count + 1;
    let (clean, clean_message) = if cx.clean_per_run {
        let (c, m) = cargo_clean(cx, package_name);
        (Some(c), m)
    } else {
        (None, None)
    };
    let mut message = String::from_str("running ");
    let rendered = line.render();
    message.append(rendered.as_str());
    if !cx.verbose {
        message.append(" on ");
        message.append(package_name.as_str());
    }
    message.append(" (");
    push_decimal(&mut message, progress.count);
    message.append("/");
    push_decimal(&mut message, progress.total);
    message.append(")");
    proof {
        assert(message@ =~= running_message(
            cx.verbose,
            render_spec(*line),
            package_name@,
            old(progress).count + 1,
            old(progress).total as int,
        ));
    }
    UnitRun { clean, clean_message, message }
}


/// The planner's total is exactly the number of units attempted: when every
/// unit of a planned run succeeds, driving the run to its end attempts each
/// of the `total_spec` units once and ends with no failure.
pub proof fn lemma_planned_total_attempted(
    cx: Context,
    ws: Workspace,
    total: usize,
    statuses: Seq<Status>,
)
    requires
        total as int == total_spec(cx, ws),
        statuses.len() >= total,
        forall|i: int| 0 <= i < total ==> (#[trigger] statuses[i]).success,
    ensures
        run_trace(runner_start(total), statuses).progress.count as int == total_spec(cx, ws),
        run_trace(runner_start(total), statuses).failure is None,
{
    lemma_total_attempted(total, statuses);
}


/// The notice printed when a private package is skipped.
pub fn skip_message(package_name: &String) -> (r: String)
    ensures
        r@ == "skipped running on private crate "@ + package_name@,
{
    let mut r = String::from_str("skipped running on private crate ");
    r.append(package_name.as_str());
    proof {
        assert(r@ =~= "skipped running on private crate "@ + package_name@);
    }
    r
}

} // verus!
