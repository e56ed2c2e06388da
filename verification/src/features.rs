use vstd::prelude::*;

use crate::context::Context;
use crate::context::FeatureGroup;
use crate::context::PackageMeta;
use crate::context::Warning;
use crate::context::WarningModel;
use crate::context::contains_str;
use crate::context::warns;

verus! {

/// The views of a sequence of `Vec`s, element by element.
pub open spec fn vecs<T>(v: Seq<Vec<T>>) -> Seq<Seq<T>> {
    v.map_values(|x: Vec<T>| x@)
}

/// The views of a sequence of `String`s, element by element.
pub open spec fn strs(v: Seq<String>) -> Seq<Seq<char>> {
    v.map_values(|s: String| s@)
}

/// The views of a sequence of string lists, element by element.
pub open spec fn str_sets(v: Seq<Vec<String>>) -> Seq<Seq<Seq<char>>> {
    v.map_values(|x: Vec<String>| strs(x@))
}

/// Does a combination fit under the optional depth bound?
pub open spec fn within_depth<T>(c: Seq<T>, depth: Option<usize>) -> bool {
    match depth {
        Option::None => true,
        Option::Some(d) => c.len() <= d,
    }
}

/// One round of the power-set construction: keep the accumulated combinations
/// unchanged, then append a copy of each with `elem` added at the end,
/// dropping copies that exceed the depth bound.
pub open spec fn powerset_step<T>(acc: Seq<Seq<T>>, elem: T, depth: Option<usize>) -> Seq<Seq<T>> {
    acc + acc.map_values(|c: Seq<T>| c.push(elem)).filter(|c: Seq<T>| within_depth(c, depth))
}

/// The ordered list of feature combinations: start from the single empty
/// combination and fold `powerset_step` over the input elements in order.
pub open spec fn powerset_spec<T>(elems: Seq<T>, depth: Option<usize>) -> Seq<Seq<T>>
    decreases elems.len(),
{
    if elems.len() == 0 {
        seq![Seq::<T>::empty()]
    } else {
        powerset_step(powerset_spec(elems.drop_last(), depth), elems.last(), depth)
    }
}

/// Filtering cannot introduce elements: a property shared by every element of
/// a sequence also holds of every element kept by `filter`.
pub(crate) proof fn lemma_filter_preserves_all<T>(s: Seq<T>, pred: spec_fn(T) -> bool, p: spec_fn(T) -> bool)
    requires
        forall|i: int| 0 <= i < s.len() ==> p(#[trigger] s[i]),
    ensures
        forall|i: int| 0 <= i < s.filter(pred).len() ==> p(#[trigger] s.filter(pred)[i]),
    decreases s.len(),
{
    reveal(Seq::filter);
    if s.len() > 0 {
        assert forall|i: int| 0 <= i < s.drop_last().len() implies p(
            #[trigger] s.drop_last()[i],
        ) by {
            assert(s.drop_last()[i] == s[i]);
        }
        lemma_filter_preserves_all(s.drop_last(), pred, p);
        let sub = s.drop_last().filter(pred);
        if pred(s.last()) {
            assert(s.filter(pred) == sub.push(s.last()));
            assert forall|i: int| 0 <= i < s.filter(pred).len() implies p(
                #[trigger] s.filter(pred)[i],
            ) by {
                if i < sub.len() {
                    assert(s.filter(pred)[i] == sub[i]);
                } else {
                    assert(s.filter(pred)[i] == s.last());
                }
            }
        } else {
            assert(s.filter(pred) == sub);
        }
    }
}

/// Every combination list produced by the construction starts with the empty
/// combination, contains it nowhere else, and respects the depth bound.
pub proof fn lemma_powerset_shape<T>(elems: Seq<T>, depth: Option<usize>)
    ensures
        powerset_spec(elems, depth).len() >= 1,
        powerset_spec(elems, depth)[0] == Seq::<T>::empty(),
        forall|i: int|
            1 <= i < powerset_spec(elems, depth).len() ==> #[trigger] powerset_spec(
                elems,
                depth,
            )[i].len() > 0,
        forall|i: int|
            0 <= i < powerset_spec(elems, depth).len() ==> within_depth(
                #[trigger] powerset_spec(elems, depth)[i],
                depth,
            ),
    decreases elems.len(),
{
    if elems.len() == 0 {
        assert(powerset_spec(elems, depth) == seq![Seq::<T>::empty()]);
        assert(within_depth(Seq::<T>::empty(), depth));
    } else {
        let prev = powerset_spec(elems.drop_last(), depth);
        lemma_powerset_shape(elems.drop_last(), depth);
        let pushed = prev.map_values(|c: Seq<T>| c.push(elems.last()));
        let pred = |c: Seq<T>| within_depth(c, depth);
        assert forall|j: int| 0 <= j < pushed.len() implies #[trigger] pushed[j].len() > 0 by {
            assert(pushed[j] == prev[j].push(elems.last()));
        }
        lemma_filter_preserves_all(pushed, pred, |c: Seq<T>| c.len() > 0);
        let kept = pushed.filter(pred);
        assert forall|i: int| 0 <= i < kept.len() implies within_depth(kept[i], depth) by {
            pushed.lemma_filter_pred(pred, i);
        }
        let full = prev + kept;
        assert(powerset_spec(elems, depth) == full);
        assert(full[0] == prev[0]);
        assert forall|i: int| 1 <= i < full.len() implies #[trigger] full[i].len() > 0 by {
            if i < prev.len() {
                assert(full[i] == prev[i]);
            } else {
                assert(full[i] == kept[i - prev.len()]);
            }
        }
        assert forall|i: int| 0 <= i < full.len() implies within_depth(
            #[trigger] full[i],
            depth,
        ) by {
            if i < prev.len() {
                assert(full[i] == prev[i]);
            } else {
                assert(full[i] == kept[i - prev.len()]);
            }
        }
    }
}

/// All feature combinations of `elems`, in construction order: for each
/// element in turn, every already-accumulated combination is copied, the
/// element is appended to the copy, copies above the depth bound are
/// discarded, and the survivors follow the untouched originals.
pub fn powerset<T: Copy>(elems: Vec<T>, depth: Option<usize>) -> (r: Vec<Vec<T>>)
    ensures
        vecs(r@) == powerset_spec(elems@, depth),
{
    let mut acc: Vec<Vec<T>> = Vec::new();
    acc.push(Vec::new());
    proof {
        assert(vecs(acc@) =~= powerset_spec(elems@.take(0), depth));
    }
    let mut i: usize = 0;
    while i < elems.len()
        invariant
            i <= elems@.len(),
            vecs(acc@) == powerset_spec(elems@.take(i as int), depth),
        decreases elems@.len() - i,
    {
        let elem = elems[i];
        let ghost prev = powerset_spec(elems@.take(i as int), depth);
        let ghost pred = |c: Seq<T>| within_depth(c, depth);
        let ghost f = |c: Seq<T>| c.push(elem);
        let base = acc.len();
        let mut j: usize = 0;
        while j < base
            invariant
                j <= base,
                base == prev.len(),
                base <= acc@.len(),
                elem == elems@[i as int],
                vecs(acc@) == prev + prev.take(j as int).map_values(f).filter(pred),
                pred == (|c: Seq<T>| within_depth(c, depth)),
                f == (|c: Seq<T>| c.push(elem)),
            decreases base - j,
        {
            proof {
                assert(vecs(acc@)[j as int] == prev[j as int]);
            }
            let keep = match depth {
                Option::None => true,
                Option::Some(d) => acc[j].len() < d,
            };
            proof {
                assert(acc@[j as int]@ == prev[j as int]);
                assert(keep == pred(prev[j as int].push(elem)));
            }
            proof {
                prev.lemma_take_succ_push(j as int);
                prev.take(j as int).lemma_push_map_commute(f, prev[j as int]);
                prev.take(j as int).map_values(f).lemma_filter_push(f(prev[j as int]), pred);
                assert(prev.take(j + 1).map_values(f) == prev.take(j as int).map_values(f).push(
                    f(prev[j as int]),
                ));
            }
            if keep {
                let mut c: Vec<T> = Vec::new();
                let n = acc[j].len();
                let mut k: usize = 0;
                while k < n
                    invariant
                        k <= n,
                        j < acc@.len(),
                        n == acc@[j as int]@.len(),
                        c@ == acc@[j as int]@.take(k as int),
                    decreases n - k,
                {
                    let x = acc[j][k];
                    c.push(x);
                    k += 1;
                }
                c.push(elem);
                proof {
                    assert(acc@[j as int]@.take(n as int) == acc@[j as int]@);
                    assert(c@ =~= prev[j as int].push(elem));
                }
                acc.push(c);
                proof {
                    assert(vecs(acc@) =~= (prev + prev.take(j as int).map_values(f).filter(
                        pred,
                    )).push(f(prev[j as int])));
                    assert(vecs(acc@) =~= prev + prev.take(j + 1).map_values(f).filter(pred));
                }
            } else {
                proof {
                    assert(vecs(acc@) =~= prev + prev.take(j + 1).map_values(f).filter(pred));
                }
            }
            j += 1;
        }
        proof {
            assert(prev.take(base as int) == prev);
            assert(elems@.take(i + 1).drop_last() =~= elems@.take(i as int));
            assert(elems@.take(i + 1).last() == elems@[i as int]);
            assert(vecs(acc@) == powerset_spec(elems@.take(i + 1), depth));
        }
        i += 1;
    }
    proof {
        assert(elems@.take(elems@.len() as int) == elems@);
    }
    acc
}

/// The power-set construction on feature names, as fed to the planner: the
/// same algorithm as `powerset`, stated over the character sequences of the
/// names.
pub fn powerset_features(elems: &Vec<String>, depth: Option<usize>) -> (r: Vec<Vec<String>>)
    ensures
        str_sets(r@) == powerset_spec(strs(elems@), depth),
{
    let ghost names = strs(elems@);
    let mut acc: Vec<Vec<String>> = Vec::new();
    acc.push(Vec::new());
    proof {
        assert(str_sets(acc@) =~~= powerset_spec(names.take(0), depth));
    }
    let mut i: usize = 0;
    while i < elems.len()
        invariant
            i <= names.len(),
            names == strs(elems@),
            str_sets(acc@) == powerset_spec(names.take(i as int), depth),
        decreases names.len() - i,
    {
        let ghost prev = powerset_spec(names.take(i as int), depth);
        let ghost pred = |c: Seq<Seq<char>>| within_depth(c, depth);
        let ghost f = |c: Seq<Seq<char>>| c.push(names[i as int]);
        let base = acc.len();
        let mut j: usize = 0;
        while j < base
            invariant
                j <= base,
                i < names.len(),
                base == prev.len(),
                base <= acc@.len(),
                names == strs(elems@),
                str_sets(acc@) == prev + prev.take(j as int).map_values(f).filter(pred),
                pred == (|c: Seq<Seq<char>>| within_depth(c, depth)),
                f == (|c: Seq<Seq<char>>| c.push(names[i as int])),
            decreases base - j,
        {
            proof {
                assert(str_sets(acc@)[j as int] == prev[j as int]);
                assert(strs(acc@[j as int]@) == prev[j as int]);
            }
            let keep = match depth {
                Option::None => true,
                Option::Some(d) => acc[j].len() < d,
            };
            proof {
                assert(keep == pred(f(prev[j as int])));
                prev.lemma_take_succ_push(j as int);
                prev.take(j as int).lemma_push_map_commute(f, prev[j as int]);
                prev.take(j as int).map_values(f).lemma_filter_push(f(prev[j as int]), pred);
                assert(prev.take(j + 1).map_values(f) == prev.take(j as int).map_values(f).push(
                    f(prev[j as int]),
                ));
            }
            if keep {
                let mut c: Vec<String> = Vec::new();
                let n = acc[j].len();
                let mut k: usize = 0;
                while k < n
                    invariant
                        k <= n,
                        j < acc@.len(),
                        n == acc@[j as int]@.len(),
                        c@ == acc@[j as int]@.take(k as int),
                    decreases n - k,
                {
                    let x = acc[j][k].clone();
                    c.push(x);
                    proof {
                        assert(c@ =~= acc@[j as int]@.take(k + 1));
                    }
                    k += 1;
                }
                c.push(elems[i].clone());
                proof {
                    assert(acc@[j as int]@.take(n as int) == acc@[j as int]@);
                    assert(c@ == acc@[j as int]@.push(elems@[i as int]));
                    assert(strs(c@) =~= f(prev[j as int]));
                }
                acc.push(c);
                proof {
                    assert(str_sets(acc@) =~= (prev + prev.take(j as int).map_values(f).filter(
                        pred,
                    )).push(f(prev[j as int])));
                    assert(str_sets(acc@) =~= prev + prev.take(j + 1).map_values(f).filter(pred));
                }
            } else {
                proof {
                    assert(str_sets(acc@) =~= prev + prev.take(j + 1).map_values(f).filter(pred));
                }
            }
            j += 1;
        }
        proof {
            assert(prev.take(base as int) == prev);
            assert(names.take(i + 1).drop_last() =~= names.take(i as int));
            assert(names.take(i + 1).last() == names[i as int]);
            assert(str_sets(acc@) == powerset_spec(names.take(i + 1), depth));
        }
        i += 1;
    }
    proof {
        assert(names.take(names.len() as int) == names);
    }
    acc
}

/// Is the name a member of some defined feature group? Such a name is
/// represented by the group's synthetic name, not listed on its own.
pub open spec fn in_any_group(cx: Context, f: Seq<char>) -> bool {
    exists|g: int|
        0 <= g < cx.group_features@.len() && strs(
            #[trigger] cx.group_features@[g].members@,
        ).contains(f)
}

/// Does a feature name survive the exclude list and the group-member filter?
pub open spec fn keeps(cx: Context, f: Seq<char>) -> bool {
    !strs(cx.exclude_features@).contains(f) && !in_any_group(cx, f)
}

/// The synthetic names of the defined feature groups, in definition order.
pub open spec fn group_names(cx: Context) -> Seq<Seq<char>> {
    cx.group_features@.map_values(|g: FeatureGroup| g.name@)
}

/// Is the name among the package's declared features of any category?
pub open spec fn declared_contains(p: PackageMeta, f: Seq<char>) -> bool {
    strs(p.features@).contains(f) || strs(p.optional_deps@).contains(f) || strs(
        p.deps_features@,
    ).contains(f)
}

/// The list enumeration starts from: the explicit include list when one was
/// given, the package's declared features otherwise.
pub open spec fn start_list(cx: Context, p: PackageMeta) -> Seq<Seq<char>> {
    if cx.include_features@.len() > 0 {
        strs(cx.include_features@)
    } else {
        strs(p.features@)
    }
}

/// The optional-dependency names that join the matrix: those that survive the
/// filter and, when a subset was named, belong to it.
pub open spec fn optional_part(cx: Context, p: PackageMeta) -> Seq<Seq<char>> {
    match cx.optional_deps {
        Option::None => Seq::empty(),
        Option::Some(subset) => strs(p.optional_deps@).filter(
            |f: Seq<char>| keeps(cx, f) && (subset@.len() == 0 || strs(subset@).contains(f)),
        ),
    }
}

/// The transitive-dependency feature names that join the matrix.
pub open spec fn deps_part(cx: Context, p: PackageMeta) -> Seq<Seq<char>> {
    if cx.include_deps_features {
        strs(p.deps_features@).filter(|f: Seq<char>| keeps(cx, f))
    } else {
        Seq::empty()
    }
}

/// The enumerator's output: the filtered start list, then optional-dependency
/// names, then transitive-dependency feature names, then each group's
/// synthetic name.
pub open spec fn enumerated_features(cx: Context, p: PackageMeta) -> Seq<Seq<char>> {
    start_list(cx, p).filter(|f: Seq<char>| keeps(cx, f)) + optional_part(cx, p) + deps_part(cx, p)
        + group_names(cx)
}

/// The warnings for excluded names that no declared feature matches.
pub open spec fn excluded_warnings(cx: Context, p: PackageMeta) -> Seq<WarningModel> {
    strs(cx.exclude_features@).filter(|f: Seq<char>| !declared_contains(p, f)).map_values(
        |f: Seq<char>| WarningModel::UnknownFeature { name: f, package: p.name@ },
    )
}

/// The warnings for named optional dependencies the package does not have.
pub open spec fn optional_warnings(cx: Context, p: PackageMeta) -> Seq<WarningModel> {
    match cx.optional_deps {
        Option::None => Seq::empty(),
        Option::Some(subset) => strs(subset@).filter(
            |f: Seq<char>| !strs(p.optional_deps@).contains(f),
        ).map_values(|f: Seq<char>| WarningModel::UnknownOptionalDep { name: f, package: p.name@ }),
    }
}

/// All warnings the enumerator emits for one package, in emission order.
pub open spec fn feature_warnings(cx: Context, p: PackageMeta) -> Seq<WarningModel> {
    excluded_warnings(cx, p) + optional_warnings(cx, p)
}

/// Pushing one more string onto a list whose views split into `prefix + tail`
/// extends the tail of views by the new string's view.
pub(crate) proof fn lemma_strs_push_concat(pre: Seq<String>, x: String, prefix: Seq<Seq<char>>, tail: Seq<Seq<char>>)
    requires
        strs(pre) == prefix + tail,
    ensures
        strs(pre.push(x)) == prefix + tail.push(x@),
{
    assert(strs(pre).len() == pre.len());
    assert(strs(pre.push(x)).len() == pre.len() + 1);
    assert forall|m: int| 0 <= m < pre.len() + 1 implies strs(pre.push(x))[m] == (prefix
        + tail.push(x@))[m] by {
        if m < pre.len() {
            assert(strs(pre.push(x))[m] == pre[m]@);
            assert(strs(pre)[m] == pre[m]@);
        } else {
            assert(strs(pre.push(x))[m] == x@);
        }
    }
    assert(strs(pre.push(x)) =~= prefix + tail.push(x@));
}

/// The warning-list analogue of `lemma_strs_push_concat`.
pub(crate) proof fn lemma_warns_push_concat(
    pre: Seq<Warning>,
    w: Warning,
    prefix: Seq<WarningModel>,
    tail: Seq<WarningModel>,
)
    requires
        warns(pre) == prefix + tail,
    ensures
        warns(pre.push(w)) == prefix + tail.push(w@),
{
    assert(warns(pre).len() == pre.len());
    assert(warns(pre.push(w)).len() == pre.len() + 1);
    assert forall|m: int| 0 <= m < pre.len() + 1 implies warns(pre.push(w))[m] == (prefix
        + tail.push(w@))[m] by {
        if m < pre.len() {
            assert(warns(pre.push(w))[m] == pre[m]@);
            assert(warns(pre)[m] == pre[m]@);
        } else {
            assert(warns(pre.push(w))[m] == w@);
        }
    }
    assert(warns(pre.push(w)) =~= prefix + tail.push(w@));
}

/// Does the feature name survive the exclude list and the group filter?
fn keeps_feature(cx: &Context, f: &String) -> (r: bool)
    ensures
        r == keeps(*cx, f@),
{
    if contains_str(&cx.exclude_features, f) {
        return false;
    }
    let mut g: usize = 0;
    while g < cx.group_features.len()
        invariant
            g <= cx.group_features@.len(),
            forall|m: int|
                0 <= m < g ==> !strs(#[trigger] cx.group_features@[m].members@).contains(f@),
        decreases cx.group_features@.len() - g,
    {
        if contains_str(&cx.group_features[g].members, f) {
            return false;
        }
        g += 1;
    }
    true
}

/// Is the name among the package's declared features of any category?
fn is_declared(p: &PackageMeta, f: &String) -> (r: bool)
    ensures
        r == declared_contains(*p, f@),
{
    contains_str(&p.features, f) || contains_str(&p.optional_deps, f) || contains_str(
        &p.deps_features,
        f,
    )
}

/// The Feature Enumerator: turn one package's declarations and the policy
/// into the ordered list of feature names the matrix is built from, warning
/// about excluded or requested names that do not exist.
pub fn enumerate_features(cx: &Context, package: &PackageMeta, warnings: &mut Vec<Warning>) -> (r:
    Vec<String>)
    ensures
        strs(r@) == enumerated_features(*cx, *package),
        warns(final(warnings)@) == warns(old(warnings)@) + feature_warnings(*cx, *package),
{
    let ghost w0 = warns(warnings@);
    let ghost excluded = strs(cx.exclude_features@);
    let ghost not_declared = |f: Seq<char>| !declared_contains(*package, f);
    let ghost to_feature_warning = |f: Seq<char>| WarningModel::UnknownFeature {
        name: f,
        package: package.name@,
    };
    let mut i: usize = 0;
    while i < cx.exclude_features.len()
        invariant
            i <= excluded.len(),
            excluded == strs(cx.exclude_features@),
            not_declared == (|f: Seq<char>| !declared_contains(*package, f)),
            to_feature_warning == (|f: Seq<char>| WarningModel::UnknownFeature {
                name: f,
                package: package.name@,
            }),
            warns(warnings@) == w0 + excluded.take(i as int).filter(not_declared).map_values(
                to_feature_warning,
            ),
        decreases excluded.len() - i,
    {
        proof {
            excluded.lemma_take_succ_push(i as int);
            excluded.take(i as int).lemma_filter_push(excluded[i as int], not_declared);
        }
        if !is_declared(package, &cx.exclude_features[i]) {
            let w = Warning::UnknownFeature {
                name: cx.exclude_features[i].clone(),
                package: package.name.clone(),
            };
            let ghost pre = warnings@;
            proof {
                assert(w@ == to_feature_warning(excluded[i as int]));
            }
            warnings.push(w);
            proof {
                let tail = excluded.take(i as int).filter(not_declared).map_values(
                    to_feature_warning,
                );
                lemma_warns_push_concat(pre, w, w0, tail);
                excluded.take(i as int).filter(not_declared).lemma_push_map_commute(
                    to_feature_warning,
                    excluded[i as int],
                );
                assert(warns(warnings@) =~= w0 + excluded.take(i + 1).filter(
                    not_declared,
                ).map_values(to_feature_warning));
            }
        } else {
            proof {
                assert(warns(warnings@) =~= w0 + excluded.take(i + 1).filter(
                    not_declared,
                ).map_values(to_feature_warning));
            }
        }
        i += 1;
    }
    proof {
        assert(excluded.take(excluded.len() as int) == excluded);
        assert(warns(warnings@) == w0 + excluded_warnings(*cx, *package));
    }
    let ghost w1 = warns(warnings@);
    match &cx.optional_deps {
        Option::Some(subset) => {
            let ghost sub = strs(subset@);
            let ghost missing = |f: Seq<char>| !strs(package.optional_deps@).contains(f);
            let ghost to_opt_warning = |f: Seq<char>| WarningModel::UnknownOptionalDep {
                name: f,
                package: package.name@,
            };
            let mut i: usize = 0;
            while i < subset.len()
                invariant
                    i <= sub.len(),
                    sub == strs(subset@),
                    missing == (|f: Seq<char>| !strs(package.optional_deps@).contains(f)),
                    to_opt_warning == (|f: Seq<char>| WarningModel::UnknownOptionalDep {
                        name: f,
                        package: package.name@,
                    }),
                    warns(warnings@) == w1 + sub.take(i as int).filter(missing).map_values(
                        to_opt_warning,
                    ),
                decreases sub.len() - i,
            {
                proof {
                    sub.lemma_take_succ_push(i as int);
                    sub.take(i as int).lemma_filter_push(sub[i as int], missing);
                }
                if !contains_str(&package.optional_deps, &subset[i]) {
                    let w = Warning::UnknownOptionalDep {
                        name: subset[i].clone(),
                        package: package.name.clone(),
                    };
                    let ghost pre = warnings@;
                    proof {
                        assert(w@ == to_opt_warning(sub[i as int]));
                    }
                    warnings.push(w);
                    proof {
                        let tail = sub.take(i as int).filter(missing).map_values(to_opt_warning);
                        lemma_warns_push_concat(pre, w, w1, tail);
                        sub.take(i as int).filter(missing).lemma_push_map_commute(
                            to_opt_warning,
                            sub[i as int],
                        );
                        assert(warns(warnings@) =~= w1 + sub.take(i + 1).filter(
                            missing,
                        ).map_values(to_opt_warning));
                    }
                } else {
                    proof {
                        assert(warns(warnings@) =~= w1 + sub.take(i + 1).filter(
                            missing,
                        ).map_values(to_opt_warning));
                    }
                }
                i += 1;
            }
            proof {
                assert(sub.take(sub.len() as int) == sub);
                assert(warns(warnings@) =~= w0 + feature_warnings(*cx, *package));
            }
        },
        Option::None => {
            proof {
                assert(warns(warnings@) =~= w0 + feature_warnings(*cx, *package));
            }
        },
    }
    let ghost keep = |f: Seq<char>| keeps(*cx, f);
    let mut features: Vec<String> = Vec::new();
    let from_include = cx.include_features.len() > 0;
    let source: &Vec<String> = if from_include {
        &cx.include_features
    } else {
        &package.features
    };
    proof {
        assert(strs(source@) == start_list(*cx, *package));
    }
    let ghost start = strs(source@);
    let mut i: usize = 0;
    while i < source.len()
        invariant
            i <= start.len(),
            start == strs(source@),
            source@.len() == start.len(),
            keep == (|f: Seq<char>| keeps(*cx, f)),
            strs(features@) == start.take(i as int).filter(keep),
        decreases start.len() - i,
    {
        proof {
            start.lemma_take_succ_push(i as int);
            start.take(i as int).lemma_filter_push(start[i as int], keep);
        }
        if keeps_feature(cx, &source[i]) {
            features.push(source[i].clone());
        }
        proof {
            assert(strs(features@) =~= start.take(i + 1).filter(keep));
        }
        i += 1;
    }
    proof {
        assert(start.take(start.len() as int) == start);
        assert(strs(features@) == start_list(*cx, *package).filter(keep));
    }
    let ghost part1 = strs(features@);
    match &cx.optional_deps {
        Option::Some(subset) => {
            let ghost opts = strs(package.optional_deps@);
            let ghost wanted = |f: Seq<char>| keeps(*cx, f) && (subset@.len() == 0 || strs(
                subset@,
            ).contains(f));
            let mut i: usize = 0;
            while i < package.optional_deps.len()
                invariant
                    i <= opts.len(),
                    opts == strs(package.optional_deps@),
                    wanted == (|f: Seq<char>| keeps(*cx, f) && (subset@.len() == 0 || strs(
                        subset@,
                    ).contains(f))),
                    strs(features@) == part1 + opts.take(i as int).filter(wanted),
                decreases opts.len() - i,
            {
                proof {
                    opts.lemma_take_succ_push(i as int);
                    opts.take(i as int).lemma_filter_push(opts[i as int], wanted);
                }
                let in_subset = subset.len() == 0 || contains_str(subset, &package.optional_deps[i]);
                let ghost pre = features@;
                if keeps_feature(cx, &package.optional_deps[i]) && in_subset {
                    features.push(package.optional_deps[i].clone());
                    proof {
                        lemma_strs_push_concat(
                            pre,
                            features@.last(),
                            part1,
                            opts.take(i as int).filter(wanted),
                        );
                    }
                }
                proof {
                    assert(strs(features@) =~= part1 + opts.take(i + 1).filter(wanted));
                }
                i += 1;
            }
            proof {
                assert(opts.take(opts.len() as int) == opts);
                assert(strs(features@) == part1 + optional_part(*cx, *package));
            }
        },
        Option::None => {
            proof {
                assert(strs(features@) =~= part1 + optional_part(*cx, *package));
            }
        },
    }
    let ghost part2 = strs(features@);
    if cx.include_deps_features {
        let ghost deps = strs(package.deps_features@);
        let mut i: usize = 0;
        while i < package.deps_features.len()
            invariant
                i <= deps.len(),
                deps == strs(package.deps_features@),
                keep == (|f: Seq<char>| keeps(*cx, f)),
                strs(features@) == part2 + deps.take(i as int).filter(keep),
            decreases deps.len() - i,
        {
            proof {
                deps.lemma_take_succ_push(i as int);
                deps.take(i as int).lemma_filter_push(deps[i as int], keep);
            }
            let ghost pre = features@;
            if keeps_feature(cx, &package.deps_features[i]) {
                features.push(package.deps_features[i].clone());
                proof {
                    lemma_strs_push_concat(
                        pre,
                        features@.last(),
                        part2,
                        deps.take(i as int).filter(keep),
                    );
                }
            }
            proof {
                assert(strs(features@) =~= part2 + deps.take(i + 1).filter(keep));
            }
            i += 1;
        }
        proof {
            assert(deps.take(deps.len() as int) == deps);
        }
    }
    proof {
        assert(strs(features@) == part2 + deps_part(*cx, *package));
    }
    let ghost part3 = strs(features@);
    let mut i: usize = 0;
    while i < cx.group_features.len()
        invariant
            i <= cx.group_features@.len(),
            strs(features@) == part3 + group_names(*cx).take(i as int),
        decreases cx.group_features@.len() - i,
    {
        let ghost pre = features@;
        features.push(cx.group_features[i].name.clone());
        proof {
            let gn = group_names(*cx);
            gn.lemma_take_succ_push(i as int);
            assert(features@ == pre.push(features@.last()));
            assert(features@.last()@ == gn[i as int]);
            assert forall|m: int| 0 <= m < pre.len() implies strs(features@)[m] == strs(pre)[m] by {
                assert(features@[m] == pre[m]);
            }
            assert(strs(pre) == part3 + gn.take(i as int));
            assert(strs(features@).len() == strs(pre).len() + 1);
            assert(gn.take(i + 1).len() == i + 1);
            assert forall|m: int| 0 <= m < strs(features@).len() implies strs(features@)[m] == (
            part3 + gn.take(i + 1))[m] by {
                if m < part3.len() + i {
                    assert(strs(features@)[m] == strs(pre)[m]);
                    assert((part3 + gn.take(i as int))[m] == (part3 + gn.take(i + 1))[m]);
                } else {
                    assert(strs(features@)[m] == features@.last()@);
                    assert((part3 + gn.take(i + 1))[m] == gn[i as int]);
                }
            }
            assert(strs(features@) =~= part3 + gn.take(i + 1));
        }
        i += 1;
    }
    proof {
        assert(group_names(*cx).take(group_names(*cx).len() as int) == group_names(*cx));
        assert(strs(features@) =~= enumerated_features(*cx, *package));
    }
    features
}

} // verus!
