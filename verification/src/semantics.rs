//! What the checker's verdicts mean.
//!
//! A locale definition stands for a set of locale values: one per language
//! without regions, one per region of a language with regions. A pattern
//! matches some of them. The theorems here say that the checker, which works
//! on flags, accepts the arms of a unit exactly when each arm matches a value
//! that no earlier arm matches, and calls them exhaustive exactly when every
//! value is matched.
use vstd::prelude::*;
use crate::ast::{
    lemma_first_index, ArmPatternView, DictView, LocaleDefView, TransUnitView, UnitArmView,
};
use crate::check::{
    check_patterns, check_spec, check_unit_spec, lang_text, lemma_check_patterns_error,
    lemma_step_mirrors, lemma_unit_errors_extends, patterns_of, resolve_spec, step_spec,
    string_body_error, string_body_errors, unit_errors, Target,
};
use crate::error::CheckErrorView;
use crate::usage::Coverage;

verus! {

/// A locale as a program sees it at run time: a language and, where the
/// language has regions, one of them. Both are given by their index in the
/// locale definition.
pub struct LocaleValue {
    pub lang: int,
    pub region: Option<int>,
}

/// Whether `v` is a locale of `locale`.
pub open spec fn is_value(locale: LocaleDefView, v: LocaleValue) -> bool {
    &&& 0 <= v.lang < locale.langs.len()
    &&& match v.region {
        None => locale.langs[v.lang].regions.len() == 0,
        Some(r) => 0 <= r < locale.langs[v.lang].regions.len(),
    }
}

/// Whether a pattern with the given meaning matches `v`.
pub open spec fn target_matches(target: Target, v: LocaleValue) -> bool {
    match target {
        Target::Wildcard | Target::Binding => true,
        Target::Lang(i) | Target::RegionBinding(i) => v.lang == i,
        Target::Region(i, j) => v.lang == i && v.region == Some(j),
    }
}

/// Whether `pattern` names what `locale` declares: only a pattern with a
/// region whose language is not declared does not.
pub open spec fn well_named(locale: LocaleDefView, pattern: ArmPatternView) -> bool {
    resolve_spec(locale, pattern) is Ok
}

/// Whether `pattern` matches `v`.
pub open spec fn matches(locale: LocaleDefView, pattern: ArmPatternView, v: LocaleValue) -> bool {
    match resolve_spec(locale, pattern) {
        Ok(target) => target_matches(target, v),
        Err(_) => false,
    }
}

/// Whether one of `patterns` matches `v`.
pub open spec fn covered(
    locale: LocaleDefView,
    patterns: Seq<ArmPatternView>,
    v: LocaleValue,
) -> bool {
    exists|k: int| 0 <= k < patterns.len() && #[trigger] matches(locale, patterns[k], v)
}

/// Whether the pattern at `k` matches a locale that none of the patterns
/// before it matches.
pub open spec fn reachable(locale: LocaleDefView, patterns: Seq<ArmPatternView>, k: int) -> bool {
    exists|v: LocaleValue|
        #[trigger] is_value(locale, v) && matches(locale, patterns[k], v) && !covered(
            locale,
            patterns.take(k),
            v,
        )
}

/// Whether every locale is matched by one of `patterns`.
pub open spec fn covers_all(locale: LocaleDefView, patterns: Seq<ArmPatternView>) -> bool {
    forall|v: LocaleValue| #[trigger] is_value(locale, v) ==> covered(locale, patterns, v)
}

/// Whether the flags say that `v` was matched.
pub open spec fn flagged(cov: Coverage, v: LocaleValue) -> bool {
    cov.all || cov.langs[v.lang].used || (v.region is Some && cov.langs[v.lang].regions[v.region->0].used)
}

/// Whether the flags say of every locale what the patterns say of it.
pub open spec fn agrees(
    locale: LocaleDefView,
    cov: Coverage,
    patterns: Seq<ArmPatternView>,
) -> bool {
    forall|v: LocaleValue| #[trigger]
        is_value(locale, v) ==> (covered(locale, patterns, v) <==> flagged(cov, v))
}

/// The flags are exhausted exactly when every locale is flagged.
pub proof fn lemma_exhausted(locale: LocaleDefView, cov: Coverage)
    requires
        cov.mirrors(locale),
        locale.langs.len() > 0,
    ensures
        cov.exhausted() <==> (forall|v: LocaleValue| #[trigger]
            is_value(locale, v) ==> flagged(cov, v)),
{
    if cov.exhausted() {
        assert forall|v: LocaleValue| #[trigger] is_value(locale, v) implies flagged(cov, v) by {
            if !cov.all {
                assert(cov.langs[v.lang].done());
                if !cov.langs[v.lang].used {
                    assert(cov.langs[v.lang].regions.len() > 0);
                    assert(cov.langs[v.lang].regions[v.region->0].used);
                }
            }
        }
    }
    if forall|v: LocaleValue| #[trigger] is_value(locale, v) ==> flagged(cov, v) {
        if !cov.all {
            assert forall|i: int| 0 <= i < cov.langs.len() implies (#[trigger] cov.langs[i]).done() by {
                lemma_lang_done(locale, cov, i);
            }
        }
    }
}

/// A language of flags that are not exhausted as a whole is done exactly
/// when each of its locales is flagged.
pub proof fn lemma_lang_done(locale: LocaleDefView, cov: Coverage, i: int)
    requires
        cov.mirrors(locale),
        0 <= i < locale.langs.len(),
        !cov.all,
    ensures
        cov.langs[i].done() <==> (forall|v: LocaleValue| #[trigger]
            is_value(locale, v) && v.lang == i ==> flagged(cov, v)),
{
    let lang = cov.langs[i];
    if lang.done() {
        assert forall|v: LocaleValue| #[trigger] is_value(locale, v) && v.lang == i implies flagged(
            cov,
            v,
        ) by {
            if !lang.used {
                assert(lang.regions[v.region->0].used);
            }
        }
    }
    if forall|v: LocaleValue| #[trigger] is_value(locale, v) && v.lang == i ==> flagged(cov, v) {
        if lang.regions.len() == 0 {
            let v = LocaleValue { lang: i, region: None };
            assert(is_value(locale, v));
            assert(flagged(cov, v));
        } else if !lang.used {
            assert forall|j: int| 0 <= j < lang.regions.len() implies (#[trigger] lang.regions[j]).used by {
                let v = LocaleValue { lang: i, region: Some(j) };
                assert(is_value(locale, v));
                assert(flagged(cov, v));
            }
        }
    }
}

/// What a pattern's meaning points at exists in the locale definition.
pub proof fn lemma_target_in_range(locale: LocaleDefView, pattern: ArmPatternView)
    requires
        resolve_spec(locale, pattern) is Ok,
    ensures
        match resolve_spec(locale, pattern)->Ok_0 {
            Target::Wildcard | Target::Binding => true,
            Target::Lang(i) | Target::RegionBinding(i) => 0 <= i < locale.langs.len(),
            Target::Region(i, j) => 0 <= i < locale.langs.len() && 0 <= j
                < locale.langs[i].regions.len(),
        },
{
    lemma_first_index(locale.lang_names(), lang_text(pattern));
    match resolve_spec(locale, pattern)->Ok_0 {
        Target::Region(i, j) => {
            lemma_first_index(locale.langs[i].region_names(), pattern->WithRegion_region.name);
        },
        _ => {},
    }
}

/// One arm: the checker accepts it exactly when it matches a locale that is
/// not flagged yet, and then flags what it matches.
pub proof fn lemma_step(
    locale: LocaleDefView,
    cov: Coverage,
    patterns: Seq<ArmPatternView>,
    pattern: ArmPatternView,
)
    requires
        cov.mirrors(locale),
        locale.langs.len() > 0,
        agrees(locale, cov, patterns),
        well_named(locale, pattern),
    ensures
        step_spec(locale, cov, pattern) is Ok <==> (exists|v: LocaleValue| #[trigger]
            is_value(locale, v) && matches(locale, pattern, v) && !flagged(cov, v)),
        step_spec(locale, cov, pattern) is Ok ==> agrees(
            locale,
            step_spec(locale, cov, pattern)->Ok_0.0,
            patterns.push(pattern),
        ),
        step_spec(locale, cov, pattern) is Err ==> step_spec(locale, cov, pattern)->Err_0
            is UnreachablePattern,
{
    let target = resolve_spec(locale, pattern)->Ok_0;
    let step = step_spec(locale, cov, pattern);
    let extended = patterns.push(pattern);
    lemma_target_in_range(locale, pattern);
    lemma_exhausted(locale, cov);
    // Whether the arm is accepted.
    match target {
        Target::Wildcard | Target::Binding => {
            if step is Ok {
                let v = choose|v: LocaleValue| #[trigger] is_value(locale, v) && !flagged(cov, v);
                assert(is_value(locale, v) && matches(locale, pattern, v) && !flagged(cov, v));
            }
        },
        Target::Lang(i) | Target::RegionBinding(i) => {
            if !cov.all {
                lemma_lang_done(locale, cov, i);
            }
            if step is Ok {
                assert(!cov.langs[i].done());
                let v = choose|v: LocaleValue| #[trigger]
                    is_value(locale, v) && v.lang == i && !flagged(cov, v);
                assert(is_value(locale, v) && matches(locale, pattern, v) && !flagged(cov, v));
            } else {
                assert(cov.langs[i].done() || cov.exhausted());
                if cov.exhausted() && !cov.all {
                    assert(cov.langs[i].done());
                }
            }
        },
        Target::Region(i, j) => {
            let v = LocaleValue { lang: i, region: Some(j) };
            assert(is_value(locale, v));
            assert(matches(locale, pattern, v));
            if step is Ok {
                assert(!flagged(cov, v));
            } else {
                if !cov.langs[i].regions[j].used {
                    if cov.exhausted() && !cov.all {
                        assert(cov.langs[i].done());
                    }
                    if cov.langs[i].done() && !cov.langs[i].used {
                        assert(cov.langs[i].regions[j].used);
                    }
                }
                assert(flagged(cov, v));
                assert forall|w: LocaleValue| #[trigger]
                    is_value(locale, w) && matches(locale, pattern, w) implies flagged(cov, w) by {
                    assert(w == v);
                }
            }
        },
    }
    // What is flagged afterwards.
    if step is Ok {
        let after = step->Ok_0.0;
        assert forall|v: LocaleValue| #[trigger] is_value(locale, v) implies (covered(
            locale,
            extended,
            v,
        ) <==> flagged(after, v)) by {
            assert(covered(locale, patterns, v) <==> flagged(cov, v));
            assert(extended[patterns.len() as int] == pattern);
            if covered(locale, extended, v) {
                let k = choose|k: int|
                    0 <= k < extended.len() && #[trigger] matches(locale, extended[k], v);
                if k < patterns.len() {
                    assert(extended[k] == patterns[k]);
                    assert(matches(locale, patterns[k], v));
                    assert(covered(locale, patterns, v));
                    assert(flagged(cov, v));
                }
                assert(flagged(after, v));
            }
            if flagged(after, v) {
                if flagged(cov, v) {
                    let k = choose|k: int|
                        0 <= k < patterns.len() && #[trigger] matches(locale, patterns[k], v);
                    assert(extended[k] == patterns[k]);
                    assert(matches(locale, extended[k], v));
                } else {
                    assert(matches(locale, pattern, v));
                    assert(matches(locale, extended[patterns.len() as int], v));
                }
            }
        }
    }
}

/// The checker's verdict on the arms of a unit, in terms of the locales
/// that the arms match.
///
/// For a locale definition with at least one language:
/// - the arms are accepted exactly when each of them names what is declared
///   and matches a locale that no earlier arm matches;
/// - accepted arms are judged exhaustive exactly when every locale is
///   matched by one of them;
/// - if they are not accepted, the error is that of the first arm that
///   fails: `UnknownLanguage` if it does not name what is declared, else
///   `UnreachablePattern`, for an arm that matches only what earlier arms
///   match already.
pub proof fn theorem_check_patterns(locale: LocaleDefView, patterns: Seq<ArmPatternView>)
    requires
        locale.langs.len() > 0,
    ensures
        check_patterns(locale, patterns) is Ok <==> (forall|k: int|
            0 <= k < patterns.len() ==> well_named(locale, #[trigger] patterns[k]) && reachable(
                locale,
                patterns,
                k,
            )),
        check_patterns(locale, patterns) matches Ok(cov) ==> (cov.exhausted() <==> covers_all(
            locale,
            patterns,
        )),
        check_patterns(locale, patterns) matches Err(e) ==> exists|k: int|
            {
                &&& 0 <= k < patterns.len()
                &&& check_patterns(locale, patterns.take(k)) is Ok
                &&& if well_named(locale, #[trigger] patterns[k]) {
                    !reachable(locale, patterns, k) && e is UnreachablePattern
                } else {
                    e is UnknownLanguage
                }
            },
{
    lemma_check_patterns(locale, patterns);
    match check_patterns(locale, patterns) {
        Ok(cov) => {
            lemma_exhausted(locale, cov);
        },
        Err(_) => {
            let k = first_failure(locale, patterns);
            assert(!(well_named(locale, patterns[k]) && reachable(locale, patterns, k)));
        },
    }
}

/// The index of the first arm at which the checker stops.
pub open spec fn first_failure(locale: LocaleDefView, patterns: Seq<ArmPatternView>) -> int
    decreases patterns.len(),
{
    if patterns.len() == 0 {
        0
    } else if check_patterns(locale, patterns.drop_last()) is Err {
        first_failure(locale, patterns.drop_last())
    } else {
        patterns.len() - 1
    }
}

/// The induction behind [`theorem_check_patterns`].
proof fn lemma_check_patterns(locale: LocaleDefView, patterns: Seq<ArmPatternView>)
    requires
        locale.langs.len() > 0,
    ensures
        match check_patterns(locale, patterns) {
            Ok(cov) => {
                &&& cov.mirrors(locale)
                &&& agrees(locale, cov, patterns)
                &&& forall|k: int|
                    0 <= k < patterns.len() ==> well_named(locale, #[trigger] patterns[k])
                        && reachable(locale, patterns, k)
            },
            Err(e) => {
                let k = first_failure(locale, patterns);
                &&& 0 <= k < patterns.len()
                &&& check_patterns(locale, patterns.take(k)) is Ok
                &&& if well_named(locale, patterns[k]) {
                    !reachable(locale, patterns, k) && e is UnreachablePattern
                } else {
                    e is UnknownLanguage
                }
            },
        },
    decreases patterns.len(),
{
    if patterns.len() == 0 {
        let cov = Coverage::fresh(locale);
        assert forall|v: LocaleValue| #[trigger] is_value(locale, v) implies (covered(
            locale,
            patterns,
            v,
        ) <==> flagged(cov, v)) by {}
    } else {
        let front = patterns.drop_last();
        let last = patterns.last();
        let n = front.len() as int;
        lemma_check_patterns(locale, front);
        assert(patterns.take(n) =~= front);
        assert(front.push(last) =~= patterns);
        match check_patterns(locale, front) {
            Err(e) => {
                let k = first_failure(locale, front);
                assert(front.take(k) =~= patterns.take(k));
                assert(front[k] == patterns[k]);
                if well_named(locale, patterns[k]) {
                    lemma_reachable_prefix(locale, patterns, n, k);
                }
            },
            Ok(cov) => {
                if well_named(locale, last) {
                    lemma_step(locale, cov, front, last);
                    lemma_step_covered(locale, cov, patterns, n);
                    if step_spec(locale, cov, last) is Ok {
                        lemma_step_mirrors(locale, cov, last);
                        assert forall|k: int| 0 <= k < patterns.len() implies well_named(
                            locale,
                            #[trigger] patterns[k],
                        ) && reachable(locale, patterns, k) by {
                            if k < n {
                                assert(front[k] == patterns[k]);
                                lemma_reachable_prefix(locale, patterns, n, k);
                            }
                        }
                    }
                }
            },
        }
    }
}

/// Whether an arm is reachable depends only on the arms up to it.
proof fn lemma_reachable_prefix(
    locale: LocaleDefView,
    patterns: Seq<ArmPatternView>,
    n: int,
    k: int,
)
    requires
        0 <= k < n <= patterns.len(),
    ensures
        reachable(locale, patterns.take(n), k) == reachable(locale, patterns, k),
{
    assert(patterns.take(n).take(k) =~= patterns.take(k));
    assert(patterns.take(n)[k] == patterns[k]);
}

/// With flags that agree with the arms before it, the arm at `n` is
/// reachable exactly when it matches a locale that is not flagged.
proof fn lemma_step_covered(
    locale: LocaleDefView,
    cov: Coverage,
    patterns: Seq<ArmPatternView>,
    n: int,
)
    requires
        0 <= n < patterns.len(),
        agrees(locale, cov, patterns.take(n)),
    ensures
        reachable(locale, patterns, n) <==> (exists|v: LocaleValue| #[trigger]
            is_value(locale, v) && matches(locale, patterns[n], v) && !flagged(cov, v)),
{
    if reachable(locale, patterns, n) {
        let v = choose|v: LocaleValue|
            #[trigger] is_value(locale, v) && matches(locale, patterns[n], v) && !covered(
                locale,
                patterns.take(n),
                v,
            );
        assert(is_value(locale, v) && matches(locale, patterns[n], v) && !flagged(cov, v));
    }
    if exists|v: LocaleValue| #[trigger]
        is_value(locale, v) && matches(locale, patterns[n], v) && !flagged(cov, v) {
        let v = choose|v: LocaleValue| #[trigger]
            is_value(locale, v) && matches(locale, patterns[n], v) && !flagged(cov, v);
        assert(is_value(locale, v) && matches(locale, patterns[n], v) && !covered(
            locale,
            patterns.take(n),
            v,
        ));
    }
}

/// A pattern with a region whose language is not declared is refused as
/// `UnknownLanguage`, whatever was matched before it.
pub proof fn lemma_unknown_language(
    locale: LocaleDefView,
    cov: Coverage,
    pattern: ArmPatternView,
)
    requires
        pattern is WithRegion,
        locale.lang_index(pattern->WithRegion_lang.name) is None,
    ensures
        step_spec(locale, cov, pattern) == Err::<(Coverage, Target), CheckErrorView>(
            CheckErrorView::UnknownLanguage {
                name: pattern->WithRegion_lang.name,
                span: pattern->WithRegion_lang.span,
            },
        ),
{
}

/// Arms among which one has a region and a language that is not declared are
/// never accepted, wherever that arm stands; where the arms before it are
/// accepted, the error is `UnknownLanguage` for that arm.
pub proof fn lemma_unknown_language_in_arms(
    locale: LocaleDefView,
    patterns: Seq<ArmPatternView>,
    k: int,
)
    requires
        0 <= k < patterns.len(),
        patterns[k] is WithRegion,
        locale.lang_index(patterns[k]->WithRegion_lang.name) is None,
    ensures
        check_patterns(locale, patterns) is Err,
        check_patterns(locale, patterns.take(k)) is Ok ==> check_patterns(locale, patterns) == Err::<
            Coverage,
            CheckErrorView,
        >(
            CheckErrorView::UnknownLanguage {
                name: patterns[k]->WithRegion_lang.name,
                span: patterns[k]->WithRegion_lang.span,
            },
        ),
{
    let upto = patterns.take(k + 1);
    assert(upto.drop_last() =~= patterns.take(k));
    assert(upto.last() == patterns[k]);
    match check_patterns(locale, patterns.take(k)) {
        Ok(cov) => {
            lemma_unknown_language(locale, cov, patterns[k]);
        },
        Err(_) => {},
    }
    assert(check_patterns(locale, upto) is Err);
    lemma_check_patterns_error(locale, patterns, k + 1);
}

/// The error for a pattern with a region whose language is not declared.
pub open spec fn unknown_language_error(pattern: ArmPatternView) -> CheckErrorView {
    CheckErrorView::UnknownLanguage {
        name: pattern->WithRegion_lang.name,
        span: pattern->WithRegion_lang.span,
    }
}

/// A unit with such an arm is refused, wherever the arm stands; where the
/// arms before it are accepted, the error is `UnknownLanguage` for that
/// arm.
pub proof fn lemma_unknown_language_in_unit(locale: LocaleDefView, unit: TransUnitView, k: int)
    requires
        0 <= k < unit.arms.len(),
        unit.arms[k].pattern is WithRegion,
        locale.lang_index(unit.arms[k].pattern->WithRegion_lang.name) is None,
    ensures
        check_unit_spec(locale, unit) is Err,
        check_patterns(locale, patterns_of(unit.arms).take(k)) is Ok ==> check_unit_spec(
            locale,
            unit,
        ) == Err::<bool, CheckErrorView>(unknown_language_error(unit.arms[k].pattern)),
{
    lemma_unknown_language_in_arms(locale, patterns_of(unit.arms), k);
}

/// A dictionary with such an arm in one of its units is refused, wherever
/// the unit and the arm stand. Where nothing fails before that arm (no unit
/// breaks the string-body rule, the units before are accepted and so are the
/// arms before it in its unit), the error is `UnknownLanguage` for that arm.
pub proof fn theorem_unknown_language(dict: DictView, u: int, k: int)
    requires
        0 <= u < dict.units().len(),
        0 <= k < dict.units()[u].arms.len(),
        dict.units()[u].arms[k].pattern is WithRegion,
        dict.locale_def.lang_index(dict.units()[u].arms[k].pattern->WithRegion_lang.name)
            is None,
    ensures
        check_spec(dict) is Err,
        ({
            &&& string_body_errors(dict.units()) is None
            &&& unit_errors(dict.locale_def, dict.units().take(u)) is None
            &&& check_patterns(dict.locale_def, patterns_of(dict.units()[u].arms).take(k)) is Ok
        }) ==> check_spec(dict) == Err::<(), CheckErrorView>(
            unknown_language_error(dict.units()[u].arms[k].pattern),
        ),
{
    let units = dict.units();
    let locale = dict.locale_def;
    let upto = units.take(u + 1);
    lemma_unknown_language_in_unit(locale, units[u], k);
    assert(upto.drop_last() =~= units.take(u));
    assert(upto.last() == units[u]);
    assert(unit_errors(locale, upto) is Some);
    lemma_unit_errors_extends(locale, units, u + 1);
}

/// A unit with a return type of its own and an arm with a string body has a
/// string-body error.
pub proof fn lemma_string_body_found(unit: TransUnitView, arms: Seq<UnitArmView>, a: int)
    requires
        unit.return_type is Some,
        0 <= a < arms.len(),
        arms[a].body is Str,
    ensures
        string_body_error(unit, arms) is Some,
        string_body_error(unit, arms)->0 is CustomReturnRequiresRawBody,
    decreases arms.len(),
{
    if a < arms.len() - 1 {
        assert(arms.drop_last()[a] == arms[a]);
        lemma_string_body_found(unit, arms.drop_last(), a);
    } else {
        lemma_string_body_kind(unit, arms.drop_last());
    }
}

/// A string-body error is a `CustomReturnRequiresRawBody`.
pub proof fn lemma_string_body_kind(unit: TransUnitView, arms: Seq<UnitArmView>)
    ensures
        string_body_error(unit, arms) matches Some(e) ==> e is CustomReturnRequiresRawBody,
    decreases arms.len(),
{
    if unit.return_type is Some && arms.len() > 0 {
        lemma_string_body_kind(unit, arms.drop_last());
    }
}

/// The first string-body error among units is a
/// `CustomReturnRequiresRawBody`.
pub proof fn lemma_string_body_errors_kind(units: Seq<TransUnitView>)
    ensures
        string_body_errors(units) matches Some(e) ==> e is CustomReturnRequiresRawBody,
    decreases units.len(),
{
    if units.len() > 0 {
        lemma_string_body_errors_kind(units.drop_last());
        lemma_string_body_kind(units.last(), units.last().arms);
    }
}

/// A dictionary in which a unit with a return type of its own has an arm
/// with a string body is refused, with `CustomReturnRequiresRawBody`.
pub proof fn theorem_typed_unit_needs_raw_bodies(dict: DictView, u: int, a: int)
    requires
        0 <= u < dict.units().len(),
        dict.units()[u].return_type is Some,
        0 <= a < dict.units()[u].arms.len(),
        dict.units()[u].arms[a].body is Str,
    ensures
        check_spec(dict) is Err,
        check_spec(dict)->Err_0 is CustomReturnRequiresRawBody,
{
    lemma_string_body_errors_found(dict.units(), u, a);
    lemma_string_body_errors_kind(dict.units());
}

/// Units among which one has a string-body error have one as a whole.
proof fn lemma_string_body_errors_found(units: Seq<TransUnitView>, u: int, a: int)
    requires
        0 <= u < units.len(),
        units[u].return_type is Some,
        0 <= a < units[u].arms.len(),
        units[u].arms[a].body is Str,
    ensures
        string_body_errors(units) is Some,
    decreases units.len(),
{
    if u < units.len() - 1 {
        assert(units.drop_last()[u] == units[u]);
        lemma_string_body_errors_found(units.drop_last(), u, a);
    } else {
        lemma_string_body_found(units[u], units[u].arms, a);
    }
}

/// Whether a unit with a return type of its own has raw bodies only.
pub open spec fn raw_if_typed(unit: TransUnitView) -> bool {
    unit.return_type is Some ==> forall|a: int|
        0 <= a < unit.arms.len() ==> (#[trigger] unit.arms[a]).body is Raw
}

/// A unit has no string-body error exactly if it has raw bodies only or no
/// return type of its own.
pub proof fn lemma_string_body_none(unit: TransUnitView, arms: Seq<UnitArmView>)
    ensures
        string_body_error(unit, arms) is None <==> (unit.return_type is Some ==> forall|a: int|
            0 <= a < arms.len() ==> (#[trigger] arms[a]).body is Raw),
    decreases arms.len(),
{
    if unit.return_type is Some && arms.len() > 0 {
        let front = arms.drop_last();
        lemma_string_body_none(unit, front);
        if string_body_error(unit, arms) is None {
            assert forall|a: int| 0 <= a < arms.len() implies (#[trigger] arms[a]).body is Raw by {
                if a < front.len() {
                    assert(front[a] == arms[a]);
                }
            }
        } else {
            if string_body_error(unit, front) is Some {
                let a = choose|a: int| 0 <= a < front.len() && !((#[trigger] front[a]).body is Raw);
                assert(front[a] == arms[a]);
            }
        }
    }
}

/// The checker accepts a dictionary exactly if each of its units passes:
/// a unit with a return type of its own has raw bodies only, and the arms
/// of every unit are accepted, where a unit with a return type of its own
/// must match every locale.
pub proof fn theorem_check_by_units(dict: DictView)
    ensures
        check_spec(dict) is Ok <==> forall|u: int|
            0 <= u < dict.units().len() ==> raw_if_typed(#[trigger] dict.units()[u])
                && check_unit_spec(dict.locale_def, dict.units()[u]) is Ok,
{
    lemma_check_by_units(dict.locale_def, dict.units());
}

/// The induction behind [`theorem_check_by_units`].
proof fn lemma_check_by_units(locale: LocaleDefView, units: Seq<TransUnitView>)
    ensures
        string_body_errors(units) is None <==> forall|u: int|
            0 <= u < units.len() ==> raw_if_typed(#[trigger] units[u]),
        unit_errors(locale, units) is None <==> forall|u: int|
            0 <= u < units.len() ==> check_unit_spec(locale, #[trigger] units[u]) is Ok,
    decreases units.len(),
{
    if units.len() > 0 {
        let front = units.drop_last();
        lemma_check_by_units(locale, front);
        lemma_string_body_none(units.last(), units.last().arms);
        assert(forall|u: int| 0 <= u < front.len() ==> front[u] == units[u]);
        if forall|u: int| 0 <= u < units.len() ==> raw_if_typed(#[trigger] units[u]) {
            assert forall|u: int| 0 <= u < front.len() implies raw_if_typed(
                #[trigger] front[u],
            ) by {
                assert(front[u] == units[u]);
            }
            assert(raw_if_typed(units[units.len() - 1]));
        }
        if string_body_errors(units) is None {
            assert forall|u: int| 0 <= u < units.len() implies raw_if_typed(
                #[trigger] units[u],
            ) by {
                if u < front.len() {
                    assert(front[u] == units[u]);
                }
            }
        }
        if forall|u: int|
            0 <= u < units.len() ==> check_unit_spec(locale, #[trigger] units[u]) is Ok {
            assert forall|u: int| 0 <= u < front.len() implies check_unit_spec(
                locale,
                #[trigger] front[u],
            ) is Ok by {
                assert(front[u] == units[u]);
            }
            assert(check_unit_spec(locale, units[units.len() - 1]) is Ok);
        }
        if unit_errors(locale, units) is None {
            assert forall|u: int| 0 <= u < units.len() implies check_unit_spec(
                locale,
                #[trigger] units[u],
            ) is Ok by {
                if u < front.len() {
                    assert(front[u] == units[u]);
                }
            }
        }
    }
}

} // verus!
