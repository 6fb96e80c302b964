//! The checker: every arm must be reachable, a pattern with a region must
//! name a declared language, and a unit with a return type of its own must
//! have raw bodies only and match every locale.
use vstd::prelude::*;
use crate::ast::{
    lemma_first_index, ArmPattern, ArmPatternView, Dict, DictView, LocaleDef, LocaleDefView,
    TransUnit, TransUnitView, UnitArmView,
};
use crate::error::{CheckError, CheckErrorView};
use crate::model::views;
use crate::token::Span;
use crate::usage::{Coverage, PatternUsage};

verus! {

/// What a pattern means against a locale definition.
#[derive(Clone, Copy, Debug, PartialEq, Eq, Structural)]
pub enum Matcher {
    /// `_`: matches every locale.
    Wildcard,
    /// A name that is no declared language: matches every locale and binds
    /// it to the name.
    Binding,
    /// A declared language, whatever the region.
    Lang { lang: usize },
    /// A declared language and one of its declared regions.
    Region { lang: usize, region: usize },
    /// A declared language; the region is bound to a name.
    RegionBinding { lang: usize },
}

/// The model of a [`Matcher`]: the same, over mathematical indices.
pub enum Target {
    Wildcard,
    Binding,
    Lang(int),
    Region(int, int),
    RegionBinding(int),
}

impl View for Matcher {
    type V = Target;

    open spec fn view(&self) -> Target {
        match *self {
            Matcher::Wildcard => Target::Wildcard,
            Matcher::Binding => Target::Binding,
            Matcher::Lang { lang } => Target::Lang(lang as int),
            Matcher::Region { lang, region } => Target::Region(lang as int, region as int),
            Matcher::RegionBinding { lang } => Target::RegionBinding(lang as int),
        }
    }
}

/// The place of a name, or the place of the dictionary as a whole for a
/// made-up name.
pub open spec fn span_or_call_site(span: Option<Span>) -> Span {
    match span {
        Some(span) => span,
        None => Span::spec_call_site(),
    }
}

/// What `pattern` means in `locale`. A name is looked up first as a
/// language, a region name as a region of that language; what is not found
/// is a variable. Only the language of a pattern with a region must exist.
pub open spec fn resolve_spec(locale: LocaleDefView, pattern: ArmPatternView) -> Result<
    Target,
    CheckErrorView,
> {
    match pattern {
        ArmPatternView::Underscore(_) => Ok(Target::Wildcard),
        ArmPatternView::Lang(name) => match locale.lang_index(name.name) {
            Some(i) => Ok(Target::Lang(i)),
            None => Ok(Target::Binding),
        },
        ArmPatternView::WithRegion { lang, region } => match locale.lang_index(lang.name) {
            None => Err(CheckErrorView::UnknownLanguage { name: lang.name, span: lang.span }),
            Some(i) => match locale.langs[i].region_index(region.name) {
                Some(j) => Ok(Target::Region(i, j)),
                None => Ok(Target::RegionBinding(i)),
            },
        },
    }
}

/// The name of the language that a pattern starts with; empty for `_`.
pub open spec fn lang_text(pattern: ArmPatternView) -> Seq<char> {
    match pattern {
        ArmPatternView::Underscore(_) => Seq::empty(),
        ArmPatternView::Lang(name) => name.name,
        ArmPatternView::WithRegion { lang, .. } => lang.name,
    }
}

/// The flags after an arm with the given pattern and meaning, or the error
/// if the arm is unreachable.
pub open spec fn apply_spec(cov: Coverage, pattern: ArmPatternView, target: Target) -> Result<
    Coverage,
    CheckErrorView,
> {
    match target {
        Target::Wildcard | Target::Binding => if cov.exhausted() {
            Err(
                CheckErrorView::UnreachablePattern {
                    pattern: pattern.text(),
                    span: Some(span_or_call_site(pattern.span())),
                },
            )
        } else {
            Ok(cov.with_all())
        },
        Target::Lang(i) | Target::RegionBinding(i) => if cov.langs[i].done() || cov.exhausted() {
            Err(
                CheckErrorView::UnreachablePattern {
                    pattern: lang_text(pattern),
                    span: cov.langs[i].name.span,
                },
            )
        } else {
            Ok(cov.with_lang(i))
        },
        Target::Region(i, j) => if cov.langs[i].regions[j].used || cov.langs[i].done()
            || cov.exhausted() {
            Err(
                CheckErrorView::UnreachablePattern {
                    pattern: pattern.text(),
                    span: cov.langs[i].regions[j].name.span,
                },
            )
        } else {
            Ok(cov.with_region(i, j))
        },
    }
}

/// One arm: what its pattern means, and the flags after it.
pub open spec fn step_spec(locale: LocaleDefView, cov: Coverage, pattern: ArmPatternView) -> Result<
    (Coverage, Target),
    CheckErrorView,
> {
    match resolve_spec(locale, pattern) {
        Err(e) => Err(e),
        Ok(target) => match apply_spec(cov, pattern, target) {
            Err(e) => Err(e),
            Ok(after) => Ok((after, target)),
        },
    }
}

/// The flags after the arms with the given patterns, taken in order from
/// fresh flags, or the error of the first arm that has one.
pub open spec fn check_patterns(locale: LocaleDefView, patterns: Seq<ArmPatternView>) -> Result<
    Coverage,
    CheckErrorView,
>
    decreases patterns.len(),
{
    if patterns.len() == 0 {
        Ok(Coverage::fresh(locale))
    } else {
        match check_patterns(locale, patterns.drop_last()) {
            Err(e) => Err(e),
            Ok(cov) => match step_spec(locale, cov, patterns.last()) {
                Err(e) => Err(e),
                Ok((after, _)) => Ok(after),
            },
        }
    }
}

/// The patterns of a unit's arms, in order.
pub open spec fn patterns_of(arms: Seq<UnitArmView>) -> Seq<ArmPatternView> {
    Seq::new(arms.len(), |i: int| arms[i].pattern)
}

/// Whether the arms of `unit` match every locale, or the first error among
/// its arms. A unit with a return type of its own must match every locale.
pub open spec fn check_unit_spec(locale: LocaleDefView, unit: TransUnitView) -> Result<
    bool,
    CheckErrorView,
> {
    match check_patterns(locale, patterns_of(unit.arms)) {
        Err(e) => Err(e),
        Ok(cov) => if unit.return_type is Some && !cov.exhausted() {
            Err(
                CheckErrorView::MissingFallbackForTypedUnit {
                    unit: unit.name.name,
                    span: unit.name.span,
                },
            )
        } else {
            Ok(cov.exhausted())
        },
    }
}

/// The error of the first arm with a string body, if the unit has a return
/// type of its own.
pub open spec fn string_body_error(unit: TransUnitView, arms: Seq<UnitArmView>) -> Option<
    CheckErrorView,
>
    decreases arms.len(),
{
    if unit.return_type is None || arms.len() == 0 {
        None
    } else {
        match string_body_error(unit, arms.drop_last()) {
            Some(e) => Some(e),
            None => if arms.last().body is Str {
                Some(
                    CheckErrorView::CustomReturnRequiresRawBody {
                        unit: unit.name.name,
                        arm: arms.last().pattern.text(),
                        body_span: arms.last().body_span,
                    },
                )
            } else {
                None
            },
        }
    }
}

/// The first string-body error among the units, in order.
pub open spec fn string_body_errors(units: Seq<TransUnitView>) -> Option<CheckErrorView>
    decreases units.len(),
{
    if units.len() == 0 {
        None
    } else {
        match string_body_errors(units.drop_last()) {
            Some(e) => Some(e),
            None => string_body_error(units.last(), units.last().arms),
        }
    }
}

/// The first error among the arms of the units, in order.
pub open spec fn unit_errors(locale: LocaleDefView, units: Seq<TransUnitView>) -> Option<
    CheckErrorView,
>
    decreases units.len(),
{
    if units.len() == 0 {
        None
    } else {
        match unit_errors(locale, units.drop_last()) {
            Some(e) => Some(e),
            None => match check_unit_spec(locale, units.last()) {
                Err(e) => Some(e),
                Ok(_) => None,
            },
        }
    }
}

/// What the checker says of a dictionary: first the string-body rule over
/// all units, then the arms of each unit.
pub open spec fn check_spec(dict: DictView) -> Result<(), CheckErrorView> {
    match string_body_errors(dict.units()) {
        Some(e) => Err(e),
        None => match unit_errors(dict.locale_def, dict.units()) {
            Some(e) => Err(e),
            None => Ok(()),
        },
    }
}

/// Flags that mirror a locale definition find names where it finds them.
pub proof fn lemma_mirrors_index(cov: Coverage, locale: LocaleDefView)
    requires
        cov.mirrors(locale),
    ensures
        cov.lang_names() == locale.lang_names(),
        forall|i: int|
            0 <= i < cov.langs.len() ==> (#[trigger] cov.langs[i]).region_names()
                == locale.langs[i].region_names(),
{
    assert(cov.lang_names() =~= locale.lang_names());
    assert forall|i: int| 0 <= i < cov.langs.len() implies (#[trigger] cov.langs[i]).region_names()
        == locale.langs[i].region_names() by {
        assert(cov.langs[i].region_names() =~= locale.langs[i].region_names());
    }
}

/// Flags that mirror a locale definition still do so after an arm.
pub proof fn lemma_step_mirrors(locale: LocaleDefView, cov: Coverage, pattern: ArmPatternView)
    requires
        cov.mirrors(locale),
        step_spec(locale, cov, pattern) is Ok,
    ensures
        step_spec(locale, cov, pattern)->Ok_0.0.mirrors(locale),
{
    lemma_mirrors_index(cov, locale);
    let target = resolve_spec(locale, pattern)->Ok_0;
    let after = step_spec(locale, cov, pattern)->Ok_0.0;
    match target {
        Target::Wildcard | Target::Binding => {
            assert(after.langs == cov.langs);
        },
        Target::Lang(i) | Target::RegionBinding(i) => {
            lemma_first_index(locale.lang_names(), lang_text(pattern));
            assert(after.langs[i].regions == cov.langs[i].regions);
            assert forall|k: int| 0 <= k < after.langs.len() implies {
                &&& (#[trigger] after.langs[k]).name == locale.langs[k].name
                &&& after.langs[k].regions.len() == locale.langs[k].regions.len()
                &&& forall|j: int|
                    0 <= j < after.langs[k].regions.len() ==> (#[trigger] after.langs[k].regions[j]).name
                        == locale.langs[k].regions[j]
            } by {
                assert(after.langs[k].regions == cov.langs[k].regions);
                assert(cov.langs[k].name == locale.langs[k].name);
            }
        },
        Target::Region(i, j) => {
            lemma_first_index(locale.lang_names(), lang_text(pattern));
            lemma_first_index(
                locale.langs[i].region_names(),
                pattern->WithRegion_region.name,
            );
            assert forall|k: int| 0 <= k < after.langs.len() implies {
                &&& (#[trigger] after.langs[k]).name == locale.langs[k].name
                &&& after.langs[k].regions.len() == locale.langs[k].regions.len()
                &&& forall|r: int|
                    0 <= r < after.langs[k].regions.len() ==> (#[trigger] after.langs[k].regions[r]).name
                        == locale.langs[k].regions[r]
            } by {
                assert(cov.langs[k].name == locale.langs[k].name);
                assert forall|r: int| 0 <= r < after.langs[k].regions.len() implies (
                #[trigger] after.langs[k].regions[r]).name == locale.langs[k].regions[r] by {
                    assert(cov.langs[k].regions[r].name == locale.langs[k].regions[r]);
                }
            }
        },
    }
}

/// What `pattern` means in `locale`.
pub fn resolve(pattern: &ArmPattern, locale: &LocaleDef) -> (r: Result<Matcher, CheckError>)
    ensures
        match r {
            Ok(m) => resolve_spec(locale@, pattern@) == Ok::<Target, CheckErrorView>(m@),
            Err(e) => resolve_spec(locale@, pattern@) == Err::<Target, CheckErrorView>(e@),
        },
{
    match pattern {
        ArmPattern::Underscore(_) => Ok(Matcher::Wildcard),
        ArmPattern::Lang(name) => match locale.lang_index(name.as_str()) {
            Some(lang) => Ok(Matcher::Lang { lang }),
            None => Ok(Matcher::Binding),
        },
        ArmPattern::WithRegion { lang: lang_name, region } => {
            match locale.lang_index(lang_name.as_str()) {
                None => Err(
                    CheckError::UnknownLanguage {
                        name: lang_name.name.clone(),
                        span: lang_name.span(),
                    },
                ),
                Some(lang) => match locale.langs[lang].region_index(region.as_str()) {
                    Some(region) => Ok(Matcher::Region { lang, region }),
                    None => Ok(Matcher::RegionBinding { lang }),
                },
            }
        },
    }
}

/// Checks one arm against what the arms before it have matched: the arm's
/// meaning, with `usage` updated, or the arm's error, with `usage` as it
/// was.
pub fn check_arm(pattern: &ArmPattern, usage: &mut PatternUsage, locale: &LocaleDef) -> (r: Result<
    Matcher,
    CheckError,
>)
    requires
        old(usage)@.mirrors(locale@),
    ensures
        final(usage)@.mirrors(locale@),
        match r {
            Ok(m) => step_spec(locale@, old(usage)@, pattern@) == Ok::<
                (Coverage, Target),
                CheckErrorView,
            >((final(usage)@, m@)),
            Err(e) => step_spec(locale@, old(usage)@, pattern@) == Err::<
                (Coverage, Target),
                CheckErrorView,
            >(e@) && final(usage)@ == old(usage)@,
        },
{
    proof {
        lemma_mirrors_index(usage@, locale@);
        lemma_first_index(locale@.lang_names(), lang_text(pattern@));
        if step_spec(locale@, usage@, pattern@) is Ok {
            lemma_step_mirrors(locale@, usage@, pattern@);
        }
    }
    let matcher = match resolve(pattern, locale) {
        Ok(m) => m,
        Err(e) => {
            return Err(e);
        },
    };
    let done = match pattern {
        ArmPattern::Underscore(span) => usage.use_wildcard(*span, None),
        ArmPattern::Lang(name) => match matcher {
            Matcher::Lang { .. } => usage.use_lang(name.as_str()),
            _ => {
                let span = match name.span() {
                    Some(span) => span,
                    None => Span::call_site(),
                };
                usage.use_wildcard(span, Some(name.as_str()))
            },
        },
        ArmPattern::WithRegion { lang, region } => match matcher {
            Matcher::Region { .. } => usage.use_region(lang.as_str(), region.as_str()),
            _ => usage.use_lang(lang.as_str()),
        },
    };
    match done {
        Ok(()) => Ok(matcher),
        Err(e) => Err(e),
    }
}

/// Fresh flags mirror the locale definition they were made for.
pub proof fn lemma_fresh_mirrors(locale: LocaleDefView)
    ensures
        Coverage::fresh(locale).mirrors(locale),
{
}

/// Checks the arms of one unit in order. `Ok(true)` if they match every
/// locale, `Ok(false)` if a unit that returns text leaves some unmatched.
pub fn check_unit(unit: &TransUnit, locale: &LocaleDef) -> (r: Result<bool, CheckError>)
    ensures
        match r {
            Ok(exhaustive) => check_unit_spec(locale@, unit@) == Ok::<bool, CheckErrorView>(
                exhaustive,
            ),
            Err(e) => check_unit_spec(locale@, unit@) == Err::<bool, CheckErrorView>(e@),
        },
{
    let ghost patterns = patterns_of(unit@.arms);
    let mut usage = PatternUsage::new(locale);
    let mut i: usize = 0;
    proof {
        lemma_fresh_mirrors(locale@);
        assert(patterns.take(0) =~= Seq::<ArmPatternView>::empty());
    }
    while i < unit.body.arms.len()
        invariant
            i <= unit.body.arms.len(),
            patterns == patterns_of(unit@.arms),
            patterns.len() == unit.body.arms.len(),
            usage@.mirrors(locale@),
            check_patterns(locale@, patterns.take(i as int)) == Ok::<Coverage, CheckErrorView>(
                usage@,
            ),
        decreases unit.body.arms.len() - i,
    {
        proof {
            assert(patterns.take(i + 1).drop_last() =~= patterns.take(i as int));
            assert(patterns.take(i + 1).last() == unit.body.arms@[i as int].pattern@);
        }
        match check_arm(&unit.body.arms[i].pattern, &mut usage, locale) {
            Ok(_) => {},
            Err(e) => {
                proof {
                    lemma_check_patterns_error(locale@, patterns, i + 1);
                }
                return Err(e);
            },
        }
        i += 1;
    }
    proof {
        assert(patterns.take(i as int) =~= patterns);
    }
    let exhaustive = usage.is_exhausted();
    if unit.return_type.is_some() && !exhaustive {
        Err(
            CheckError::MissingFallbackForTypedUnit {
                unit: unit.name.name.clone(),
                span: unit.name.span(),
            },
        )
    } else {
        Ok(exhaustive)
    }
}

/// An error among the first arms is the error of all the arms.
pub proof fn lemma_check_patterns_error(
    locale: LocaleDefView,
    patterns: Seq<ArmPatternView>,
    n: int,
)
    requires
        0 <= n <= patterns.len(),
        check_patterns(locale, patterns.take(n)) is Err,
    ensures
        check_patterns(locale, patterns) == check_patterns(locale, patterns.take(n)),
    decreases patterns.len() - n,
{
    if n < patterns.len() {
        assert(patterns.take(n + 1).drop_last() =~= patterns.take(n));
        lemma_check_patterns_error(locale, patterns, n + 1);
    } else {
        assert(patterns.take(n) =~= patterns);
    }
}

/// An error among the first arms of a unit is the error of all its arms.
proof fn lemma_string_body_error_extends(unit: TransUnitView, arms: Seq<UnitArmView>, n: int)
    requires
        0 <= n <= arms.len(),
        string_body_error(unit, arms.take(n)) is Some,
    ensures
        string_body_error(unit, arms) == string_body_error(unit, arms.take(n)),
    decreases arms.len() - n,
{
    if n < arms.len() {
        assert(arms.take(n + 1).drop_last() =~= arms.take(n));
        lemma_string_body_error_extends(unit, arms, n + 1);
    } else {
        assert(arms.take(n) =~= arms);
    }
}

/// An error among the first units is the error of all the units.
proof fn lemma_string_body_errors_extends(units: Seq<TransUnitView>, n: int)
    requires
        0 <= n <= units.len(),
        string_body_errors(units.take(n)) is Some,
    ensures
        string_body_errors(units) == string_body_errors(units.take(n)),
    decreases units.len() - n,
{
    if n < units.len() {
        assert(units.take(n + 1).drop_last() =~= units.take(n));
        lemma_string_body_errors_extends(units, n + 1);
    } else {
        assert(units.take(n) =~= units);
    }
}

/// An error among the first units is the error of all the units.
pub proof fn lemma_unit_errors_extends(locale: LocaleDefView, units: Seq<TransUnitView>, n: int)
    requires
        0 <= n <= units.len(),
        unit_errors(locale, units.take(n)) is Some,
    ensures
        unit_errors(locale, units) == unit_errors(locale, units.take(n)),
    decreases units.len() - n,
{
    if n < units.len() {
        assert(units.take(n + 1).drop_last() =~= units.take(n));
        lemma_unit_errors_extends(locale, units, n + 1);
    } else {
        assert(units.take(n) =~= units);
    }
}

/// The string-body rule for one unit: a unit with a return type of its own
/// has no arm with a string body.
fn unit_has_raw_bodies(unit: &TransUnit) -> (r: Result<(), CheckError>)
    ensures
        match r {
            Ok(()) => string_body_error(unit@, unit@.arms) is None,
            Err(e) => string_body_error(unit@, unit@.arms) == Some(e@),
        },
{
    if unit.return_type.is_none() {
        return Ok(());
    }
    let ghost arms = unit@.arms;
    let mut i: usize = 0;
    while i < unit.body.arms.len()
        invariant
            i <= unit.body.arms.len(),
            arms == unit@.arms,
            unit@.return_type is Some,
            string_body_error(unit@, arms.take(i as int)) is None,
        decreases unit.body.arms.len() - i,
    {
        let arm = &unit.body.arms[i];
        proof {
            assert(arms.take(i + 1).drop_last() =~= arms.take(i as int));
            assert(arms.take(i + 1).last() == arm@);
        }
        if !arm.body.obj.is_raw_block() {
            proof {
                lemma_string_body_error_extends(unit@, arms, i + 1);
            }
            return Err(
                CheckError::CustomReturnRequiresRawBody {
                    unit: unit.name.name.clone(),
                    arm: arm.pattern.to_text(),
                    body_span: arm.body.span,
                },
            );
        }
        i += 1;
    }
    proof {
        assert(arms.take(i as int) =~= arms);
    }
    Ok(())
}

/// Arms have string bodies or raw bodies. A string body always yields text,
/// so it makes no sense in a unit with a return type of its own: such a unit
/// is refused, with its first arm that has a string body. The units are
/// taken in the order of [`DictView::units`].
pub fn custom_return_implies_raw_body(ast: &Dict) -> (r: Result<(), CheckError>)
    ensures
        match r {
            Ok(()) => string_body_errors(ast@.units()) is None,
            Err(e) => string_body_errors(ast@.units()) == Some(e@),
        },
{
    let units = ast.units();
    let ghost all = ast@.units();
    let mut i: usize = 0;
    while i < units.len()
        invariant
            i <= units.len(),
            all == views(units@),
            all == ast@.units(),
            string_body_errors(all.take(i as int)) is None,
        decreases units.len() - i,
    {
        proof {
            assert(all.take(i + 1).drop_last() =~= all.take(i as int));
            assert(all.take(i + 1).last() == units@[i as int]@);
        }
        match unit_has_raw_bodies(units[i]) {
            Ok(()) => {},
            Err(e) => {
                proof {
                    lemma_string_body_errors_extends(all, i + 1);
                }
                return Err(e);
            },
        }
        i += 1;
    }
    proof {
        assert(all.take(i as int) =~= all);
    }
    Ok(())
}

/// Checks a dictionary: first the string-body rule over all units, then the
/// arms of each unit. The first error ends the check.
pub fn check(ast: &Dict) -> (r: Result<(), CheckError>)
    ensures
        match r {
            Ok(()) => check_spec(ast@) is Ok,
            Err(e) => check_spec(ast@) == Err::<(), CheckErrorView>(e@),
        },
{
    match custom_return_implies_raw_body(ast) {
        Ok(()) => {},
        Err(e) => {
            return Err(e);
        },
    }
    let units = ast.units();
    let ghost all = ast@.units();
    let mut i: usize = 0;
    while i < units.len()
        invariant
            i <= units.len(),
            all == views(units@),
            all == ast@.units(),
            string_body_errors(all) is None,
            unit_errors(ast@.locale_def, all.take(i as int)) is None,
        decreases units.len() - i,
    {
        proof {
            assert(all.take(i + 1).drop_last() =~= all.take(i as int));
            assert(all.take(i + 1).last() == units@[i as int]@);
        }
        match check_unit(units[i], &ast.locale_def) {
            Ok(_) => {},
            Err(e) => {
                proof {
                    lemma_unit_errors_extends(ast@.locale_def, all, i + 1);
                }
                return Err(e);
            },
        }
        i += 1;
    }
    proof {
        assert(all.take(i as int) =~= all);
    }
    Ok(())
}

} // verus!
