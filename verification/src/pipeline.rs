//! What the stages promise each other: a dictionary that passes the checker
//! is never refused by the generator for its patterns, the generator adds
//! the fallback clause exactly where the checker found the arms not to be
//! exhaustive, and every module gets a dispatch type with a name of its
//! own.
use vstd::prelude::*;
use crate::ast::{
    units_of_modules, ArmPatternView, DictView, LocaleDefView, ModView, TransUnitView, UnitArmView,
};
use crate::check::{check_patterns, check_spec, check_unit_spec, patterns_of, unit_errors};
use crate::code::{clauses_code, dict_code, module_code, modules_code, unit_code, units_code};
use crate::error::{CheckErrorView, GenErrorView};
use crate::grammar::dict_spec;
use crate::naming::{
    child_stem, dispatch_type_name, lemma_child_of_path, module_stem, root_stem,
    theorem_type_names_unique,
};
use crate::roundtrip::lemma_dict_is_valid;
use crate::sources::ModuleSources;
use crate::token::TokenView;
use crate::usage::Coverage;

verus! {

/// Whether the generator's result is no error of the checker's kind: it is
/// code, or the error of a string body.
pub open spec fn no_check_error<T>(r: Result<T, GenErrorView>) -> bool {
    !(r matches Err(GenErrorView::Check(_)))
}

/// Whether the checker accepts each of the units.
pub open spec fn all_accepted(locale: LocaleDefView, units: Seq<TransUnitView>) -> bool {
    forall|i: int| 0 <= i < units.len() ==> check_unit_spec(locale, #[trigger] units[i]) is Ok
}

/// The generator follows the arms as the checker does: where it gets
/// through the arms, it ends with the checker's flags; where the checker
/// accepts the arms, the generator does not fail on a pattern.
pub proof fn lemma_clauses_follow_check(locale: LocaleDefView, arms: Seq<UnitArmView>)
    ensures
        clauses_code(locale, arms) matches Ok((cov, _)) ==> check_patterns(
            locale,
            patterns_of(arms),
        ) == Ok::<Coverage, CheckErrorView>(cov),
        check_patterns(locale, patterns_of(arms)) is Ok ==> no_check_error(
            clauses_code(locale, arms),
        ),
    decreases arms.len(),
{
    if arms.len() == 0 {
        assert(patterns_of(arms) =~= Seq::<ArmPatternView>::empty());
    } else {
        lemma_clauses_follow_check(locale, arms.drop_last());
        assert(patterns_of(arms).drop_last() =~= patterns_of(arms.drop_last()));
        assert(patterns_of(arms).last() == arms.last().pattern);
    }
}

/// A unit that the checker accepts gets a method, unless a string body
/// fails; the method ends with the fallback clause exactly if the checker
/// found the arms not to be exhaustive.
pub proof fn lemma_unit_follows_check(locale: LocaleDefView, unit: TransUnitView)
    requires
        check_unit_spec(locale, unit) is Ok,
    ensures
        no_check_error(unit_code(locale, unit)),
        clauses_code(locale, unit.arms) matches Ok((cov, _)) ==> cov.exhausted() == check_unit_spec(
            locale,
            unit,
        )->Ok_0,
{
    lemma_clauses_follow_check(locale, unit.arms);
}

/// Units that the checker accepts get their methods, unless a string body
/// fails.
pub proof fn lemma_units_follow_check(locale: LocaleDefView, units: Seq<TransUnitView>)
    requires
        all_accepted(locale, units),
    ensures
        no_check_error(units_code(locale, units)),
    decreases units.len(),
{
    if units.len() > 0 {
        assert forall|i: int| 0 <= i < units.drop_last().len() implies check_unit_spec(
            locale,
            #[trigger] units.drop_last()[i],
        ) is Ok by {
            assert(units.drop_last()[i] == units[i]);
        }
        lemma_units_follow_check(locale, units.drop_last());
        assert(check_unit_spec(locale, units[units.len() - 1]) is Ok);
        lemma_unit_follows_check(locale, units.last());
    }
}

/// Units are accepted one and all exactly if both parts of them are.
pub proof fn lemma_all_accepted_concat(
    locale: LocaleDefView,
    a: Seq<TransUnitView>,
    b: Seq<TransUnitView>,
)
    ensures
        all_accepted(locale, a + b) <==> all_accepted(locale, a) && all_accepted(locale, b),
{
    let both = a + b;
    if all_accepted(locale, both) {
        assert forall|i: int| 0 <= i < a.len() implies check_unit_spec(locale, #[trigger] a[i])
            is Ok by {
            assert(both[i] == a[i]);
        }
        assert forall|i: int| 0 <= i < b.len() implies check_unit_spec(locale, #[trigger] b[i])
            is Ok by {
            assert(both[a.len() + i] == b[i]);
        }
    }
    if all_accepted(locale, a) && all_accepted(locale, b) {
        assert forall|i: int| 0 <= i < both.len() implies check_unit_spec(
            locale,
            #[trigger] both[i],
        ) is Ok by {
            if i < a.len() {
                assert(both[i] == a[i]);
            } else {
                assert(both[i] == b[i - a.len()]);
            }
        }
    }
}

/// Modules whose units the checker accepts get their code, unless a string
/// body fails.
pub proof fn lemma_modules_follow_check(
    locale: LocaleDefView,
    modules: Seq<ModView>,
    stem: Seq<char>,
)
    requires
        all_accepted(locale, units_of_modules(modules)),
    ensures
        no_check_error(modules_code(locale, modules, stem)),
    decreases modules, 0nat,
{
    if modules.len() > 0 {
        let last = modules.last();
        lemma_all_accepted_concat(locale, last.units(), units_of_modules(modules.drop_last()));
        lemma_modules_follow_check(locale, modules.drop_last(), stem);
        lemma_all_accepted_concat(locale, last.trans_units, units_of_modules(last.modules));
        lemma_module_follows_check(
            locale,
            last.modules,
            last.trans_units,
            child_stem(stem, last.name.name),
        );
    }
}

/// A module whose units, and those of the modules below it, the checker
/// accepts gets its code, unless a string body fails.
pub proof fn lemma_module_follows_check(
    locale: LocaleDefView,
    modules: Seq<ModView>,
    units: Seq<TransUnitView>,
    stem: Seq<char>,
)
    requires
        all_accepted(locale, units),
        all_accepted(locale, units_of_modules(modules)),
    ensures
        no_check_error(module_code(locale, modules, units, stem)),
    decreases modules, 1nat,
{
    lemma_modules_follow_check(locale, modules, stem);
    lemma_units_follow_check(locale, units);
}

/// Units among which the checker finds no error are accepted one and all.
pub proof fn lemma_no_unit_errors(locale: LocaleDefView, units: Seq<TransUnitView>)
    requires
        unit_errors(locale, units) is None,
    ensures
        all_accepted(locale, units),
    decreases units.len(),
{
    if units.len() > 0 {
        lemma_no_unit_errors(locale, units.drop_last());
        assert forall|i: int| 0 <= i < units.len() implies check_unit_spec(
            locale,
            #[trigger] units[i],
        ) is Ok by {
            if i < units.len() - 1 {
                assert(units.drop_last()[i] == units[i]);
            }
        }
    }
}

/// A dictionary that passes the checker is lowered to code, unless a
/// placeholder of a string body does not hold host code: the generator
/// never refuses it for a pattern or for a missing fallback.
pub proof fn theorem_checked_dictionary_generates(dict: DictView)
    requires
        check_spec(dict) is Ok,
    ensures
        no_check_error(dict_code(dict)),
{
    lemma_no_unit_errors(dict.locale_def, dict.units());
    lemma_all_accepted_concat(dict.locale_def, dict.trans_units, units_of_modules(dict.modules));
    lemma_module_follows_check(dict.locale_def, dict.modules, dict.trans_units, root_stem());
}

/// Whether no two of the modules have the same name.
pub open spec fn distinct_names(modules: Seq<ModView>) -> bool {
    forall|i: int, j: int|
        0 <= i < j < modules.len() ==> (#[trigger] modules[i]).name.name != (
        #[trigger] modules[j]).name.name
}

/// Whether no two modules of one module have the same name, among
/// `modules` and all the way down.
pub open spec fn distinct_siblings(modules: Seq<ModView>) -> bool
    decreases modules,
{
    distinct_names(modules) && forall|i: int|
        0 <= i < modules.len() ==> distinct_siblings((#[trigger] modules[i]).modules)
}

/// Whether `way` leads to a module: its first number is the place of a
/// module among `modules`, the next the place of a module among that
/// module's modules, and so on. The empty way leads nowhere from the root.
pub open spec fn leads_to_module(modules: Seq<ModView>, way: Seq<int>) -> bool
    decreases way.len(),
{
    way.len() > 0 ==> 0 <= way[0] < modules.len() && leads_to_module(
        modules[way[0]].modules,
        way.drop_first(),
    )
}

/// The names of the modules on the way.
pub open spec fn names_on_way(modules: Seq<ModView>, way: Seq<int>) -> Seq<Seq<char>>
    decreases way.len(),
{
    if way.len() == 0 {
        Seq::empty()
    } else {
        seq![modules[way[0]].name.name] + names_on_way(
            modules[way[0]].modules,
            way.drop_first(),
        )
    }
}

/// The name of the dispatch type that the generator emits for the module at
/// the end of the way, where `stem` stands for the module that holds
/// `modules`: the generator goes from a module to its modules with
/// [`child_stem`] and names the type with [`dispatch_type_name`].
pub open spec fn type_name_on_way(modules: Seq<ModView>, way: Seq<int>, stem: Seq<char>) -> Seq<
    char,
>
    decreases way.len(),
{
    if way.len() == 0 {
        dispatch_type_name(stem)
    } else {
        type_name_on_way(
            modules[way[0]].modules,
            way.drop_first(),
            child_stem(stem, modules[way[0]].name.name),
        )
    }
}

/// The generator names the type of a module after the names on the way to
/// it.
pub proof fn lemma_type_name_on_way(modules: Seq<ModView>, way: Seq<int>, above: Seq<Seq<char>>)
    ensures
        type_name_on_way(modules, way, module_stem(above)) == dispatch_type_name(
            module_stem(above + names_on_way(modules, way)),
        ),
    decreases way.len(),
{
    if way.len() == 0 {
        assert(above + names_on_way(modules, way) =~= above);
    } else {
        let name = modules[way[0]].name.name;
        let below = modules[way[0]].modules;
        lemma_child_of_path(above, name);
        lemma_type_name_on_way(below, way.drop_first(), above.push(name));
        assert(above.push(name) + names_on_way(below, way.drop_first()) =~= above + names_on_way(
            modules,
            way,
        ));
    }
}

/// Where no two modules of one module have the same name, two different
/// ways lead over different names.
pub proof fn lemma_ways_differ_by_names(modules: Seq<ModView>, a: Seq<int>, b: Seq<int>)
    requires
        distinct_siblings(modules),
        leads_to_module(modules, a),
        leads_to_module(modules, b),
        names_on_way(modules, a) == names_on_way(modules, b),
    ensures
        a == b,
    decreases a.len(),
{
    lemma_names_on_way_len(modules, a);
    lemma_names_on_way_len(modules, b);
    if a.len() > 0 {
        let na = names_on_way(modules, a);
        let nb = names_on_way(modules, b);
        assert(na[0] == modules[a[0]].name.name);
        assert(nb[0] == modules[b[0]].name.name);
        assert(a[0] == b[0]);
        let below = modules[a[0]].modules;
        assert(distinct_siblings(modules[a[0]].modules));
        assert(na.drop_first() =~= names_on_way(below, a.drop_first()));
        assert(nb.drop_first() =~= names_on_way(below, b.drop_first()));
        lemma_ways_differ_by_names(below, a.drop_first(), b.drop_first());
        assert(a =~= seq![a[0]] + a.drop_first());
        assert(b =~= seq![b[0]] + b.drop_first());
    } else {
        assert(a =~= b);
    }
}

/// There is one name for each step of a way.
pub proof fn lemma_names_on_way_len(modules: Seq<ModView>, way: Seq<int>)
    ensures
        names_on_way(modules, way).len() == way.len(),
    decreases way.len(),
{
    if way.len() > 0 {
        lemma_names_on_way_len(modules[way[0]].modules, way.drop_first());
    }
}

/// Every module of a dictionary gets a dispatch type of its own.
///
/// Take a dictionary in which no source declares two modules of one name.
/// Then the generator gives different names to the types of any two
/// different modules, and to the type of a module and that of the root,
/// whatever the names of the modules hold. `a` and `b` are ways to
/// modules; the empty way stands for the root.
pub proof fn theorem_modules_get_types_of_their_own(dict: DictView, a: Seq<int>, b: Seq<int>)
    requires
        distinct_siblings(dict.modules),
        leads_to_module(dict.modules, a),
        leads_to_module(dict.modules, b),
        a != b,
    ensures
        type_name_on_way(dict.modules, a, root_stem()) != type_name_on_way(
            dict.modules,
            b,
            root_stem(),
        ),
{
    let none = Seq::<Seq<char>>::empty();
    lemma_type_name_on_way(dict.modules, a, none);
    lemma_type_name_on_way(dict.modules, b, none);
    let na = names_on_way(dict.modules, a);
    let nb = names_on_way(dict.modules, b);
    assert(none + na =~= na);
    assert(none + nb =~= nb);
    if type_name_on_way(dict.modules, a, root_stem()) == type_name_on_way(
        dict.modules,
        b,
        root_stem(),
    ) {
        theorem_type_names_unique(na, nb);
        lemma_ways_differ_by_names(dict.modules, a, b);
    }
}

/// A dictionary that the grammar reads declares at least one language: what
/// [`crate::semantics::theorem_check_patterns`] asks of a locale definition
/// holds of every dictionary that comes from the parser.
pub proof fn theorem_parsed_locale_declares_a_language(s: Seq<TokenView>, sources: ModuleSources)
    ensures
        dict_spec(s, sources) matches Ok(dict) ==> dict.locale_def.langs.len() > 0,
{
    lemma_dict_is_valid(s, sources);
}

} // verus!
