//! The code of a dictionary, as sequences of tokens.
//!
//! The code holds the locale type, one type for the regions of each
//! language that has regions, a function `new`, and one dispatch type for
//! the root and for each module, with one method per translation unit:
//!
//! ```text
//! #[derive(Debug, Clone, Copy)]
//! pub enum Locale { De, En(EnRegion), }
//! #[derive(Debug, Clone, Copy)]
//! pub enum EnRegion { Gb, Us, }
//! pub fn new(locale: Locale) -> Dict { Dict::new(locale) }
//! pub struct Dict { locale: Locale, }
//! impl Dict {
//!     pub fn new(locale: Locale) -> Self { Self { locale, } }
//!     pub fn greet(&self, name: &str) -> String {
//!         match self.locale {
//!             Locale::De => { format!("Hallo {}", name) }
//!             Locale::En(EnRegion::Gb) => { format!("Hi {}", name) }
//!             _ => "[[MISSING TRANSLATION FOR 'greet']]".into(),
//!         }
//!     }
//! }
//! ```
//!
//! The functions here say which tokens that code is made of, and when there
//! is none because the dictionary is refused.
use vstd::prelude::*;
use crate::ast::{
    ArmBodyView, ArmPatternView, DictView, IdentView, LocaleDefView, LocaleLangView, ModView,
    TransUnitView, UnitArmView, UnitParamView,
};
use crate::check::{step_spec, Target};
use crate::emit::{
    comma, fat_arrow, group, path_sep, punct, string_literal, thin_arrow, verbatim, word,
};
use crate::error::{CheckErrorView, GenErrorView, TemplateErrorView};
use crate::naming::{child_stem, dispatch_type_name, root_stem};
use crate::template::{compile_spec, TemplateView};
use crate::token::{Delimiter, TokenView};
use crate::usage::Coverage;

verus! {

/// The name of the type that holds the regions of a language: `EnRegion`
/// for `En`.
pub open spec fn region_type_name(lang: Seq<char>) -> Seq<char> {
    lang + "Region"@
}

/// `#[derive(Debug, Clone, Copy)]`
pub open spec fn derive_attr() -> Seq<TokenView> {
    seq![
        punct('#'),
        group(
            Delimiter::Bracket,
            seq![
                word("derive"@),
                group(
                    Delimiter::Parenthesis,
                    seq![word("Debug"@), comma(), word("Clone"@), comma(), word("Copy"@)],
                ),
            ],
        ),
    ]
}

/// `#[allow(lint)]`
pub open spec fn allow_attr(lint: Seq<char>) -> Seq<TokenView> {
    seq![
        punct('#'),
        group(
            Delimiter::Bracket,
            seq![word("allow"@), group(Delimiter::Parenthesis, seq![word(lint)])],
        ),
    ]
}

/// One case of the locale type: `De,` or `En(EnRegion),`.
pub open spec fn locale_variant(lang: LocaleLangView) -> Seq<TokenView> {
    if lang.regions.len() == 0 {
        seq![word(lang.name.name), comma()]
    } else {
        seq![
            word(lang.name.name),
            group(Delimiter::Parenthesis, seq![word(region_type_name(lang.name.name))]),
            comma(),
        ]
    }
}

/// The cases of the locale type.
pub open spec fn locale_variants(langs: Seq<LocaleLangView>) -> Seq<TokenView>
    decreases langs.len(),
{
    if langs.len() == 0 {
        Seq::empty()
    } else {
        locale_variants(langs.drop_last()) + locale_variant(langs.last())
    }
}

/// The cases of a region type: `Gb, Us,`.
pub open spec fn region_variants(regions: Seq<IdentView>) -> Seq<TokenView>
    decreases regions.len(),
{
    if regions.len() == 0 {
        Seq::empty()
    } else {
        region_variants(regions.drop_last()) + seq![word(regions.last().name), comma()]
    }
}

/// The region type of a language; nothing for a language without regions.
pub open spec fn region_enum(lang: LocaleLangView) -> Seq<TokenView> {
    if lang.regions.len() == 0 {
        Seq::empty()
    } else {
        derive_attr() + seq![
            word("pub"@),
            word("enum"@),
            word(region_type_name(lang.name.name)),
            group(Delimiter::Brace, region_variants(lang.regions)),
        ]
    }
}

/// The region types of the languages.
pub open spec fn region_enums(langs: Seq<LocaleLangView>) -> Seq<TokenView>
    decreases langs.len(),
{
    if langs.len() == 0 {
        Seq::empty()
    } else {
        region_enums(langs.drop_last()) + region_enum(langs.last())
    }
}

/// The locale type and the region types.
pub open spec fn locale_code(locale: LocaleDefView) -> Seq<TokenView> {
    derive_attr() + seq![
        word("pub"@),
        word("enum"@),
        word("Locale"@),
        group(Delimiter::Brace, locale_variants(locale.langs)),
    ] + region_enums(locale.langs)
}

/// `Locale::name`
pub open spec fn locale_path(name: Seq<char>) -> Seq<TokenView> {
    seq![word("Locale"@)] + path_sep() + seq![word(name)]
}

/// The left side of a clause, for a pattern with the given meaning.
pub open spec fn pattern_code(
    locale: LocaleDefView,
    pattern: ArmPatternView,
    target: Target,
) -> Seq<TokenView> {
    match target {
        Target::Wildcard => seq![punct('_')],
        Target::Binding => seq![word(pattern->Lang_0.name)],
        Target::Lang(i) => if locale.langs[i].regions.len() > 0 {
            locale_path(pattern->Lang_0.name) + seq![
                group(Delimiter::Parenthesis, seq![punct('_')]),
            ]
        } else {
            locale_path(pattern->Lang_0.name)
        },
        Target::Region(_, _) => locale_path(pattern->WithRegion_lang.name) + seq![
            group(
                Delimiter::Parenthesis,
                seq![word(region_type_name(pattern->WithRegion_lang.name))] + path_sep() + seq![
                    word(pattern->WithRegion_region.name),
                ],
            ),
        ],
        Target::RegionBinding(_) => locale_path(pattern->WithRegion_lang.name) + seq![
            group(Delimiter::Parenthesis, seq![word(pattern->WithRegion_region.name)]),
        ],
    }
}

/// The arguments of a formatting call: a comma and the expression, for each
/// placeholder.
pub open spec fn format_args(exprs: Seq<Seq<char>>) -> Seq<TokenView>
    decreases exprs.len(),
{
    if exprs.len() == 0 {
        Seq::empty()
    } else {
        format_args(exprs.drop_last()) + seq![comma(), verbatim(exprs.last())]
    }
}

/// The formatting call that a string body is lowered to.
pub open spec fn format_call(template: TemplateView) -> Seq<TokenView> {
    seq![
        word("format"@),
        punct('!'),
        group(
            Delimiter::Parenthesis,
            seq![string_literal(template.format)] + format_args(template.exprs),
        ),
    ]
}

/// The right side of a clause: raw code as it is, a string body as a
/// formatting call, which fails where a placeholder does not hold host code.
pub open spec fn body_code(body: ArmBodyView) -> Result<Seq<TokenView>, TemplateErrorView> {
    match body {
        ArmBodyView::Raw(tokens) => Ok(tokens),
        ArmBodyView::Str(text) => match compile_spec(text) {
            Err(e) => Err(e),
            Ok(template) => Ok(format_call(template)),
        },
    }
}

/// One clause: `pattern => { body }`.
pub open spec fn clause_code(pattern: Seq<TokenView>, body: Seq<TokenView>) -> Seq<TokenView> {
    pattern + fat_arrow() + seq![group(Delimiter::Brace, body)]
}

/// The clauses for the arms of a unit, in order, with the flags after the
/// last arm; or the first error: for each arm first that of its pattern,
/// then that of its body.
pub open spec fn clauses_code(locale: LocaleDefView, arms: Seq<UnitArmView>) -> Result<
    (Coverage, Seq<TokenView>),
    GenErrorView,
>
    decreases arms.len(),
{
    if arms.len() == 0 {
        Ok((Coverage::fresh(locale), Seq::empty()))
    } else {
        match clauses_code(locale, arms.drop_last()) {
            Err(e) => Err(e),
            Ok((cov, code)) => match step_spec(locale, cov, arms.last().pattern) {
                Err(e) => Err(GenErrorView::Check(e)),
                Ok((after, target)) => match body_code(arms.last().body) {
                    Err(e) => Err(GenErrorView::Template(e)),
                    Ok(body) => Ok(
                        (
                            after,
                            code + clause_code(
                                pattern_code(locale, arms.last().pattern, target),
                                body,
                            ),
                        ),
                    ),
                },
            },
        }
    }
}

/// The text that stands for a translation that is missing.
pub open spec fn missing_text(unit: Seq<char>) -> Seq<char> {
    "[[MISSING TRANSLATION FOR '"@ + unit + "']]"@
}

/// The clause that is added where the arms leave a locale unmatched:
/// `_ => "[[MISSING TRANSLATION FOR 'unit']]".into(),`
pub open spec fn fallback_code(unit: Seq<char>) -> Seq<TokenView> {
    seq![punct('_')] + fat_arrow() + seq![
        string_literal(missing_text(unit)),
        punct('.'),
        word("into"@),
        group(Delimiter::Parenthesis, Seq::empty()),
        comma(),
    ]
}

/// The parameters of a method after `&self`: `, name: type` for each.
pub open spec fn params_code(params: Seq<UnitParamView>) -> Seq<TokenView>
    decreases params.len(),
{
    if params.len() == 0 {
        Seq::empty()
    } else {
        params_code(params.drop_last()) + seq![
            comma(),
            word(params.last().name.name),
            punct(':'),
        ] + params.last().ty
    }
}

/// The parameters of a unit; none where no list was written.
pub open spec fn unit_params(unit: TransUnitView) -> Seq<UnitParamView> {
    match unit.params {
        Some(params) => params,
        None => Seq::empty(),
    }
}

/// The return type of a unit; `String` where none was written.
pub open spec fn return_type_code(unit: TransUnitView) -> Seq<TokenView> {
    match unit.return_type {
        Some(ty) => ty,
        None => seq![word("String"@)],
    }
}

/// The method for a unit: its clauses in the order of the arms and, where
/// they leave a locale unmatched, the fallback clause. A unit with a return
/// type of its own gets no fallback: it is refused.
pub open spec fn unit_code(locale: LocaleDefView, unit: TransUnitView) -> Result<
    Seq<TokenView>,
    GenErrorView,
> {
    match clauses_code(locale, unit.arms) {
        Err(e) => Err(e),
        Ok((cov, clauses)) => if !cov.exhausted() && unit.return_type is Some {
            Err(
                GenErrorView::Check(
                    CheckErrorView::MissingFallbackForTypedUnit {
                        unit: unit.name.name,
                        span: unit.name.span,
                    },
                ),
            )
        } else {
            let fallback = if cov.exhausted() {
                Seq::empty()
            } else {
                fallback_code(unit.name.name)
            };
            Ok(
                seq![
                    word("pub"@),
                    word("fn"@),
                    word(unit.name.name),
                    group(
                        Delimiter::Parenthesis,
                        seq![punct('&'), word("self"@)] + params_code(unit_params(unit)),
                    ),
                ] + thin_arrow() + return_type_code(unit) + seq![
                    group(
                        Delimiter::Brace,
                        seq![
                            word("match"@),
                            word("self"@),
                            punct('.'),
                            word("locale"@),
                            group(Delimiter::Brace, clauses + fallback),
                        ],
                    ),
                ],
            )
        },
    }
}

/// The methods for the units, in order, or the first error.
pub open spec fn units_code(locale: LocaleDefView, units: Seq<TransUnitView>) -> Result<
    Seq<TokenView>,
    GenErrorView,
>
    decreases units.len(),
{
    if units.len() == 0 {
        Ok(Seq::empty())
    } else {
        match units_code(locale, units.drop_last()) {
            Err(e) => Err(e),
            Ok(code) => match unit_code(locale, units.last()) {
                Err(e) => Err(e),
                Ok(method) => Ok(code + method),
            },
        }
    }
}

/// The fields for the modules: `pub name: Type,` for each.
pub open spec fn module_fields(stem: Seq<char>, modules: Seq<ModView>) -> Seq<TokenView>
    decreases modules.len(),
{
    if modules.len() == 0 {
        Seq::empty()
    } else {
        let name = modules.last().name.name;
        module_fields(stem, modules.drop_last()) + seq![
            word("pub"@),
            word(name),
            punct(':'),
            word(dispatch_type_name(child_stem(stem, name))),
            comma(),
        ]
    }
}

/// The initialisers for the modules: `name: Type::new(locale),` for each.
pub open spec fn module_inits(stem: Seq<char>, modules: Seq<ModView>) -> Seq<TokenView>
    decreases modules.len(),
{
    if modules.len() == 0 {
        Seq::empty()
    } else {
        let name = modules.last().name.name;
        module_inits(stem, modules.drop_last()) + seq![
            word(name),
            punct(':'),
            word(dispatch_type_name(child_stem(stem, name))),
        ] + path_sep() + seq![
            word("new"@),
            group(Delimiter::Parenthesis, seq![word("locale"@)]),
            comma(),
        ]
    }
}

/// `locale: Locale`
pub open spec fn locale_param() -> Seq<TokenView> {
    seq![word("locale"@), punct(':'), word("Locale"@)]
}

/// The constructor of a dispatch type, which hands the locale on to the
/// dispatch types of the modules.
pub open spec fn constructor_code(stem: Seq<char>, modules: Seq<ModView>) -> Seq<TokenView> {
    seq![word("pub"@), word("fn"@), word("new"@), group(Delimiter::Parenthesis, locale_param())]
        + thin_arrow() + seq![
        word("Self"@),
        group(
            Delimiter::Brace,
            seq![
                word("Self"@),
                group(
                    Delimiter::Brace,
                    seq![word("locale"@), comma()] + module_inits(stem, modules),
                ),
            ],
        ),
    ]
}

/// The dispatch type with the prefix `stem`, given the code of its
/// methods: the type with one field per module, and its functions.
pub open spec fn dispatch_code(
    stem: Seq<char>,
    modules: Seq<ModView>,
    methods: Seq<TokenView>,
) -> Seq<TokenView> {
    allow_attr("non_camel_case_types"@) + allow_attr("dead_code"@) + seq![
        word("pub"@),
        word("struct"@),
        word(dispatch_type_name(stem)),
        group(Delimiter::Brace, locale_param() + seq![comma()] + module_fields(stem, modules)),
        word("impl"@),
        word(dispatch_type_name(stem)),
        group(Delimiter::Brace, constructor_code(stem, modules) + methods),
    ]
}

/// The code for the modules of one level, in order, or the first error.
pub open spec fn modules_code(locale: LocaleDefView, modules: Seq<ModView>, stem: Seq<char>) -> Result<
    Seq<TokenView>,
    GenErrorView,
>
    decreases modules, 0nat,
{
    if modules.len() == 0 {
        Ok(Seq::empty())
    } else {
        match modules_code(locale, modules.drop_last(), stem) {
            Err(e) => Err(e),
            Ok(code) => match module_code(
                locale,
                modules.last().modules,
                modules.last().trans_units,
                child_stem(stem, modules.last().name.name),
            ) {
                Err(e) => Err(e),
                Ok(module) => Ok(code + module),
            },
        }
    }
}

/// The code for one module, or for the root: first the code for the modules
/// below it, then its own dispatch type. The first error wins, those of the
/// modules before those of the units.
pub open spec fn module_code(
    locale: LocaleDefView,
    modules: Seq<ModView>,
    units: Seq<TransUnitView>,
    stem: Seq<char>,
) -> Result<Seq<TokenView>, GenErrorView>
    decreases modules, 1nat,
{
    match modules_code(locale, modules, stem) {
        Err(e) => Err(e),
        Ok(below) => match units_code(locale, units) {
            Err(e) => Err(e),
            Ok(methods) => Ok(below + dispatch_code(stem, modules, methods)),
        },
    }
}

/// `pub fn new(locale: Locale) -> Dict { Dict::new(locale) }`
pub open spec fn entry_code() -> Seq<TokenView> {
    seq![word("pub"@), word("fn"@), word("new"@), group(Delimiter::Parenthesis, locale_param())]
        + thin_arrow() + seq![
        word("Dict"@),
        group(
            Delimiter::Brace,
            seq![word("Dict"@)] + path_sep() + seq![
                word("new"@),
                group(Delimiter::Parenthesis, seq![word("locale"@)]),
            ],
        ),
    ]
}

/// The code of a dictionary: the locale types, the function `new`, and the
/// dispatch types of the modules and the root.
pub open spec fn dict_code(dict: DictView) -> Result<Seq<TokenView>, GenErrorView> {
    match module_code(dict.locale_def, dict.modules, dict.trans_units, root_stem()) {
        Err(e) => Err(e),
        Ok(dispatch) => Ok(locale_code(dict.locale_def) + entry_code() + dispatch),
    }
}

} // verus!
