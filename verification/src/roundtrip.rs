//! Writing a syntax tree back as tokens, and the proof that the grammar
//! reads those tokens as the same tree.
//!
//! The written form is canonical: a comma after every language, region,
//! parameter and arm; the modules of a source before its units. Every
//! function here takes the tokens that follow what it writes, so that a
//! stream is built from its end.
use vstd::prelude::*;
use crate::ast::{
    lemma_first_index, ArmBodyView, ArmPatternView, DictView, IdentView, LocaleDefView,
    LocaleLangView, ModView, TransUnitView, UnitArmView, UnitParamView,
};
use crate::cursor::{group_delimited_by_spec, keyword_spec, next_spec, op_if_spec, term_spec};
use crate::emit::{comma, glyph, group, word};
use crate::error::ParseErrorView;
use crate::grammar::{
    arm_spec, arms_from, body_spec, dict_spec, ends_type, fat_arrow_spec, is_group_with, items_from,
    langs_from, lemma_arm_consumes, lemma_locale_variant_consumes, lemma_pattern_consumes,
    lemma_trans_unit_consumes, lemma_type_len, locale_def_spec, locale_variant_spec, mod_decl_spec,
    module_names, module_spec, no_items, opt_params_spec, opt_return_type_spec, params_from,
    pattern_spec, regions_from, trans_unit_spec, type_len, type_spec, ItemsView,
};
use crate::host::string_literal_text;
use crate::sources::{ModuleSources, Resolution};
use crate::token::{tokens_view, Delimiter, Spacing, Span, TokenKindView, TokenView};

verus! {

/// `first`, then `rest`.
pub open spec fn cons(first: TokenView, rest: Seq<TokenView>) -> Seq<TokenView> {
    seq![first] + rest
}

/// The head and the tail of a stream that was built with [`cons`].
pub proof fn lemma_cons(first: TokenView, rest: Seq<TokenView>)
    ensures
        cons(first, rest).len() == rest.len() + 1,
        cons(first, rest)[0] == first,
        cons(first, rest).drop_first() == rest,
{
    assert(cons(first, rest).drop_first() =~= rest);
}

/// A name, at its own place.
pub open spec fn write_ident(ident: IdentView) -> TokenView {
    ident.token()
}

/// A pattern.
pub open spec fn write_pattern(pattern: ArmPatternView, rest: Seq<TokenView>) -> Seq<TokenView> {
    match pattern {
        ArmPatternView::Underscore(span) => cons(
            TokenView { kind: TokenKindView::Op('_', Spacing::Alone), span },
            rest,
        ),
        ArmPatternView::Lang(lang) => cons(write_ident(lang), rest),
        ArmPatternView::WithRegion { lang, region } => cons(
            write_ident(lang),
            cons(group(Delimiter::Parenthesis, seq![write_ident(region)]), rest),
        ),
    }
}

/// The body of an arm, at its own place: a string as the literal that
/// denotes it, raw code in braces.
pub open spec fn write_body(body: ArmBodyView, span: Span) -> TokenView {
    match body {
        ArmBodyView::Str(text) => TokenView {
            kind: TokenKindView::Literal { text: string_literal_text(text), string: Some(text) },
            span,
        },
        ArmBodyView::Raw(tokens) => TokenView {
            kind: TokenKindView::Group(Delimiter::Brace, tokens),
            span,
        },
    }
}

/// An arm: pattern, `=>`, body and a comma.
pub open spec fn write_arm(arm: UnitArmView, rest: Seq<TokenView>) -> Seq<TokenView> {
    write_pattern(
        arm.pattern,
        cons(
            glyph('=', Spacing::Joint),
            cons(
                glyph('>', Spacing::Alone),
                cons(write_body(arm.body, arm.body_span), cons(comma(), rest)),
            ),
        ),
    )
}

/// Arms, one after the other.
pub open spec fn write_arms(arms: Seq<UnitArmView>, rest: Seq<TokenView>) -> Seq<TokenView>
    decreases arms.len(),
{
    if arms.len() == 0 {
        rest
    } else {
        write_arm(arms[0], write_arms(arms.drop_first(), rest))
    }
}

/// A parameter: name, `:`, type and a comma.
pub open spec fn write_param(param: UnitParamView, rest: Seq<TokenView>) -> Seq<TokenView> {
    cons(write_ident(param.name), cons(glyph(':', Spacing::Alone), param.ty + cons(comma(), rest)))
}

/// Parameters, one after the other.
pub open spec fn write_params(params: Seq<UnitParamView>, rest: Seq<TokenView>) -> Seq<TokenView>
    decreases params.len(),
{
    if params.len() == 0 {
        rest
    } else {
        write_param(params[0], write_params(params.drop_first(), rest))
    }
}

/// A unit, after the word `unit`: name, parameter list and return type
/// where there are any, and the block of arms.
pub open spec fn write_unit(unit: TransUnitView, rest: Seq<TokenView>) -> Seq<TokenView> {
    let block = cons(group(Delimiter::Brace, write_arms(unit.arms, Seq::empty())), rest);
    let from_return_type = match unit.return_type {
        Some(ty) => cons(
            glyph('-', Spacing::Joint),
            cons(glyph('>', Spacing::Alone), ty + block),
        ),
        None => block,
    };
    let from_params = match unit.params {
        Some(params) => cons(
            group(Delimiter::Parenthesis, write_params(params, Seq::empty())),
            from_return_type,
        ),
        None => from_return_type,
    };
    cons(write_ident(unit.name), from_params)
}

/// Units, each after the word `unit`.
pub open spec fn write_units(units: Seq<TransUnitView>, rest: Seq<TokenView>) -> Seq<TokenView>
    decreases units.len(),
{
    if units.len() == 0 {
        rest
    } else {
        cons(word("unit"@), write_unit(units[0], write_units(units.drop_first(), rest)))
    }
}

/// Declarations of modules: `mod`, the name and `;` for each.
pub open spec fn write_mod_decls(modules: Seq<ModView>, rest: Seq<TokenView>) -> Seq<TokenView>
    decreases modules.len(),
{
    if modules.len() == 0 {
        rest
    } else {
        cons(
            word("mod"@),
            cons(
                write_ident(modules[0].name),
                cons(glyph(';', Spacing::Alone), write_mod_decls(modules.drop_first(), rest)),
            ),
        )
    }
}

/// The items of one source: the declarations of its modules, then its
/// units.
pub open spec fn write_items(modules: Seq<ModView>, units: Seq<TransUnitView>) -> Seq<TokenView> {
    write_mod_decls(modules, write_units(units, Seq::empty()))
}

/// Region names, a comma after each.
pub open spec fn write_regions(regions: Seq<IdentView>, rest: Seq<TokenView>) -> Seq<TokenView>
    decreases regions.len(),
{
    if regions.len() == 0 {
        rest
    } else {
        cons(write_ident(regions[0]), cons(comma(), write_regions(regions.drop_first(), rest)))
    }
}

/// A language: its name, its regions in braces if it has any, and a comma.
pub open spec fn write_lang(lang: LocaleLangView, rest: Seq<TokenView>) -> Seq<TokenView> {
    cons(
        write_ident(lang.name),
        if lang.regions.len() > 0 {
            cons(
                group(Delimiter::Brace, write_regions(lang.regions, Seq::empty())),
                cons(comma(), rest),
            )
        } else {
            cons(comma(), rest)
        },
    )
}

/// Languages, one after the other.
pub open spec fn write_langs(langs: Seq<LocaleLangView>, rest: Seq<TokenView>) -> Seq<TokenView>
    decreases langs.len(),
{
    if langs.len() == 0 {
        rest
    } else {
        write_lang(langs[0], write_langs(langs.drop_first(), rest))
    }
}

/// The locale definition: `enum Locale` and the languages in braces.
pub open spec fn write_locale_def(locale: LocaleDefView, rest: Seq<TokenView>) -> Seq<TokenView> {
    cons(
        word("enum"@),
        cons(
            word("Locale"@),
            cons(group(Delimiter::Brace, write_langs(locale.langs, Seq::empty())), rest),
        ),
    )
}

/// A whole dictionary: the locale definition, then the items of the root.
pub open spec fn write_dict(dict: DictView) -> Seq<TokenView> {
    write_locale_def(dict.locale_def, write_items(dict.modules, dict.trans_units))
}

/// Whether the name was read from a source: it has a place.
pub open spec fn placed(ident: IdentView) -> bool {
    ident.span is Some
}

/// Whether the tokens can stand as a type: none of them is a comma or a
/// block.
pub open spec fn valid_type(ty: Seq<TokenView>) -> bool {
    forall|i: int| 0 <= i < ty.len() ==> !ends_type(#[trigger] ty[i])
}

pub open spec fn valid_pattern(pattern: ArmPatternView) -> bool {
    match pattern {
        ArmPatternView::Underscore(_) => true,
        ArmPatternView::Lang(lang) => placed(lang),
        ArmPatternView::WithRegion { lang, region } => placed(lang) && placed(region),
    }
}

pub open spec fn valid_param(param: UnitParamView) -> bool {
    placed(param.name) && valid_type(param.ty)
}

pub open spec fn valid_unit(unit: TransUnitView) -> bool {
    &&& placed(unit.name)
    &&& unit.params matches Some(params) ==> forall|i: int|
        0 <= i < params.len() ==> valid_param(#[trigger] params[i])
    &&& unit.return_type matches Some(ty) ==> valid_type(ty)
    &&& forall|i: int| 0 <= i < unit.arms.len() ==> valid_pattern((#[trigger] unit.arms[i]).pattern)
}

pub open spec fn valid_units(units: Seq<TransUnitView>) -> bool {
    forall|i: int| 0 <= i < units.len() ==> valid_unit(#[trigger] units[i])
}

pub open spec fn valid_lang(lang: LocaleLangView) -> bool {
    placed(lang.name) && forall|i: int| 0 <= i < lang.regions.len() ==> placed(#[trigger] lang.regions[i])
}

/// Whether the locale definition is as the parser makes it: at least one
/// language, each name with a place.
pub open spec fn valid_locale_def(locale: LocaleDefView) -> bool {
    locale.langs.len() > 0 && forall|i: int|
        0 <= i < locale.langs.len() ==> valid_lang(#[trigger] locale.langs[i])
}

/// Whether the modules, and the modules below them, are as the parser
/// makes them.
pub open spec fn valid_modules(modules: Seq<ModView>) -> bool
    decreases modules, 1nat,
{
    forall|i: int| 0 <= i < modules.len() ==> valid_module(#[trigger] modules[i])
}

/// Whether the module, and the modules below it, are as the parser makes
/// them: every name has a place and the units are valid.
pub open spec fn valid_module(module: ModView) -> bool
    decreases module, 0nat,
{
    placed(module.name) && valid_units(module.trans_units) && valid_modules(module.modules)
}

/// Whether `sources` gives each of the modules for its name.
pub open spec fn modules_resolve(sources: ModuleSources, modules: Seq<ModView>) -> bool {
    forall|i: int|
        0 <= i < modules.len() ==> module_spec((#[trigger] modules[i]).name, sources) == Ok::<
            ModView,
            ParseErrorView,
        >(modules[i])
}

/// Whether `sources` holds for each of the modules its items in written
/// form, and so on for the modules below.
pub open spec fn modules_written(sources: ModuleSources, modules: Seq<ModView>) -> bool
    decreases modules, 1nat,
{
    forall|i: int| 0 <= i < modules.len() ==> module_written(sources, #[trigger] modules[i])
}

/// Whether `sources` holds the items of the module in written form, and so
/// on for the modules below it.
pub open spec fn module_written(sources: ModuleSources, module: ModView) -> bool
    decreases module, 0nat,
{
    sources.position(module.name.name) matches Some(i) && sources.entries@[i].resolution
        matches Resolution::Found(file) && tokens_view(file.tokens@) == write_items(
        module.modules,
        module.trans_units,
    ) && modules_written(file.sources, module.modules)
}

/// Whether the dictionary is as the parser makes it: at least one
/// language, every name with a place, and no type that holds a comma or a
/// block; in the root and in every module.
pub open spec fn valid_dict(dict: DictView) -> bool {
    valid_locale_def(dict.locale_def) && valid_units(dict.trans_units) && valid_modules(
        dict.modules,
    )
}

/// A written name reads as the name.
pub proof fn lemma_read_ident(ident: IdentView, rest: Seq<TokenView>)
    requires
        placed(ident),
    ensures
        term_spec(cons(write_ident(ident), rest)) == Ok::<
            (IdentView, Seq<TokenView>),
            ParseErrorView,
        >((ident, rest)),
{
    lemma_cons(write_ident(ident), rest);
}

/// A written pattern reads as the pattern, where something other than a
/// group follows.
pub proof fn lemma_read_pattern(pattern: ArmPatternView, rest: Seq<TokenView>)
    requires
        valid_pattern(pattern),
        rest.len() > 0,
        !(rest[0].kind is Group),
    ensures
        pattern_spec(write_pattern(pattern, rest)) == Ok::<
            (ArmPatternView, Seq<TokenView>),
            ParseErrorView,
        >((pattern, rest)),
{
    match pattern {
        ArmPatternView::Underscore(span) => {
            lemma_cons(TokenView { kind: TokenKindView::Op('_', Spacing::Alone), span }, rest);
        },
        ArmPatternView::Lang(lang) => {
            lemma_read_ident(lang, rest);
            lemma_cons(write_ident(lang), rest);
        },
        ArmPatternView::WithRegion { lang, region } => {
            let inner = seq![write_ident(region)];
            let paren = group(Delimiter::Parenthesis, inner);
            let after = cons(paren, rest);
            lemma_read_ident(lang, after);
            lemma_cons(write_ident(lang), after);
            lemma_cons(paren, rest);
            assert(inner =~= cons(write_ident(region), Seq::empty()));
            lemma_read_ident(region, Seq::empty());
        },
    }
}

/// A written arm reads as the arm.
pub proof fn lemma_read_arm(arm: UnitArmView, rest: Seq<TokenView>)
    requires
        valid_pattern(arm.pattern),
    ensures
        arm_spec(write_arm(arm, rest)) == Ok::<(UnitArmView, Seq<TokenView>), ParseErrorView>(
            (arm, rest),
        ),
        write_arm(arm, rest).len() > rest.len(),
{
    let after_body = cons(comma(), rest);
    let body = write_body(arm.body, arm.body_span);
    let from_body = cons(body, after_body);
    let from_gt = cons(glyph('>', Spacing::Alone), from_body);
    let from_eq = cons(glyph('=', Spacing::Joint), from_gt);
    lemma_cons(comma(), rest);
    lemma_cons(body, after_body);
    lemma_cons(glyph('>', Spacing::Alone), from_body);
    lemma_cons(glyph('=', Spacing::Joint), from_gt);
    lemma_read_pattern(arm.pattern, from_eq);
    assert(fat_arrow_spec(from_eq) == Ok::<((), Seq<TokenView>), ParseErrorView>(((), from_body)));
    assert(body_spec(from_body) == Ok::<((ArmBodyView, Span), Seq<TokenView>), ParseErrorView>(
        ((arm.body, arm.body_span), after_body),
    ));
    lemma_pattern_consumes(write_arm(arm, rest));
}

/// Written arms read as the arms.
pub proof fn lemma_read_arms(arms: Seq<UnitArmView>, acc: Seq<UnitArmView>)
    requires
        forall|i: int| 0 <= i < arms.len() ==> valid_pattern((#[trigger] arms[i]).pattern),
    ensures
        arms_from(write_arms(arms, Seq::empty()), acc) == Ok::<Seq<UnitArmView>, ParseErrorView>(
            acc + arms,
        ),
    decreases arms.len(),
{
    if arms.len() == 0 {
        assert(acc + arms =~= acc);
    } else {
        let tail = arms.drop_first();
        let rest = write_arms(tail, Seq::empty());
        lemma_read_arm(arms[0], rest);
        assert forall|i: int| 0 <= i < tail.len() implies valid_pattern(
            (#[trigger] tail[i]).pattern,
        ) by {
            assert(tail[i] == arms[i + 1]);
        }
        lemma_read_arms(tail, acc.push(arms[0]));
        assert(acc.push(arms[0]) + tail =~= acc + arms);
    }
}

/// A type reads as itself, where a comma, a block or nothing follows.
pub proof fn lemma_read_type(ty: Seq<TokenView>, rest: Seq<TokenView>)
    requires
        valid_type(ty),
        rest.len() == 0 || ends_type(rest[0]),
    ensures
        type_spec(ty + rest) == (ty, rest),
        type_len(ty + rest) == ty.len(),
    decreases ty.len(),
{
    let s = ty + rest;
    if ty.len() == 0 {
        assert(s =~= rest);
    } else {
        assert(s[0] == ty[0]);
        assert(s.drop_first() =~= ty.drop_first() + rest);
        assert forall|i: int| 0 <= i < ty.drop_first().len() implies !ends_type(
            #[trigger] ty.drop_first()[i],
        ) by {
            assert(ty.drop_first()[i] == ty[i + 1]);
        }
        lemma_read_type(ty.drop_first(), rest);
    }
    assert(s.take(ty.len() as int) =~= ty);
    assert(s.skip(ty.len() as int) =~= rest);
}

/// Written parameters read as the parameters.
pub proof fn lemma_read_params(params: Seq<UnitParamView>, acc: Seq<UnitParamView>)
    requires
        forall|i: int| 0 <= i < params.len() ==> valid_param(#[trigger] params[i]),
    ensures
        params_from(write_params(params, Seq::empty()), acc) == Ok::<
            Seq<UnitParamView>,
            ParseErrorView,
        >(acc + params),
    decreases params.len(),
{
    if params.len() == 0 {
        assert(acc + params =~= acc);
    } else {
        let param = params[0];
        let tail = params.drop_first();
        let rest = write_params(tail, Seq::empty());
        let after_ty = cons(comma(), rest);
        let from_ty = param.ty + after_ty;
        let from_colon = cons(glyph(':', Spacing::Alone), from_ty);
        lemma_cons(comma(), rest);
        lemma_cons(glyph(':', Spacing::Alone), from_ty);
        lemma_read_ident(param.name, from_colon);
        lemma_read_type(param.ty, after_ty);
        assert forall|i: int| 0 <= i < tail.len() implies valid_param(#[trigger] tail[i]) by {
            assert(tail[i] == params[i + 1]);
        }
        lemma_read_params(tail, acc.push(param));
        assert(acc.push(param) + tail =~= acc + params);
        if rest.len() == 0 {
            assert(tail.len() == 0) by {
                if tail.len() > 0 {
                    lemma_cons(
                        write_ident(tail[0].name),
                        cons(
                            glyph(':', Spacing::Alone),
                            tail[0].ty + cons(comma(), write_params(tail.drop_first(), Seq::empty())),
                        ),
                    );
                }
            }
            assert(acc.push(param) + tail =~= acc.push(param));
        }
    }
}

/// A written unit reads as the unit.
pub proof fn lemma_read_unit(unit: TransUnitView, rest: Seq<TokenView>)
    requires
        valid_unit(unit),
    ensures
        trans_unit_spec(write_unit(unit, rest)) == Ok::<
            (TransUnitView, Seq<TokenView>),
            ParseErrorView,
        >((unit, rest)),
{
    let brace = group(Delimiter::Brace, write_arms(unit.arms, Seq::empty()));
    let block = cons(brace, rest);
    lemma_cons(brace, rest);
    lemma_read_arms(unit.arms, Seq::empty());
    assert(Seq::<UnitArmView>::empty() + unit.arms =~= unit.arms);
    let from_return_type = match unit.return_type {
        Some(ty) => cons(glyph('-', Spacing::Joint), cons(glyph('>', Spacing::Alone), ty + block)),
        None => block,
    };
    match unit.return_type {
        Some(ty) => {
            lemma_cons(glyph('-', Spacing::Joint), cons(glyph('>', Spacing::Alone), ty + block));
            lemma_cons(glyph('>', Spacing::Alone), ty + block);
            lemma_read_type(ty, block);
        },
        None => {},
    }
    assert(opt_return_type_spec(from_return_type) == Ok::<
        (Option<Seq<TokenView>>, Seq<TokenView>),
        ParseErrorView,
    >((unit.return_type, block)));
    let from_params = match unit.params {
        Some(params) => cons(
            group(Delimiter::Parenthesis, write_params(params, Seq::empty())),
            from_return_type,
        ),
        None => from_return_type,
    };
    match unit.params {
        Some(params) => {
            lemma_cons(
                group(Delimiter::Parenthesis, write_params(params, Seq::empty())),
                from_return_type,
            );
            lemma_read_params(params, Seq::empty());
            assert(Seq::<UnitParamView>::empty() + params =~= params);
        },
        None => {},
    }
    assert(opt_params_spec(from_params) == Ok::<
        (Option<Seq<UnitParamView>>, Seq<TokenView>),
        ParseErrorView,
    >((unit.params, from_return_type)));
    lemma_read_ident(unit.name, from_params);
}

/// Written units read as the units.
pub proof fn lemma_read_units(units: Seq<TransUnitView>, sources: ModuleSources, acc: ItemsView)
    requires
        valid_units(units),
    ensures
        items_from(write_units(units, Seq::empty()), sources, acc) == Ok::<
            ItemsView,
            ParseErrorView,
        >(ItemsView { modules: acc.modules, trans_units: acc.trans_units + units }),
    decreases units.len(),
{
    if units.len() == 0 {
        assert(acc.trans_units + units =~= acc.trans_units);
    } else {
        let tail = units.drop_first();
        let rest = write_units(tail, Seq::empty());
        let from_unit = write_unit(units[0], rest);
        lemma_cons(word("unit"@), from_unit);
        lemma_read_unit(units[0], rest);
        assert forall|i: int| 0 <= i < tail.len() implies valid_unit(#[trigger] tail[i]) by {
            assert(tail[i] == units[i + 1]);
        }
        let next = ItemsView { trans_units: acc.trans_units.push(units[0]), ..acc };
        lemma_read_units(tail, sources, next);
        assert(next.trans_units + tail =~= acc.trans_units + units);
    }
}

/// The source of a written module reads as the module.
pub proof fn lemma_read_module(sources: ModuleSources, module: ModView)
    requires
        valid_module(module),
        module_written(sources, module),
    ensures
        module_spec(module.name, sources) == Ok::<ModView, ParseErrorView>(module),
    decreases module, 0nat,
{
    let i = sources.position(module.name.name)->0;
    let file = sources.entries@[i].resolution->Found_0;
    lemma_written_resolve(file.sources, module.modules);
    assert(Seq::<ModView>::empty() + module.modules =~= module.modules);
    assert forall|i: int| 0 <= i < module.modules.len() implies placed(
        (#[trigger] module.modules[i]).name,
    ) by {
        assert(valid_module(module.modules[i]));
    }
    lemma_read_items(module.modules, module.trans_units, file.sources, no_items());
    assert(Seq::<TransUnitView>::empty() + module.trans_units =~= module.trans_units);
}

/// Sources that hold the written form of modules give each of the modules
/// for its name.
pub proof fn lemma_written_resolve(sources: ModuleSources, modules: Seq<ModView>)
    requires
        valid_modules(modules),
        modules_written(sources, modules),
    ensures
        modules_resolve(sources, modules),
    decreases modules, 1nat,
{
    assert forall|i: int| 0 <= i < modules.len() implies module_spec(
        (#[trigger] modules[i]).name,
        sources,
    ) == Ok::<ModView, ParseErrorView>(modules[i]) by {
        assert(valid_module(modules[i]));
        assert(module_written(sources, modules[i]));
        lemma_read_module(sources, modules[i]);
    }
}

/// Written items read as the modules and the units, where `sources` gives
/// each of the modules for its name.
pub proof fn lemma_read_items(
    modules: Seq<ModView>,
    units: Seq<TransUnitView>,
    sources: ModuleSources,
    acc: ItemsView,
)
    requires
        modules_resolve(sources, modules),
        forall|i: int| 0 <= i < modules.len() ==> placed((#[trigger] modules[i]).name),
        valid_units(units),
    ensures
        items_from(write_mod_decls(modules, write_units(units, Seq::empty())), sources, acc) == Ok::<
            ItemsView,
            ParseErrorView,
        >(ItemsView { modules: acc.modules + modules, trans_units: acc.trans_units + units }),
    decreases modules.len(),
{
    if modules.len() == 0 {
        lemma_read_units(units, sources, acc);
        assert(acc.modules + modules =~= acc.modules);
    } else {
        let module = modules[0];
        let tail = modules.drop_first();
        let rest = write_mod_decls(tail, write_units(units, Seq::empty()));
        let from_semi = cons(glyph(';', Spacing::Alone), rest);
        let from_name = cons(write_ident(module.name), from_semi);
        lemma_cons(word("mod"@), from_name);
        lemma_cons(glyph(';', Spacing::Alone), rest);
        assert(placed(module.name));
        assert(module_spec(module.name, sources) == Ok::<ModView, ParseErrorView>(module));
        lemma_read_ident(module.name, from_semi);
        assert forall|i: int| 0 <= i < tail.len() implies module_spec(
            (#[trigger] tail[i]).name,
            sources,
        ) == Ok::<ModView, ParseErrorView>(tail[i]) && placed(tail[i].name) by {
            assert(tail[i] == modules[i + 1]);
        }
        let next = ItemsView { modules: acc.modules.push(module), ..acc };
        assert(next.modules + tail =~= acc.modules + modules);
        lemma_read_items(tail, units, sources, next);
        assert("mod"@ != "unit"@) by {
            reveal_strlit("mod");
            reveal_strlit("unit");
            assert("mod"@.len() == 3);
            assert("unit"@.len() == 4);
        }
    }
}

/// What is written for regions is empty only if there are none.
pub proof fn lemma_write_regions_len(regions: Seq<IdentView>)
    ensures
        (write_regions(regions, Seq::empty()).len() == 0) == (regions.len() == 0),
{
    if regions.len() > 0 {
        lemma_cons(
            write_ident(regions[0]),
            cons(comma(), write_regions(regions.drop_first(), Seq::empty())),
        );
    }
}

/// Written regions read as the regions.
pub proof fn lemma_read_regions(regions: Seq<IdentView>, acc: Seq<IdentView>)
    requires
        regions.len() > 0,
        forall|i: int| 0 <= i < regions.len() ==> placed(#[trigger] regions[i]),
    ensures
        regions_from(write_regions(regions, Seq::empty()), acc) == Ok::<
            Seq<IdentView>,
            ParseErrorView,
        >(acc + regions),
    decreases regions.len(),
{
    let tail = regions.drop_first();
    let rest = write_regions(tail, Seq::empty());
    let from_comma = cons(comma(), rest);
    lemma_cons(comma(), rest);
    lemma_read_ident(regions[0], from_comma);
    lemma_write_regions_len(tail);
    if tail.len() > 0 {
        assert forall|i: int| 0 <= i < tail.len() implies placed(#[trigger] tail[i]) by {
            assert(tail[i] == regions[i + 1]);
        }
        lemma_read_regions(tail, acc.push(regions[0]));
    }
    assert(acc.push(regions[0]) + tail =~= acc + regions);
}

/// What is written for languages is empty only if there are none.
pub proof fn lemma_write_langs_len(langs: Seq<LocaleLangView>)
    ensures
        (write_langs(langs, Seq::empty()).len() == 0) == (langs.len() == 0),
{
    if langs.len() > 0 {
        let rest = write_langs(langs.drop_first(), Seq::empty());
        lemma_cons(
            write_ident(langs[0].name),
            if langs[0].regions.len() > 0 {
                cons(
                    group(Delimiter::Brace, write_regions(langs[0].regions, Seq::empty())),
                    cons(comma(), rest),
                )
            } else {
                cons(comma(), rest)
            },
        );
    }
}

/// Written languages read as the languages.
pub proof fn lemma_read_langs(langs: Seq<LocaleLangView>, acc: Seq<LocaleLangView>)
    requires
        langs.len() > 0,
        forall|i: int| 0 <= i < langs.len() ==> valid_lang(#[trigger] langs[i]),
    ensures
        langs_from(write_langs(langs, Seq::empty()), acc) == Ok::<
            Seq<LocaleLangView>,
            ParseErrorView,
        >(acc + langs),
    decreases langs.len(),
{
    let lang = langs[0];
    let tail = langs.drop_first();
    let rest = write_langs(tail, Seq::empty());
    let from_comma = cons(comma(), rest);
    lemma_cons(comma(), rest);
    if lang.regions.len() > 0 {
        let brace = group(Delimiter::Brace, write_regions(lang.regions, Seq::empty()));
        let from_brace = cons(brace, from_comma);
        lemma_cons(brace, from_comma);
        lemma_read_ident(lang.name, from_brace);
        lemma_read_regions(lang.regions, Seq::empty());
        assert(Seq::<IdentView>::empty() + lang.regions =~= lang.regions);
    } else {
        lemma_read_ident(lang.name, from_comma);
        assert(lang.regions =~= Seq::<IdentView>::empty());
    }
    assert(locale_variant_spec(write_lang(lang, rest)) == Ok::<
        (LocaleLangView, Seq<TokenView>),
        ParseErrorView,
    >((lang, from_comma)));
    lemma_write_langs_len(tail);
    if tail.len() > 0 {
        assert forall|i: int| 0 <= i < tail.len() implies valid_lang(#[trigger] tail[i]) by {
            assert(tail[i] == langs[i + 1]);
        }
        lemma_read_langs(tail, acc.push(lang));
    }
    assert(acc.push(lang) + tail =~= acc + langs);
}

/// A written locale definition reads as the locale definition.
pub proof fn lemma_read_locale_def(locale: LocaleDefView, rest: Seq<TokenView>)
    requires
        valid_locale_def(locale),
    ensures
        locale_def_spec(write_locale_def(locale, rest)) == Ok::<
            (LocaleDefView, Seq<TokenView>),
            ParseErrorView,
        >((locale, rest)),
{
    let brace = group(Delimiter::Brace, write_langs(locale.langs, Seq::empty()));
    let from_brace = cons(brace, rest);
    let from_name = cons(word("Locale"@), from_brace);
    lemma_cons(brace, rest);
    lemma_cons(word("Locale"@), from_brace);
    lemma_cons(word("enum"@), from_name);
    lemma_read_langs(locale.langs, Seq::empty());
    assert(Seq::<LocaleLangView>::empty() + locale.langs =~= locale.langs);
}

/// The written form of a dictionary reads as the dictionary, where
/// `sources` gives each module of the root for its name.
pub proof fn lemma_read_dict(dict: DictView, sources: ModuleSources)
    requires
        valid_dict(dict),
        modules_resolve(sources, dict.modules),
    ensures
        dict_spec(write_dict(dict), sources) == Ok::<DictView, ParseErrorView>(dict),
{
    let items = write_items(dict.modules, dict.trans_units);
    lemma_read_locale_def(dict.locale_def, items);
    assert forall|i: int| 0 <= i < dict.modules.len() implies placed(
        (#[trigger] dict.modules[i]).name,
    ) by {
        assert(valid_module(dict.modules[i]));
    }
    assert(Seq::<ModView>::empty() + dict.modules =~= dict.modules);
    lemma_read_items(dict.modules, dict.trans_units, sources, no_items());
    assert(Seq::<TransUnitView>::empty() + dict.trans_units =~= dict.trans_units);
}

/// Reading what was written gives the dictionary back.
///
/// Take a dictionary as the parser makes it, [`valid_dict`], write it in
/// canonical form, and let `sources` hold the written form of its modules,
/// [`modules_written`]. Then the grammar reads the written form as the same
/// dictionary: every name, place, pattern, body, parameter and type is as
/// it was.
pub proof fn theorem_roundtrip(dict: DictView, sources: ModuleSources)
    requires
        valid_dict(dict),
        modules_written(sources, dict.modules),
    ensures
        dict_spec(write_dict(dict), sources) == Ok::<DictView, ParseErrorView>(dict),
{
    lemma_written_resolve(sources, dict.modules);
    lemma_read_dict(dict, sources);
}

/// A type that the grammar reads can stand as a type.
pub proof fn lemma_type_is_valid(s: Seq<TokenView>)
    ensures
        valid_type(type_spec(s).0),
        type_spec(s).1.len() <= s.len(),
{
    lemma_type_len(s);
}

/// Parameters that the grammar reads are valid.
pub proof fn lemma_params_are_valid(s: Seq<TokenView>, acc: Seq<UnitParamView>)
    requires
        forall|i: int| 0 <= i < acc.len() ==> valid_param(#[trigger] acc[i]),
    ensures
        params_from(s, acc) matches Ok(params) ==> forall|i: int|
            0 <= i < params.len() ==> valid_param(#[trigger] params[i]),
    decreases s.len(),
{
    if s.len() > 0 {
        match term_spec(s) {
            Ok((name, after_name)) => match op_if_spec(after_name, ':') {
                Ok((_, after_colon)) => {
                    let (ty, after_ty) = type_spec(after_colon);
                    lemma_type_is_valid(after_colon);
                    let next = acc.push(UnitParamView { name, ty });
                    assert forall|i: int| 0 <= i < next.len() implies valid_param(
                        #[trigger] next[i],
                    ) by {
                        if i < acc.len() {
                            assert(next[i] == acc[i]);
                        }
                    }
                    if after_ty.len() > 0 {
                        match op_if_spec(after_ty, ',') {
                            Ok((_, rest)) => {
                                lemma_params_are_valid(rest, next);
                            },
                            Err(_) => {},
                        }
                    }
                },
                Err(_) => {},
            },
            Err(_) => {},
        }
    }
}

/// A pattern that the grammar reads is valid.
pub proof fn lemma_pattern_is_valid(s: Seq<TokenView>)
    ensures
        pattern_spec(s) matches Ok((pattern, _)) ==> valid_pattern(pattern),
{
}

/// Arms that the grammar reads have valid patterns.
pub proof fn lemma_arms_are_valid(s: Seq<TokenView>, acc: Seq<UnitArmView>)
    requires
        forall|i: int| 0 <= i < acc.len() ==> valid_pattern((#[trigger] acc[i]).pattern),
    ensures
        arms_from(s, acc) matches Ok(arms) ==> forall|i: int|
            0 <= i < arms.len() ==> valid_pattern((#[trigger] arms[i]).pattern),
    decreases s.len(),
{
    if s.len() > 0 {
        match arm_spec(s) {
            Ok((arm, rest)) => {
                lemma_arm_consumes(s);
                lemma_pattern_is_valid(s);
                let next = acc.push(arm);
                assert forall|i: int| 0 <= i < next.len() implies valid_pattern(
                    (#[trigger] next[i]).pattern,
                ) by {
                    if i < acc.len() {
                        assert(next[i] == acc[i]);
                    }
                }
                lemma_arms_are_valid(rest, next);
            },
            Err(_) => {},
        }
    }
}

/// A unit that the grammar reads is valid.
pub proof fn lemma_unit_is_valid(s: Seq<TokenView>)
    ensures
        trans_unit_spec(s) matches Ok((unit, _)) ==> valid_unit(unit),
{
    match term_spec(s) {
        Ok((_, rest)) => {
            if rest.len() > 0 && is_group_with(rest[0], Delimiter::Parenthesis) {
                lemma_params_are_valid(rest[0].kind->Group_1, Seq::empty());
            }
            match opt_params_spec(rest) {
                Ok((_, rest)) => {
                    if rest.len() > 0 {
                        lemma_type_is_valid(rest.drop_first().drop_first());
                    }
                    match opt_return_type_spec(rest) {
                        Ok((_, rest)) => match next_spec(rest) {
                            Ok((token, _)) => {
                                if is_group_with(token, Delimiter::Brace) {
                                    lemma_arms_are_valid(token.kind->Group_1, Seq::empty());
                                }
                            },
                            Err(_) => {},
                        },
                        Err(_) => {},
                    }
                },
                Err(_) => {},
            }
        },
        Err(_) => {},
    }
}

/// Whether the items are as the parser makes them, read with `sources`.
pub open spec fn valid_items(sources: ModuleSources, items: ItemsView) -> bool {
    &&& valid_units(items.trans_units)
    &&& valid_modules(items.modules)
    &&& modules_resolve(sources, items.modules)
}

/// A module that the grammar reads is valid, and has the name it was asked
/// for.
pub proof fn lemma_module_is_valid(name: IdentView, sources: ModuleSources)
    requires
        placed(name),
    ensures
        module_spec(name, sources) matches Ok(module) ==> valid_module(module) && module.name
            == name,
    decreases sources, 0nat, 0nat,
{
    match sources.position(name.name) {
        Some(i) => match sources.entries@[i].resolution {
            Resolution::Found(file) => {
                lemma_first_index(sources.names(), name.name);
                lemma_items_are_valid(tokens_view(file.tokens@), file.sources, no_items());
            },
            _ => {},
        },
        None => {},
    }
}

/// Items that the grammar reads are valid, in every module, and `sources`
/// gives each module among them for its name.
pub proof fn lemma_items_are_valid(s: Seq<TokenView>, sources: ModuleSources, acc: ItemsView)
    requires
        valid_items(sources, acc),
    ensures
        items_from(s, sources, acc) matches Ok(items) ==> valid_items(sources, items),
    decreases sources, 1nat, s.len(),
{
    if s.len() > 0 {
        match term_spec(s) {
            Ok((keyword, rest)) => {
                if keyword.name == "unit"@ {
                    match trans_unit_spec(rest) {
                        Ok((unit, after)) => {
                            lemma_trans_unit_consumes(rest);
                            lemma_unit_is_valid(rest);
                            let next = ItemsView {
                                trans_units: acc.trans_units.push(unit),
                                ..acc
                            };
                            assert forall|i: int| 0 <= i < next.trans_units.len() implies valid_unit(
                                #[trigger] next.trans_units[i],
                            ) by {
                                if i < acc.trans_units.len() {
                                    assert(next.trans_units[i] == acc.trans_units[i]);
                                }
                            }
                            lemma_items_are_valid(after, sources, next);
                        },
                        Err(_) => {},
                    }
                } else if keyword.name == "mod"@ {
                    match mod_decl_spec(rest) {
                        Ok((name, rest)) => {
                            lemma_module_is_valid(name, sources);
                            match module_spec(name, sources) {
                                Ok(module) => {
                                    let next = ItemsView {
                                        modules: acc.modules.push(module),
                                        ..acc
                                    };
                                    assert forall|i: int| 0 <= i < next.modules.len() implies valid_module(
                                    #[trigger] next.modules[i]) && module_spec(
                                        next.modules[i].name,
                                        sources,
                                    ) == Ok::<ModView, ParseErrorView>(next.modules[i]) by {
                                        if i < acc.modules.len() {
                                            assert(next.modules[i] == acc.modules[i]);
                                            assert(valid_module(acc.modules[i]));
                                        }
                                    }
                                    lemma_items_are_valid(rest, sources, next);
                                },
                                Err(_) => {},
                            }
                        },
                        Err(_) => {},
                    }
                }
            },
            Err(_) => {},
        }
    }
}

/// Regions that the grammar reads have places, and there is at least one.
pub proof fn lemma_regions_are_placed(s: Seq<TokenView>, acc: Seq<IdentView>)
    requires
        forall|i: int| 0 <= i < acc.len() ==> placed(#[trigger] acc[i]),
    ensures
        regions_from(s, acc) matches Ok(regions) ==> regions.len() > 0 && forall|i: int|
            0 <= i < regions.len() ==> placed(#[trigger] regions[i]),
    decreases s.len(),
{
    match term_spec(s) {
        Ok((region, rest)) => {
            let next = acc.push(region);
            assert forall|i: int| 0 <= i < next.len() implies placed(#[trigger] next[i]) by {
                if i < acc.len() {
                    assert(next[i] == acc[i]);
                }
            }
            if rest.len() > 0 {
                match op_if_spec(rest, ',') {
                    Ok((_, after)) => {
                        if after.len() > 0 {
                            lemma_regions_are_placed(after, next);
                        }
                    },
                    Err(_) => {},
                }
            }
        },
        Err(_) => {},
    }
}

/// Languages that the grammar reads are valid, and there is at least one.
pub proof fn lemma_langs_are_valid(s: Seq<TokenView>, acc: Seq<LocaleLangView>)
    requires
        forall|i: int| 0 <= i < acc.len() ==> valid_lang(#[trigger] acc[i]),
    ensures
        langs_from(s, acc) matches Ok(langs) ==> langs.len() > 0 && forall|i: int|
            0 <= i < langs.len() ==> valid_lang(#[trigger] langs[i]),
    decreases s.len(),
{
    match term_spec(s) {
        Ok((_, rest)) => {
            if rest.len() > 0 && is_group_with(rest[0], Delimiter::Brace) {
                lemma_regions_are_placed(rest[0].kind->Group_1, Seq::empty());
            }
        },
        Err(_) => {},
    }
    match locale_variant_spec(s) {
        Ok((lang, rest)) => {
            let next = acc.push(lang);
            assert forall|i: int| 0 <= i < next.len() implies valid_lang(#[trigger] next[i]) by {
                if i < acc.len() {
                    assert(next[i] == acc[i]);
                }
            }
            if rest.len() > 0 {
                match op_if_spec(rest, ',') {
                    Ok((_, after)) => {
                        if after.len() > 0 {
                            lemma_locale_variant_consumes(s);
                            lemma_langs_are_valid(after, next);
                        }
                    },
                    Err(_) => {},
                }
            }
        },
        Err(_) => {},
    }
}

/// A dictionary that the grammar reads is valid, in the root and in every
/// module, and `sources` gives each module of the root for its name.
pub proof fn lemma_dict_is_valid(s: Seq<TokenView>, sources: ModuleSources)
    ensures
        dict_spec(s, sources) matches Ok(dict) ==> valid_dict(dict) && modules_resolve(
            sources,
            dict.modules,
        ),
{
    match locale_def_spec(s) {
        Ok((_, rest)) => {
            lemma_items_are_valid(rest, sources, no_items());
        },
        Err(_) => {},
    }
    match keyword_spec(s, "enum"@) {
        Ok((_, rest)) => match keyword_spec(rest, "Locale"@) {
            Ok((_, rest)) => match group_delimited_by_spec(rest, Delimiter::Brace) {
                Ok((body, _)) => {
                    lemma_langs_are_valid(body.tokens, Seq::empty());
                },
                Err(_) => {},
            },
            Err(_) => {},
        },
        Err(_) => {},
    }
}

/// Parsing is idempotent on its own canonical form.
///
/// Whatever the grammar reads as a dictionary, from any tokens and any
/// sources: when the root of that dictionary is written in canonical form
/// and read again with the same sources, the grammar reads it as the same
/// dictionary.
pub proof fn theorem_reparse(s: Seq<TokenView>, sources: ModuleSources)
    requires
        dict_spec(s, sources) is Ok,
    ensures
        dict_spec(write_dict(dict_spec(s, sources)->Ok_0), sources) == dict_spec(s, sources),
{
    lemma_dict_is_valid(s, sources);
    lemma_read_dict(dict_spec(s, sources)->Ok_0, sources);
}

/// Parsing is idempotent on its own canonical form, modules included.
///
/// Whatever the grammar reads as a dictionary, from any tokens and any
/// sources: when that dictionary is written in canonical form, with
/// `rewritten` holding the written form of its modules, the grammar reads the
/// written form as the same dictionary.
pub proof fn theorem_reparse_rewritten(
    s: Seq<TokenView>,
    sources: ModuleSources,
    rewritten: ModuleSources,
)
    requires
        dict_spec(s, sources) is Ok,
        modules_written(rewritten, dict_spec(s, sources)->Ok_0.modules),
    ensures
        dict_spec(write_dict(dict_spec(s, sources)->Ok_0), rewritten) == dict_spec(s, sources),
{
    lemma_dict_is_valid(s, sources);
    theorem_roundtrip(dict_spec(s, sources)->Ok_0, rewritten);
}

} // verus!
