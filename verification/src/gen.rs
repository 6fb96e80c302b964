//! The generator: from the syntax tree to the code of the dictionary.
//!
//! [`crate::code`] says which tokens the code of a dictionary is made of;
//! the functions here emit them.
use vstd::prelude::*;
use vstd::string::StringExecFns;
use crate::ast::{
    lemma_mod_view, params_view, ArmBody, ArmPattern, Dict, Ident, IdentView, LocaleDef,
    LocaleDefView, LocaleLang, LocaleLangView, Mod, ModView, TransUnit, TransUnitView, UnitArmView,
    UnitParam, UnitParamView,
};
use crate::check::{check_arm, lemma_fresh_mirrors, resolve_spec, step_spec, Matcher, Target};
use crate::code::{
    allow_attr, body_code, clause_code, clauses_code, constructor_code, derive_attr, dict_code,
    dispatch_code, entry_code, fallback_code, format_args, format_call, locale_code, locale_param,
    locale_path, locale_variant, locale_variants, module_code, module_fields, module_inits,
    modules_code, params_code, pattern_code, region_enum, region_enums, region_type_name,
    region_variants, unit_code, unit_params, units_code,
};
use crate::emit::{
    comma, concat, group, new_stream, path_sep, punct, push_all, push_copies, push_group, push_pair,
    push_punct, push_string, push_token, push_verbatim, push_word, string_literal, thin_arrow, word,
};
use crate::error::{
    CheckError, CheckErrorView, GenError, GenErrorView, TemplateError, TemplateErrorView,
};
use crate::model::views;
use crate::naming::{child_names, child_stem, dispatch_type_name, type_name_of};
use crate::semantics::lemma_target_in_range;
use crate::template::{compile_template, Template};
use crate::token::{clone_tokens, tokens_view, Delimiter, Token, TokenView};
use crate::usage::{Coverage, PatternUsage};

verus! {

/// The name of the type that holds the regions of the language
/// `lang_name`, as a token.
pub fn region_ty_name(lang_name: &str) -> (token: Token)
    ensures
        token@ == word(region_type_name(lang_name@)),
{
    let name = concat(lang_name, "Region");
    Ident::export(name.as_str())
}

/// Appends `#[derive(Debug, Clone, Copy)]`.
fn push_derive_attr(out: &mut Vec<Token>)
    ensures
        tokens_view(final(out)@) == tokens_view(old(out)@) + derive_attr(),
{
    let ghost before = tokens_view(out@);
    let mut traits = new_stream();
    push_word(&mut traits, "Debug");
    push_punct(&mut traits, ',');
    push_word(&mut traits, "Clone");
    push_punct(&mut traits, ',');
    push_word(&mut traits, "Copy");
    proof {
        assert(tokens_view(traits@) =~= seq![
            word("Debug"@),
            comma(),
            word("Clone"@),
            comma(),
            word("Copy"@),
        ]);
    }
    let mut attr = new_stream();
    push_word(&mut attr, "derive");
    push_group(&mut attr, Delimiter::Parenthesis, traits);
    proof {
        assert(tokens_view(attr@) =~= seq![
            word("derive"@),
            group(
                Delimiter::Parenthesis,
                seq![word("Debug"@), comma(), word("Clone"@), comma(), word("Copy"@)],
            ),
        ]);
    }
    push_punct(out, '#');
    push_group(out, Delimiter::Bracket, attr);
    proof {
        assert(tokens_view(out@) =~= before + derive_attr());
    }
}

/// Appends `#[allow(lint)]`.
fn push_allow_attr(out: &mut Vec<Token>, lint: &str)
    ensures
        tokens_view(final(out)@) == tokens_view(old(out)@) + allow_attr(lint@),
{
    let ghost before = tokens_view(out@);
    let mut lints = new_stream();
    push_word(&mut lints, lint);
    proof {
        assert(tokens_view(lints@) =~= seq![word(lint@)]);
    }
    let mut attr = new_stream();
    push_word(&mut attr, "allow");
    push_group(&mut attr, Delimiter::Parenthesis, lints);
    proof {
        assert(tokens_view(attr@) =~= seq![
            word("allow"@),
            group(Delimiter::Parenthesis, seq![word(lint@)]),
        ]);
    }
    push_punct(out, '#');
    push_group(out, Delimiter::Bracket, attr);
    proof {
        assert(tokens_view(out@) =~= before + allow_attr(lint@));
    }
}

/// Appends one case of the locale type.
fn push_locale_variant(out: &mut Vec<Token>, lang: &LocaleLang)
    ensures
        tokens_view(final(out)@) == tokens_view(old(out)@) + locale_variant(lang@),
{
    let ghost before = tokens_view(out@);
    push_word(out, lang.name.as_str());
    if lang.has_regions() {
        let mut payload = new_stream();
        push_token(&mut payload, region_ty_name(lang.name.as_str()));
        proof {
            assert(tokens_view(payload@) =~= seq![word(region_type_name(lang@.name.name))]);
        }
        push_group(out, Delimiter::Parenthesis, payload);
    }
    push_punct(out, ',');
    proof {
        assert(tokens_view(out@) =~= before + locale_variant(lang@));
    }
}

/// Appends the region type of a language, if it has regions.
fn push_region_enum(out: &mut Vec<Token>, lang: &LocaleLang)
    ensures
        tokens_view(final(out)@) == tokens_view(old(out)@) + region_enum(lang@),
{
    let ghost before = tokens_view(out@);
    if !lang.has_regions() {
        proof {
            assert(before + region_enum(lang@) =~= before);
        }
        return ;
    }
    let ghost regions = lang@.regions;
    let mut variants = new_stream();
    let mut j: usize = 0;
    proof {
        assert(regions.take(0) =~= Seq::<IdentView>::empty());
    }
    while j < lang.regions.len()
        invariant
            j <= lang.regions.len(),
            regions == lang@.regions,
            tokens_view(variants@) == region_variants(regions.take(j as int)),
        decreases lang.regions.len() - j,
    {
        proof {
            assert(regions.take(j + 1).drop_last() =~= regions.take(j as int));
            assert(regions.take(j + 1).last() == lang.regions@[j as int]@);
        }
        let ghost so_far = tokens_view(variants@);
        push_word(&mut variants, lang.regions[j].as_str());
        push_punct(&mut variants, ',');
        proof {
            assert(tokens_view(variants@) =~= so_far + seq![
                word(lang.regions@[j as int]@.name),
                comma(),
            ]);
        }
        j += 1;
    }
    proof {
        assert(regions.take(j as int) =~= regions);
    }
    push_derive_attr(out);
    push_word(out, "pub");
    push_word(out, "enum");
    push_token(out, region_ty_name(lang.name.as_str()));
    push_group(out, Delimiter::Brace, variants);
    proof {
        assert(tokens_view(out@) =~= before + region_enum(lang@));
    }
}

/// Emits the locale type and the region types.
pub fn gen_locale(locale_def: &LocaleDef) -> (code: Vec<Token>)
    ensures
        tokens_view(code@) == locale_code(locale_def@),
{
    let ghost langs = locale_def@.langs;
    let mut variants = new_stream();
    let mut region_types = new_stream();
    let mut i: usize = 0;
    proof {
        assert(langs.take(0) =~= Seq::<LocaleLangView>::empty());
    }
    while i < locale_def.langs.len()
        invariant
            i <= locale_def.langs.len(),
            langs == locale_def@.langs,
            tokens_view(variants@) == locale_variants(langs.take(i as int)),
            tokens_view(region_types@) == region_enums(langs.take(i as int)),
        decreases locale_def.langs.len() - i,
    {
        proof {
            assert(langs.take(i + 1).drop_last() =~= langs.take(i as int));
            assert(langs.take(i + 1).last() == locale_def.langs@[i as int]@);
        }
        push_locale_variant(&mut variants, &locale_def.langs[i]);
        push_region_enum(&mut region_types, &locale_def.langs[i]);
        i += 1;
    }
    proof {
        assert(langs.take(i as int) =~= langs);
    }
    let mut code = new_stream();
    push_derive_attr(&mut code);
    push_word(&mut code, "pub");
    push_word(&mut code, "enum");
    push_token(&mut code, locale_def.name().into_token());
    push_group(&mut code, Delimiter::Brace, variants);
    push_all(&mut code, region_types);
    proof {
        assert(tokens_view(code@) =~= locale_code(locale_def@));
    }
    code
}

/// Appends `Locale::name`.
fn push_locale_path(out: &mut Vec<Token>, name: &str)
    ensures
        tokens_view(final(out)@) == tokens_view(old(out)@) + locale_path(name@),
{
    let ghost before = tokens_view(out@);
    push_word(out, "Locale");
    push_pair(out, ':', ':');
    push_word(out, name);
    proof {
        assert(tokens_view(out@) =~= before + locale_path(name@));
    }
}

/// Emits the left side of a clause for `pattern`, whose meaning is
/// `matcher`.
fn emit_pattern(pattern: &ArmPattern, matcher: Matcher, locale: &LocaleDef) -> (code: Vec<Token>)
    requires
        resolve_spec(locale@, pattern@) == Ok::<Target, CheckErrorView>(matcher@),
    ensures
        tokens_view(code@) == pattern_code(locale@, pattern@, matcher@),
{
    let mut code = new_stream();
    proof {
        lemma_target_in_range(locale@, pattern@);
    }
    match pattern {
        ArmPattern::Underscore(_) => {
            push_punct(&mut code, '_');
            proof {
                assert(tokens_view(code@) =~= seq![punct('_')]);
            }
        },
        ArmPattern::Lang(name) => match matcher {
            Matcher::Lang { lang } => {
                push_locale_path(&mut code, name.as_str());
                if locale.langs[lang].has_regions() {
                    let mut any = new_stream();
                    push_punct(&mut any, '_');
                    proof {
                        assert(tokens_view(any@) =~= seq![punct('_')]);
                    }
                    push_group(&mut code, Delimiter::Parenthesis, any);
                }
                proof {
                    assert(tokens_view(code@) =~= pattern_code(locale@, pattern@, matcher@));
                }
            },
            _ => {
                push_word(&mut code, name.as_str());
                proof {
                    assert(tokens_view(code@) =~= seq![word(name@.name)]);
                }
            },
        },
        ArmPattern::WithRegion { lang, region } => {
            push_locale_path(&mut code, lang.as_str());
            let mut payload = new_stream();
            match matcher {
                Matcher::Region { .. } => {
                    push_token(&mut payload, region_ty_name(lang.as_str()));
                    push_pair(&mut payload, ':', ':');
                    push_word(&mut payload, region.as_str());
                    proof {
                        assert(tokens_view(payload@) =~= seq![
                            word(region_type_name(lang@.name)),
                        ] + path_sep() + seq![word(region@.name)]);
                    }
                },
                _ => {
                    push_word(&mut payload, region.as_str());
                    proof {
                        assert(tokens_view(payload@) =~= seq![word(region@.name)]);
                    }
                },
            }
            push_group(&mut code, Delimiter::Parenthesis, payload);
            proof {
                assert(tokens_view(code@) =~= pattern_code(locale@, pattern@, matcher@));
            }
        },
    }
    code
}

/// Checks the pattern of one arm against what the arms before it have
/// matched, and emits the left side of its clause.
pub fn gen_arm_pattern(pattern: &ArmPattern, usage: &mut PatternUsage, locale: &LocaleDef) -> (r:
    Result<Vec<Token>, CheckError>)
    requires
        old(usage)@.mirrors(locale@),
    ensures
        final(usage)@.mirrors(locale@),
        match r {
            Ok(code) => step_spec(locale@, old(usage)@, pattern@) matches Ok((after, target))
                && after == final(usage)@ && tokens_view(code@) == pattern_code(
                locale@,
                pattern@,
                target,
            ),
            Err(e) => step_spec(locale@, old(usage)@, pattern@) == Err::<
                (Coverage, Target),
                CheckErrorView,
            >(e@) && final(usage)@ == old(usage)@,
        },
{
    let matcher = check_arm(pattern, usage, locale)?;
    Ok(emit_pattern(pattern, matcher, locale))
}

/// Emits the formatting call for a string body that was split.
fn emit_format_call(template: &Template) -> (code: Vec<Token>)
    ensures
        tokens_view(code@) == format_call(template@),
{
    let ghost exprs = template@.exprs;
    let mut args = new_stream();
    push_string(&mut args, template.format.as_str());
    let mut i: usize = 0;
    proof {
        assert(exprs.take(0) =~= Seq::<Seq<char>>::empty());
        assert(tokens_view(args@) =~= seq![string_literal(template@.format)] + format_args(
            exprs.take(0),
        ));
    }
    while i < template.exprs.len()
        invariant
            i <= template.exprs.len(),
            exprs == template@.exprs,
            tokens_view(args@) == seq![string_literal(template@.format)] + format_args(
                exprs.take(i as int),
            ),
        decreases template.exprs.len() - i,
    {
        proof {
            assert(exprs.take(i + 1).drop_last() =~= exprs.take(i as int));
            assert(exprs.take(i + 1).last() == template.exprs@[i as int]@);
        }
        let ghost so_far = tokens_view(args@);
        push_punct(&mut args, ',');
        push_verbatim(&mut args, template.exprs[i].as_str());
        proof {
            assert(tokens_view(args@) =~= seq![string_literal(template@.format)] + format_args(
                exprs.take(i + 1),
            ));
        }
        i += 1;
    }
    proof {
        assert(exprs.take(i as int) =~= exprs);
    }
    let mut code = new_stream();
    push_word(&mut code, "format");
    push_punct(&mut code, '!');
    push_group(&mut code, Delimiter::Parenthesis, args);
    proof {
        assert(tokens_view(code@) =~= format_call(template@));
    }
    code
}

/// Emits the right side of a clause: raw code as it is, a string body as a
/// formatting call.
pub fn gen_arm_body(body: &ArmBody) -> (r: Result<Vec<Token>, TemplateError>)
    ensures
        match r {
            Ok(code) => body_code(body@) == Ok::<Seq<TokenView>, TemplateErrorView>(
                tokens_view(code@),
            ),
            Err(e) => body_code(body@) == Err::<Seq<TokenView>, TemplateErrorView>(e@),
        },
{
    match body {
        ArmBody::Raw(tokens) => Ok(clone_tokens(tokens)),
        ArmBody::Str(text) => {
            let template = compile_template(text.as_str())?;
            Ok(emit_format_call(&template))
        },
    }
}

/// Emits the parameters of a method after `&self`.
fn emit_params(params: &Option<Vec<UnitParam>>) -> (code: Vec<Token>)
    ensures
        tokens_view(code@) == params_code(
            match params_view(*params) {
                Some(params) => params,
                None => Seq::empty(),
            },
        ),
{
    let mut code = new_stream();
    match params {
        None => {},
        Some(list) => {
            let ghost all = views(list@);
            let mut i: usize = 0;
            proof {
                assert(all.take(0) =~= Seq::<UnitParamView>::empty());
            }
            while i < list.len()
                invariant
                    i <= list.len(),
                    all == views(list@),
                    tokens_view(code@) == params_code(all.take(i as int)),
                decreases list.len() - i,
            {
                proof {
                    assert(all.take(i + 1).drop_last() =~= all.take(i as int));
                    assert(all.take(i + 1).last() == list@[i as int]@);
                }
                let ghost so_far = tokens_view(code@);
                push_punct(&mut code, ',');
                push_word(&mut code, list[i].name.as_str());
                push_punct(&mut code, ':');
                push_copies(&mut code, &list[i].ty.0);
                proof {
                    assert(tokens_view(code@) =~= so_far + seq![
                        comma(),
                        word(list@[i as int]@.name.name),
                        punct(':'),
                    ] + list@[i as int]@.ty);
                }
                i += 1;
            }
            proof {
                assert(all.take(i as int) =~= all);
            }
        },
    }
    code
}

/// Emits the clause that stands for a missing translation.
fn emit_fallback(unit: &str) -> (code: Vec<Token>)
    ensures
        tokens_view(code@) == fallback_code(unit@),
{
    let mut text = String::from_str("[[MISSING TRANSLATION FOR '");
    text.append(unit);
    text.append("']]");
    let mut code = new_stream();
    push_punct(&mut code, '_');
    push_pair(&mut code, '=', '>');
    push_string(&mut code, text.as_str());
    push_punct(&mut code, '.');
    push_word(&mut code, "into");
    push_group(&mut code, Delimiter::Parenthesis, new_stream());
    push_punct(&mut code, ',');
    proof {
        assert(tokens_view(code@) =~= fallback_code(unit@));
    }
    code
}

/// Emits the method for one translation unit.
pub fn gen_trans_unit(unit: &TransUnit, locale: &LocaleDef) -> (r: Result<Vec<Token>, GenError>)
    ensures
        match r {
            Ok(code) => unit_code(locale@, unit@) == Ok::<Seq<TokenView>, GenErrorView>(
                tokens_view(code@),
            ),
            Err(e) => unit_code(locale@, unit@) == Err::<Seq<TokenView>, GenErrorView>(e@),
        },
{
    // The signature.
    let mut self_and_params = new_stream();
    push_punct(&mut self_and_params, '&');
    push_word(&mut self_and_params, "self");
    push_all(&mut self_and_params, emit_params(&unit.params));
    proof {
        assert(tokens_view(self_and_params@) =~= seq![punct('&'), word("self"@)] + params_code(
            unit_params(unit@),
        ));
    }
    let return_type = match &unit.return_type {
        Some(ty) => clone_tokens(&ty.0),
        None => {
            let mut text = new_stream();
            push_word(&mut text, "String");
            proof {
                assert(tokens_view(text@) =~= seq![word("String"@)]);
            }
            text
        },
    };
    // The clauses. The usage tree tells which locales the arms leave
    // unmatched.
    let ghost arms = unit@.arms;
    let mut usage = PatternUsage::new(locale);
    let mut clauses = new_stream();
    let mut i: usize = 0;
    proof {
        lemma_fresh_mirrors(locale@);
        assert(arms.take(0) =~= Seq::<UnitArmView>::empty());
    }
    while i < unit.body.arms.len()
        invariant
            i <= unit.body.arms.len(),
            arms == unit@.arms,
            usage@.mirrors(locale@),
            clauses_code(locale@, arms.take(i as int)) == Ok::<
                (Coverage, Seq<TokenView>),
                GenErrorView,
            >((usage@, tokens_view(clauses@))),
        decreases unit.body.arms.len() - i,
    {
        let arm = &unit.body.arms[i];
        proof {
            assert(arms.take(i + 1).drop_last() =~= arms.take(i as int));
            assert(arms.take(i + 1).last() == arm@);
        }
        let pattern = match gen_arm_pattern(&arm.pattern, &mut usage, locale) {
            Ok(pattern) => pattern,
            Err(e) => {
                proof {
                    lemma_clauses_error(locale@, arms, i + 1);
                }
                return Err(GenError::Check(e));
            },
        };
        let body = match gen_arm_body(&arm.body.obj) {
            Ok(body) => body,
            Err(e) => {
                proof {
                    lemma_clauses_error(locale@, arms, i + 1);
                }
                return Err(GenError::Template(e));
            },
        };
        let ghost so_far = tokens_view(clauses@);
        let ghost pattern_view = tokens_view(pattern@);
        push_all(&mut clauses, pattern);
        push_pair(&mut clauses, '=', '>');
        push_group(&mut clauses, Delimiter::Brace, body);
        proof {
            assert(tokens_view(clauses@) =~= so_far + clause_code(
                pattern_view,
                tokens_view(body@),
            ));
        }
        i += 1;
    }
    proof {
        assert(arms.take(i as int) =~= arms);
    }
    let exhausted = usage.is_exhausted();
    if !exhausted {
        if unit.return_type.is_some() {
            return Err(
                GenError::Check(
                    CheckError::MissingFallbackForTypedUnit {
                        unit: unit.name.name.clone(),
                        span: unit.name.span(),
                    },
                ),
            );
        }
        push_all(&mut clauses, emit_fallback(unit.name.as_str()));
    } else {
        proof {
            assert(tokens_view(clauses@) + Seq::<TokenView>::empty() =~= tokens_view(clauses@));
        }
    }
    // The method as a whole.
    let mut dispatch = new_stream();
    push_word(&mut dispatch, "match");
    push_word(&mut dispatch, "self");
    push_punct(&mut dispatch, '.');
    push_word(&mut dispatch, "locale");
    push_group(&mut dispatch, Delimiter::Brace, clauses);
    proof {
        assert(tokens_view(dispatch@) =~= seq![
            word("match"@),
            word("self"@),
            punct('.'),
            word("locale"@),
            group(Delimiter::Brace, tokens_view(clauses@)),
        ]);
    }
    let mut code = new_stream();
    push_word(&mut code, "pub");
    push_word(&mut code, "fn");
    push_word(&mut code, unit.name.as_str());
    push_group(&mut code, Delimiter::Parenthesis, self_and_params);
    push_pair(&mut code, '-', '>');
    let ghost return_view = tokens_view(return_type@);
    push_all(&mut code, return_type);
    push_group(&mut code, Delimiter::Brace, dispatch);
    proof {
        assert(tokens_view(code@) =~= seq![
            word("pub"@),
            word("fn"@),
            word(unit@.name.name),
            group(Delimiter::Parenthesis, tokens_view(self_and_params@)),
        ] + thin_arrow() + return_view + seq![group(Delimiter::Brace, tokens_view(dispatch@))]);
    }
    Ok(code)
}

/// An error among the first arms is the error of all the arms.
proof fn lemma_clauses_error(locale: LocaleDefView, arms: Seq<UnitArmView>, n: int)
    requires
        0 <= n <= arms.len(),
        clauses_code(locale, arms.take(n)) is Err,
    ensures
        clauses_code(locale, arms) == clauses_code(locale, arms.take(n)),
    decreases arms.len() - n,
{
    if n < arms.len() {
        assert(arms.take(n + 1).drop_last() =~= arms.take(n));
        lemma_clauses_error(locale, arms, n + 1);
    } else {
        assert(arms.take(n) =~= arms);
    }
}

/// An error among the first units is the error of all the units.
proof fn lemma_units_error(locale: LocaleDefView, units: Seq<TransUnitView>, n: int)
    requires
        0 <= n <= units.len(),
        units_code(locale, units.take(n)) is Err,
    ensures
        units_code(locale, units) == units_code(locale, units.take(n)),
    decreases units.len() - n,
{
    if n < units.len() {
        assert(units.take(n + 1).drop_last() =~= units.take(n));
        lemma_units_error(locale, units, n + 1);
    } else {
        assert(units.take(n) =~= units);
    }
}

/// An error among the first modules is the error of all the modules.
proof fn lemma_modules_error(
    locale: LocaleDefView,
    modules: Seq<ModView>,
    stem: Seq<char>,
    n: int,
)
    requires
        0 <= n <= modules.len(),
        modules_code(locale, modules.take(n), stem) is Err,
    ensures
        modules_code(locale, modules, stem) == modules_code(locale, modules.take(n), stem),
    decreases modules.len() - n,
{
    if n < modules.len() {
        assert(modules.take(n + 1).drop_last() =~= modules.take(n));
        lemma_modules_error(locale, modules, stem, n + 1);
    } else {
        assert(modules.take(n) =~= modules);
    }
}

/// Emits the methods for the units, in order.
fn emit_units(trans_units: &Vec<TransUnit>, locale: &LocaleDef) -> (r: Result<Vec<Token>, GenError>)
    ensures
        match r {
            Ok(code) => units_code(locale@, views(trans_units@)) == Ok::<
                Seq<TokenView>,
                GenErrorView,
            >(tokens_view(code@)),
            Err(e) => units_code(locale@, views(trans_units@)) == Err::<
                Seq<TokenView>,
                GenErrorView,
            >(e@),
        },
{
    let ghost units = views(trans_units@);
    let mut code = new_stream();
    let mut i: usize = 0;
    proof {
        assert(units.take(0) =~= Seq::<TransUnitView>::empty());
    }
    while i < trans_units.len()
        invariant
            i <= trans_units.len(),
            units == views(trans_units@),
            units_code(locale@, units.take(i as int)) == Ok::<Seq<TokenView>, GenErrorView>(
                tokens_view(code@),
            ),
        decreases trans_units.len() - i,
    {
        proof {
            assert(units.take(i + 1).drop_last() =~= units.take(i as int));
            assert(units.take(i + 1).last() == trans_units@[i as int]@);
        }
        match gen_trans_unit(&trans_units[i], locale) {
            Ok(method) => {
                push_all(&mut code, method);
            },
            Err(e) => {
                proof {
                    lemma_units_error(locale@, units, i + 1);
                }
                return Err(e);
            },
        }
        i += 1;
    }
    proof {
        assert(units.take(i as int) =~= units);
    }
    Ok(code)
}

/// Emits the fields and the initialisers for the modules.
fn emit_module_members(sub_modules: &Vec<Mod>, stem: &str) -> (r: (Vec<Token>, Vec<Token>))
    ensures
        tokens_view(r.0@) == module_fields(stem@, views(sub_modules@)),
        tokens_view(r.1@) == module_inits(stem@, views(sub_modules@)),
{
    let ghost modules = views(sub_modules@);
    let mut fields = new_stream();
    let mut inits = new_stream();
    let mut i: usize = 0;
    proof {
        assert(modules.take(0) =~= Seq::<ModView>::empty());
    }
    while i < sub_modules.len()
        invariant
            i <= sub_modules.len(),
            modules == views(sub_modules@),
            tokens_view(fields@) == module_fields(stem@, modules.take(i as int)),
            tokens_view(inits@) == module_inits(stem@, modules.take(i as int)),
        decreases sub_modules.len() - i,
    {
        let sub = &sub_modules[i];
        proof {
            lemma_mod_view(*sub);
            assert(modules.take(i + 1).drop_last() =~= modules.take(i as int));
            assert(modules.take(i + 1).last() == sub@);
        }
        let (_, ty_name) = child_names(stem, sub.name.as_str());
        let ghost fields_so_far = tokens_view(fields@);
        let ghost inits_so_far = tokens_view(inits@);
        push_word(&mut fields, "pub");
        push_word(&mut fields, sub.name.as_str());
        push_punct(&mut fields, ':');
        push_word(&mut fields, ty_name.as_str());
        push_punct(&mut fields, ',');
        let mut argument = new_stream();
        push_word(&mut argument, "locale");
        proof {
            assert(tokens_view(argument@) =~= seq![word("locale"@)]);
        }
        push_word(&mut inits, sub.name.as_str());
        push_punct(&mut inits, ':');
        push_word(&mut inits, ty_name.as_str());
        push_pair(&mut inits, ':', ':');
        push_word(&mut inits, "new");
        push_group(&mut inits, Delimiter::Parenthesis, argument);
        push_punct(&mut inits, ',');
        proof {
            let name = sub@.name.name;
            assert(tokens_view(fields@) =~= fields_so_far + seq![
                word("pub"@),
                word(name),
                punct(':'),
                word(dispatch_type_name(child_stem(stem@, name))),
                comma(),
            ]);
            assert(tokens_view(inits@) =~= inits_so_far + seq![
                word(name),
                punct(':'),
                word(dispatch_type_name(child_stem(stem@, name))),
            ] + path_sep() + seq![
                word("new"@),
                group(Delimiter::Parenthesis, seq![word("locale"@)]),
                comma(),
            ]);
        }
        i += 1;
    }
    proof {
        assert(modules.take(i as int) =~= modules);
    }
    (fields, inits)
}

/// Appends `locale: Locale`.
fn push_locale_param(out: &mut Vec<Token>)
    ensures
        tokens_view(final(out)@) == tokens_view(old(out)@) + locale_param(),
{
    let ghost before = tokens_view(out@);
    push_word(out, "locale");
    push_punct(out, ':');
    push_word(out, "Locale");
    proof {
        assert(tokens_view(out@) =~= before + locale_param());
    }
}

/// Emits the dispatch type with the prefix `stem`, around its methods.
fn emit_dispatch(sub_modules: &Vec<Mod>, stem: &str, methods: Vec<Token>) -> (code: Vec<Token>)
    ensures
        tokens_view(code@) == dispatch_code(stem@, views(sub_modules@), tokens_view(methods@)),
{
    let ghost modules = views(sub_modules@);
    let (fields, inits) = emit_module_members(sub_modules, stem);
    let ty_name = type_name_of(stem);
    // The type.
    let mut members = new_stream();
    push_locale_param(&mut members);
    push_punct(&mut members, ',');
    push_all(&mut members, fields);
    proof {
        assert(tokens_view(members@) =~= locale_param() + seq![comma()] + module_fields(
            stem@,
            modules,
        ));
    }
    // The constructor.
    let mut initialisers = new_stream();
    push_word(&mut initialisers, "locale");
    push_punct(&mut initialisers, ',');
    push_all(&mut initialisers, inits);
    proof {
        assert(tokens_view(initialisers@) =~= seq![word("locale"@), comma()] + module_inits(
            stem@,
            modules,
        ));
    }
    let mut value = new_stream();
    push_word(&mut value, "Self");
    push_group(&mut value, Delimiter::Brace, initialisers);
    proof {
        assert(tokens_view(value@) =~= seq![
            word("Self"@),
            group(
                Delimiter::Brace,
                seq![word("locale"@), comma()] + module_inits(stem@, modules),
            ),
        ]);
    }
    let mut parameter = new_stream();
    push_locale_param(&mut parameter);
    proof {
        assert(tokens_view(parameter@) =~= locale_param());
    }
    let mut functions = new_stream();
    push_word(&mut functions, "pub");
    push_word(&mut functions, "fn");
    push_word(&mut functions, "new");
    push_group(&mut functions, Delimiter::Parenthesis, parameter);
    push_pair(&mut functions, '-', '>');
    push_word(&mut functions, "Self");
    push_group(&mut functions, Delimiter::Brace, value);
    proof {
        assert(tokens_view(functions@) =~= constructor_code(stem@, modules));
    }
    push_all(&mut functions, methods);
    // Both together.
    let mut code = new_stream();
    push_allow_attr(&mut code, "non_camel_case_types");
    push_allow_attr(&mut code, "dead_code");
    push_word(&mut code, "pub");
    push_word(&mut code, "struct");
    push_word(&mut code, ty_name.as_str());
    push_group(&mut code, Delimiter::Brace, members);
    push_word(&mut code, "impl");
    push_word(&mut code, ty_name.as_str());
    push_group(&mut code, Delimiter::Brace, functions);
    proof {
        assert(tokens_view(code@) =~= dispatch_code(stem@, modules, tokens_view(methods@)));
    }
    code
}

/// Emits the code for one module, or for the root: first the code for the
/// modules below it, then its own dispatch type.
///
/// Modules do not become modules of the host language. Each gets a dispatch
/// type, named after its path as [`crate::naming`] lays down, so that the
/// modules at two different paths never get the same name.
pub fn gen_module(
    sub_modules: &Vec<Mod>,
    trans_units: &Vec<TransUnit>,
    locale: &LocaleDef,
    stem: &str,
) -> (r: Result<Vec<Token>, GenError>)
    ensures
        match r {
            Ok(code) => module_code(locale@, views(sub_modules@), views(trans_units@), stem@) == Ok::<
                Seq<TokenView>,
                GenErrorView,
            >(tokens_view(code@)),
            Err(e) => module_code(locale@, views(sub_modules@), views(trans_units@), stem@) == Err::<
                Seq<TokenView>,
                GenErrorView,
            >(e@),
        },
    decreases *sub_modules,
{
    let ghost modules = views(sub_modules@);
    let mut code = new_stream();
    let mut i: usize = 0;
    proof {
        assert(modules.take(0) =~= Seq::<ModView>::empty());
    }
    while i < sub_modules.len()
        invariant
            i <= sub_modules.len(),
            modules == views(sub_modules@),
            modules_code(locale@, modules.take(i as int), stem@) == Ok::<
                Seq<TokenView>,
                GenErrorView,
            >(tokens_view(code@)),
        decreases sub_modules.len() - i,
    {
        let sub = &sub_modules[i];
        proof {
            lemma_mod_view(*sub);
            assert(modules.take(i + 1).drop_last() =~= modules.take(i as int));
            assert(modules.take(i + 1).last() == sub@);
        }
        let (new_stem, _) = child_names(stem, sub.name.as_str());
        match gen_module(&sub.modules, &sub.trans_units, locale, new_stem.as_str()) {
            Ok(below) => {
                push_all(&mut code, below);
            },
            Err(e) => {
                proof {
                    lemma_modules_error(locale@, modules, stem@, i + 1);
                }
                return Err(e);
            },
        }
        i += 1;
    }
    proof {
        assert(modules.take(i as int) =~= modules);
    }
    let methods = emit_units(trans_units, locale)?;
    push_all(&mut code, emit_dispatch(sub_modules, stem, methods));
    Ok(code)
}

/// Generates the code of a dictionary.
///
/// The code holds the locale type and the region types, a function `new`
/// that makes the root's dispatch type from a locale, and one dispatch type
/// for each module and for the root. A dispatch type has one method for
/// each translation unit, with the unit's name and parameters; the method
/// matches on the locale to pick the body.
pub fn gen(dict: Dict) -> (r: Result<Vec<Token>, GenError>)
    ensures
        match r {
            Ok(code) => dict_code(dict@) == Ok::<Seq<TokenView>, GenErrorView>(tokens_view(code@)),
            Err(e) => dict_code(dict@) == Err::<Seq<TokenView>, GenErrorView>(e@),
        },
{
    let dispatch = gen_module(&dict.modules, &dict.trans_units, &dict.locale_def, "")?;
    let mut code = gen_locale(&dict.locale_def);
    // The function `new`.
    let mut parameter = new_stream();
    push_locale_param(&mut parameter);
    proof {
        assert(tokens_view(parameter@) =~= locale_param());
    }
    let mut argument = new_stream();
    push_word(&mut argument, "locale");
    proof {
        assert(tokens_view(argument@) =~= seq![word("locale"@)]);
    }
    let mut call = new_stream();
    push_word(&mut call, "Dict");
    push_pair(&mut call, ':', ':');
    push_word(&mut call, "new");
    push_group(&mut call, Delimiter::Parenthesis, argument);
    proof {
        assert(tokens_view(call@) =~= seq![word("Dict"@)] + path_sep() + seq![
            word("new"@),
            group(Delimiter::Parenthesis, seq![word("locale"@)]),
        ]);
    }
    let ghost before = tokens_view(code@);
    push_word(&mut code, "pub");
    push_word(&mut code, "fn");
    push_token(&mut code, Ident::export("new"));
    push_group(&mut code, Delimiter::Parenthesis, parameter);
    push_pair(&mut code, '-', '>');
    push_word(&mut code, "Dict");
    push_group(&mut code, Delimiter::Brace, call);
    proof {
        assert(tokens_view(code@) =~= before + entry_code());
    }
    push_all(&mut code, dispatch);
    Ok(code)
}

} // verus!
