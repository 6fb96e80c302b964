//! The parser: from a token stream to the syntax tree of a dictionary.
//!
//! Each function here computes the function of the same name in
//! [`crate::grammar`].
use vstd::prelude::*;
use crate::ast::{
    lemma_mod_view, opt_ty_view, params_view, ArmBody, ArmBodyView, ArmPattern, Dict, DictView,
    Ident, IdentView, LocaleDef, LocaleDefView, LocaleLang, LocaleLangView, Mod, ModView, TransUnit,
    TransUnitView, Ty, UnitArm, UnitArmView, UnitBody, UnitParam, UnitParamView,
};
use crate::cursor::{Cursor, Parsed};
use crate::error::{Expected, ParseError, ParseErrorView};
use crate::grammar::{
    arm_spec, arms_from, body_spec, dict_spec, ends_type, fat_arrow_spec, items_from, langs_from,
    lemma_arm_consumes, lemma_locale_variant_consumes, lemma_trans_unit_consumes, lemma_type_len,
    locale_def_spec, locale_variant_spec, mod_decl_spec, module_names, module_spec, no_items,
    opt_params_spec, opt_return_type_spec, params_from, pattern_spec, regions_from, trans_unit_spec,
    type_len, type_spec, ItemsView,
};
use crate::model::{lemma_views_push, str_eq, views};
use crate::sources::{ModuleSources, Resolution};
use crate::token::{
    clone_tokens, lemma_group_view, lemma_tokens_view_push, tokens_view, Delimiter, Spacing, Span,
    Spanned, Token, TokenKind, TokenView,
};

verus! {

/// Whether the parser's result is what the grammar asks for: the value and
/// the tokens left, or the error.
pub open spec fn parsed_as<T: View>(
    r: Result<T, ParseError>,
    rest: Seq<TokenView>,
    want: Parsed<T::V>,
) -> bool {
    match r {
        Ok(v) => want == Ok::<(T::V, Seq<TokenView>), ParseErrorView>((v@, rest)),
        Err(e) => want == Err::<(T::V, Seq<TokenView>), ParseErrorView>(e@),
    }
}

/// Whether a type ends before the token.
fn token_ends_type(token: &Token) -> (yes: bool)
    ensures
        yes == ends_type(token@),
{
    match &token.kind {
        TokenKind::Op(glyph, _) => *glyph == ',',
        TokenKind::Group(delimiter, _) => {
            proof {
                lemma_group_view(*token);
            }
            matches!(delimiter, Delimiter::Brace)
        },
        _ => false,
    }
}

/// Reads a type: every token up to the next comma or block. A type is not
/// looked into, so this never fails.
pub fn parse_type(iter: &mut Cursor) -> (r: Result<Ty, ParseError>)
    ensures
        r matches Ok(ty) && (ty@, final(iter).remaining()) == type_spec(old(iter).remaining()),
{
    let ghost s = iter.remaining();
    let mut tokens: Vec<Token> = Vec::new();
    proof {
        assert(s.take(0) =~= tokens_view(tokens@));
        assert(s.skip(0) =~= s);
    }
    loop
        invariant
            0 <= tokens.len() <= s.len(),
            tokens_view(tokens@) == s.take(tokens.len() as int),
            iter.remaining() == s.skip(tokens.len() as int),
            forall|i: int| 0 <= i < tokens.len() ==> !ends_type(#[trigger] s[i]),
        ensures
            tokens_view(tokens@) == s.take(tokens.len() as int),
            iter.remaining() == s.skip(tokens.len() as int),
            tokens.len() == type_len(s),
        decreases s.len() - tokens.len(),
    {
        let ghost n = tokens.len() as int;
        proof {
            lemma_type_len(s);
        }
        match iter.peek_curr() {
            Err(_) => {
                break ;
            },
            Ok(token) => {
                assert(token@ == s[n]);
                if token_ends_type(token) {
                    break ;
                }
                let ghost before = tokens@;
                tokens.push(token.duplicate());
                iter.bump();
                proof {
                    lemma_tokens_view_push(before, tokens@[n]);
                    assert(s.take(n + 1) =~= s.take(n).push(s[n]));
                    assert(s.skip(n).drop_first() =~= s.skip(n + 1));
                }
            },
        }
    }
    Ok(Ty(tokens))
}

/// Reads the parameters of a unit from the stream of its parameter list.
pub fn parse_unit_params(group: &Vec<Token>) -> (r: Result<Vec<UnitParam>, ParseError>)
    ensures
        match r {
            Ok(params) => params_from(tokens_view(group@), Seq::empty()) == Ok::<
                Seq<UnitParamView>,
                ParseErrorView,
            >(views(params@)),
            Err(e) => params_from(tokens_view(group@), Seq::empty()) == Err::<
                Seq<UnitParamView>,
                ParseErrorView,
            >(e@),
        },
{
    let mut iter = Cursor::new(group);
    let mut params: Vec<UnitParam> = Vec::new();
    let ghost want = params_from(tokens_view(group@), Seq::empty());
    proof {
        assert(views(params@) =~= Seq::<UnitParamView>::empty());
    }
    while !iter.is_exhausted()
        invariant
            want == params_from(tokens_view(group@), Seq::empty()),
            want == params_from(iter.remaining(), views(params@)),
        decreases iter.remaining().len(),
    {
        let ghost s = iter.remaining();
        let ghost acc = views(params@);
        let name = iter.eat_term()?;
        iter.eat_op_if(':')?;
        proof {
            lemma_type_len(iter.remaining());
        }
        let ty = match parse_type(&mut iter) {
            Ok(ty) => ty,
            Err(e) => {
                return Err(e);
            },
        };
        let ghost before = params@;
        params.push(UnitParam { name, ty });
        proof {
            lemma_views_push(before, params@[before.len() as int]);
        }
        if !iter.is_exhausted() {
            iter.eat_op_if(',')?;
        }
    }
    Ok(params)
}

/// Reads one pattern: `_`, `En` or `En(Gb)`.
pub fn parse_arm_pattern(iter: &mut Cursor) -> (r: Result<ArmPattern, ParseError>)
    ensures
        parsed_as(r, final(iter).remaining(), pattern_spec(old(iter).remaining())),
{
    match iter.eat_op_if('_') {
        Ok((_, span)) => {
            return Ok(ArmPattern::Underscore(span));
        },
        Err(_) => {},
    }
    let lang = iter.eat_term()?;
    let next = iter.peek_curr()?;
    if !next.kind.is_group() {
        proof {
            assert(!(next@.kind is Group));
        }
        Ok(ArmPattern::Lang(lang))
    } else {
        proof {
            lemma_group_view(*next);
        }
        let region_group = iter.eat_group_delimited_by(Delimiter::Parenthesis)?;
        let mut inner = Cursor::new(region_group.tokens);
        let region = inner.eat_term()?;
        match inner.peek_curr() {
            Ok(token) => Err(
                ParseError::UnexpectedToken {
                    expected: Expected::EndOfGroup,
                    found: token.duplicate(),
                },
            ),
            Err(_) => Ok(ArmPattern::WithRegion { lang, region }),
        }
    }
}

/// Reads the body of one arm: a block of raw code, or a string literal.
pub fn parse_arm_body(iter: &mut Cursor) -> (r: Result<Spanned<ArmBody>, ParseError>)
    ensures
        match r {
            Ok(body) => body_spec(old(iter).remaining()) == Ok::<
                ((ArmBodyView, Span), Seq<TokenView>),
                ParseErrorView,
            >(((body.obj@, body.span), final(iter).remaining())),
            Err(e) => body_spec(old(iter).remaining()) == Err::<
                ((ArmBodyView, Span), Seq<TokenView>),
                ParseErrorView,
            >(e@),
        },
{
    let next = iter.peek_curr()?;
    if next.kind.is_group() {
        proof {
            lemma_group_view(*next);
        }
        let group = iter.eat_group_delimited_by(Delimiter::Brace)?;
        Ok(Spanned::new(ArmBody::Raw(clone_tokens(group.tokens)), group.span))
    } else {
        proof {
            assert(!(next@.kind is Group));
        }
        let lit = iter.eat_literal()?;
        match lit.string {
            Some(text) => Ok(Spanned::new(ArmBody::Str(text), lit.span)),
            None => Err(
                ParseError::UnexpectedToken {
                    expected: Expected::StringLiteral,
                    found: next.duplicate(),
                },
            ),
        }
    }
}

/// Reads the two glyphs `=>`.
fn parse_fat_arrow(iter: &mut Cursor) -> (r: Result<(), ParseError>)
    ensures
        match r {
            Ok(()) => fat_arrow_spec(old(iter).remaining()) == Ok::<
                ((), Seq<TokenView>),
                ParseErrorView,
            >(((), final(iter).remaining())),
            Err(e) => fat_arrow_spec(old(iter).remaining()) == Err::<
                ((), Seq<TokenView>),
                ParseErrorView,
            >(e@),
        },
{
    let first = iter.peek_curr()?;
    let (spacing, _) = iter.eat_op_if('=')?;
    if matches!(spacing, Spacing::Alone) {
        return Err(
            ParseError::UnexpectedToken { expected: Expected::FatArrow, found: first.duplicate() },
        );
    }
    iter.eat_op_if('>')?;
    Ok(())
}

/// Reads one arm and the comma after it.
fn parse_arm(iter: &mut Cursor) -> (r: Result<UnitArm, ParseError>)
    ensures
        parsed_as(r, final(iter).remaining(), arm_spec(old(iter).remaining())),
{
    let pattern = parse_arm_pattern(iter)?;
    parse_fat_arrow(iter)?;
    let body = parse_arm_body(iter)?;
    if !iter.is_exhausted() {
        if body.obj.is_raw_block() {
            // After a block the comma may be left out.
            let _ = iter.eat_op_if(',');
        } else {
            iter.eat_op_if(',')?;
        }
    }
    Ok(UnitArm { pattern, body })
}

/// Reads the arms of a unit from the stream of its block.
pub fn parse_unit_body(group: &Vec<Token>) -> (r: Result<UnitBody, ParseError>)
    ensures
        match r {
            Ok(body) => arms_from(tokens_view(group@), Seq::empty()) == Ok::<
                Seq<UnitArmView>,
                ParseErrorView,
            >(body@),
            Err(e) => arms_from(tokens_view(group@), Seq::empty()) == Err::<
                Seq<UnitArmView>,
                ParseErrorView,
            >(e@),
        },
{
    let mut iter = Cursor::new(group);
    let mut arms: Vec<UnitArm> = Vec::new();
    let ghost want = arms_from(tokens_view(group@), Seq::empty());
    proof {
        assert(views(arms@) =~= Seq::<UnitArmView>::empty());
    }
    while !iter.is_exhausted()
        invariant
            want == arms_from(tokens_view(group@), Seq::empty()),
            want == arms_from(iter.remaining(), views(arms@)),
        decreases iter.remaining().len(),
    {
        proof {
            lemma_arm_consumes(iter.remaining());
        }
        let arm = parse_arm(&mut iter)?;
        let ghost before = arms@;
        arms.push(arm);
        proof {
            lemma_views_push(before, arms@[before.len() as int]);
        }
    }
    Ok(UnitBody { arms })
}

/// Reads the parameter list of a unit, if one is written.
fn parse_opt_params(iter: &mut Cursor) -> (r: Result<Option<Vec<UnitParam>>, ParseError>)
    ensures
        match r {
            Ok(params) => opt_params_spec(old(iter).remaining()) == Ok::<
                (Option<Seq<UnitParamView>>, Seq<TokenView>),
                ParseErrorView,
            >((params_view(params), final(iter).remaining())),
            Err(e) => opt_params_spec(old(iter).remaining()) == Err::<
                (Option<Seq<UnitParamView>>, Seq<TokenView>),
                ParseErrorView,
            >(e@),
        },
{
    let next = iter.peek_curr()?;
    match &next.kind {
        TokenKind::Group(Delimiter::Parenthesis, tokens) => {
            proof {
                lemma_group_view(*next);
            }
            let params = parse_unit_params(tokens)?;
            iter.bump();
            Ok(Some(params))
        },
        _ => {
            proof {
                if next.kind is Group {
                    lemma_group_view(*next);
                }
            }
            Ok(None)
        },
    }
}

/// Reads the return type of a unit, if one is written: `->` and a type.
fn parse_opt_return_type(iter: &mut Cursor) -> (r: Result<Option<Ty>, ParseError>)
    ensures
        match r {
            Ok(ty) => opt_return_type_spec(old(iter).remaining()) == Ok::<
                (Option<Seq<TokenView>>, Seq<TokenView>),
                ParseErrorView,
            >((opt_ty_view(ty), final(iter).remaining())),
            Err(e) => opt_return_type_spec(old(iter).remaining()) == Err::<
                (Option<Seq<TokenView>>, Seq<TokenView>),
                ParseErrorView,
            >(e@),
        },
{
    let next = iter.peek_curr()?;
    match &next.kind {
        TokenKind::Op('-', spacing) => {
            if matches!(spacing, Spacing::Alone) {
                return Err(
                    ParseError::UnexpectedToken {
                        expected: Expected::Arrow,
                        found: next.duplicate(),
                    },
                );
            }
            iter.bump();
            iter.eat_op_if('>')?;
            match parse_type(iter) {
                Ok(ty) => Ok(Some(ty)),
                Err(e) => Err(e),
            }
        },
        _ => Ok(None),
    }
}

/// Reads one translation unit; the word `unit` was read already.
pub fn parse_trans_unit(iter: &mut Cursor) -> (r: Result<TransUnit, ParseError>)
    ensures
        parsed_as(r, final(iter).remaining(), trans_unit_spec(old(iter).remaining())),
{
    let name = iter.eat_term()?;
    let params = parse_opt_params(iter)?;
    let return_type = parse_opt_return_type(iter)?;
    let token = iter.eat_curr()?;
    let body = match &token.kind {
        TokenKind::Group(Delimiter::Brace, tokens) => {
            proof {
                lemma_group_view(*token);
            }
            parse_unit_body(tokens)?
        },
        _ => {
            proof {
                if token.kind is Group {
                    lemma_group_view(*token);
                }
            }
            let expected = if return_type.is_some() {
                Expected::Body
            } else if params.is_some() {
                Expected::ArrowOrBody
            } else {
                Expected::ParamsArrowOrBody
            };
            return Err(ParseError::UnexpectedToken { expected, found: token.duplicate() });
        },
    };
    Ok(TransUnit { name, params, return_type, body })
}

/// Reads the regions of a language from the stream of its block: at least
/// one, with commas between them.
fn parse_regions(tokens: &Vec<Token>) -> (r: Result<Vec<Ident>, ParseError>)
    ensures
        match r {
            Ok(regions) => regions_from(tokens_view(tokens@), Seq::empty()) == Ok::<
                Seq<IdentView>,
                ParseErrorView,
            >(views(regions@)),
            Err(e) => regions_from(tokens_view(tokens@), Seq::empty()) == Err::<
                Seq<IdentView>,
                ParseErrorView,
            >(e@),
        },
{
    let mut iter = Cursor::new(tokens);
    let mut regions: Vec<Ident> = Vec::new();
    let ghost want = regions_from(tokens_view(tokens@), Seq::empty());
    proof {
        assert(views(regions@) =~= Seq::<IdentView>::empty());
    }
    loop
        invariant_except_break
            want == regions_from(iter.remaining(), views(regions@)),
        invariant
            want == regions_from(tokens_view(tokens@), Seq::empty()),
        ensures
            want == Ok::<Seq<IdentView>, ParseErrorView>(views(regions@)),
        decreases iter.remaining().len(),
    {
        let region = iter.eat_term()?;
        let ghost before = regions@;
        regions.push(region);
        proof {
            lemma_views_push(before, regions@[before.len() as int]);
        }
        if iter.is_exhausted() {
            break ;
        }
        iter.eat_op_if(',')?;
        if iter.is_exhausted() {
            break ;
        }
    }
    Ok(regions)
}

/// Reads one language of the locale definition.
pub fn parse_locale_variant(iter: &mut Cursor) -> (r: Result<LocaleLang, ParseError>)
    ensures
        parsed_as(r, final(iter).remaining(), locale_variant_spec(old(iter).remaining())),
{
    let name = iter.eat_term()?;
    let body = match iter.peek_curr() {
        Ok(next) => match &next.kind {
            TokenKind::Group(Delimiter::Brace, tokens) => {
                proof {
                    lemma_group_view(*next);
                }
                Some(tokens)
            },
            _ => {
                proof {
                    if next.kind is Group {
                        lemma_group_view(*next);
                    }
                }
                None
            },
        },
        Err(_) => None,
    };
    match body {
        Some(tokens) => {
            let regions = parse_regions(tokens)?;
            iter.bump();
            Ok(LocaleLang { name, regions })
        },
        None => {
            let regions: Vec<Ident> = Vec::new();
            proof {
                assert(views(regions@) =~= Seq::<IdentView>::empty());
            }
            Ok(LocaleLang { name, regions })
        },
    }
}

/// Reads the locale definition: `enum Locale` and a block of languages, at
/// least one, with commas between them.
pub fn parse_locale_def(iter: &mut Cursor) -> (r: Result<LocaleDef, ParseError>)
    ensures
        parsed_as(r, final(iter).remaining(), locale_def_spec(old(iter).remaining())),
{
    let ghost goal = locale_def_spec(iter.remaining());
    iter.eat_keyword("enum")?;
    iter.eat_keyword("Locale")?;
    let body = iter.eat_group_delimited_by(Delimiter::Brace)?;
    let mut body_iter = Cursor::new(body.tokens);
    let mut langs: Vec<LocaleLang> = Vec::new();
    let ghost want = langs_from(body@.tokens, Seq::empty());
    proof {
        assert(views(langs@) =~= Seq::<LocaleLangView>::empty());
    }
    loop
        invariant_except_break
            want == langs_from(body_iter.remaining(), views(langs@)),
        invariant
            want == langs_from(body@.tokens, Seq::empty()),
            goal == locale_def_spec(old(iter).remaining()),
            goal == (match want {
                Err(e) => Err::<(LocaleDefView, Seq<TokenView>), ParseErrorView>(e),
                Ok(langs) => Ok((LocaleDefView { langs }, iter.remaining())),
            }),
        ensures
            want == Ok::<Seq<LocaleLangView>, ParseErrorView>(views(langs@)),
            goal == (match want {
                Err(e) => Err::<(LocaleDefView, Seq<TokenView>), ParseErrorView>(e),
                Ok(langs) => Ok((LocaleDefView { langs }, iter.remaining())),
            }),
        decreases body_iter.remaining().len(),
    {
        proof {
            lemma_locale_variant_consumes(body_iter.remaining());
        }
        let lang = parse_locale_variant(&mut body_iter)?;
        let ghost before = langs@;
        langs.push(lang);
        proof {
            lemma_views_push(before, langs@[before.len() as int]);
        }
        if body_iter.is_exhausted() {
            break ;
        }
        body_iter.eat_op_if(',')?;
        if body_iter.is_exhausted() {
            break ;
        }
    }
    Ok(LocaleDef { langs })
}

/// The model of the modules and units read so far.
pub open spec fn items_view(modules: Seq<Mod>, trans_units: Seq<TransUnit>) -> ItemsView {
    ItemsView { modules: views(modules), trans_units: views(trans_units) }
}

/// Reads the declaration of a module and, from the source that `sources`
/// has for it, the module itself; the word `mod` was read already.
pub fn parse_module(iter: &mut Cursor, sources: &ModuleSources) -> (r: Result<Mod, ParseError>)
    ensures
        match mod_decl_spec(old(iter).remaining()) {
            Err(e) => r matches Err(found) && found@ == e,
            Ok((name, rest)) => match r {
                Ok(module) => module_spec(name, *sources) == Ok::<ModView, ParseErrorView>(module@)
                    && final(iter).remaining() == rest,
                Err(e) => module_spec(name, *sources) == Err::<ModView, ParseErrorView>(e@),
            },
        },
    decreases *sources, 0nat,
{
    let name = iter.eat_term()?;
    iter.eat_op_if(';')?;
    let index = match sources.find(name.as_str()) {
        Some(index) => index,
        None => {
            return Err(ParseError::ModuleNotFound { name: name.name.clone(), span: name.span() });
        },
    };
    match &sources.entries[index].resolution {
        Resolution::NotFound => Err(
            ParseError::ModuleNotFound { name: name.name.clone(), span: name.span() },
        ),
        Resolution::Ambiguous => Err(
            ParseError::AmbiguousModule { name: name.name.clone(), span: name.span() },
        ),
        Resolution::Unreadable(reason) => Err(
            ParseError::UnreadableModule {
                name: name.name.clone(),
                span: name.span(),
                reason: reason.clone(),
            },
        ),
        Resolution::Found(file) => {
            let mut file_iter = Cursor::new(&file.tokens);
            let (modules, trans_units) = parse_items(&mut file_iter, &file.sources)?;
            let module = Mod { name, modules, trans_units };
            proof {
                lemma_mod_view(module);
            }
            Ok(module)
        },
    }
}

/// Reads the items of one source, to its end: its modules and its units,
/// each in the order they were written.
pub fn parse_items(iter: &mut Cursor, sources: &ModuleSources) -> (r: Result<
    (Vec<Mod>, Vec<TransUnit>),
    ParseError,
>)
    ensures
        match r {
            Ok((modules, trans_units)) => items_from(old(iter).remaining(), *sources, no_items())
                == Ok::<ItemsView, ParseErrorView>(items_view(modules@, trans_units@)),
            Err(e) => items_from(old(iter).remaining(), *sources, no_items()) == Err::<
                ItemsView,
                ParseErrorView,
            >(e@),
        },
    decreases *sources, 1nat,
{
    let mut trans_units: Vec<TransUnit> = Vec::new();
    let mut modules: Vec<Mod> = Vec::new();
    let ghost want = items_from(iter.remaining(), *sources, no_items());
    proof {
        assert(views(modules@) =~= Seq::<ModView>::empty());
        assert(views(trans_units@) =~= Seq::<TransUnitView>::empty());
    }
    while !iter.is_exhausted()
        invariant
            want == items_from(old(iter).remaining(), *sources, no_items()),
            want == items_from(iter.remaining(), *sources, items_view(modules@, trans_units@)),
        decreases iter.remaining().len(),
    {
        let ghost s = iter.remaining();
        let item_kind = iter.eat_term()?;
        proof {
            lemma_trans_unit_consumes(iter.remaining());
        }
        if str_eq(item_kind.as_str(), "unit") {
            let unit = parse_trans_unit(iter)?;
            let ghost before = trans_units@;
            trans_units.push(unit);
            proof {
                lemma_views_push(before, trans_units@[before.len() as int]);
            }
        } else if str_eq(item_kind.as_str(), "mod") {
            let module = parse_module(iter, sources)?;
            let ghost before = modules@;
            modules.push(module);
            proof {
                lemma_views_push(before, modules@[before.len() as int]);
            }
        } else {
            return Err(
                ParseError::UnknownItemKeyword {
                    keyword: item_kind.name.clone(),
                    span: item_kind.span(),
                },
            );
        }
    }
    Ok((modules, trans_units))
}

/// Parses a dictionary description. `sources` holds the sources of the
/// modules that the description may declare.
pub fn parse(input: &Vec<Token>, sources: &ModuleSources) -> (r: Result<Dict, ParseError>)
    ensures
        match r {
            Ok(dict) => dict_spec(tokens_view(input@), *sources) == Ok::<DictView, ParseErrorView>(
                dict@,
            ),
            Err(e) => dict_spec(tokens_view(input@), *sources) == Err::<DictView, ParseErrorView>(
                e@,
            ),
        },
{
    let mut iter = Cursor::new(input);
    let locale_def = parse_locale_def(&mut iter)?;
    let (modules, trans_units) = parse_items(&mut iter, sources)?;
    Ok(Dict { locale_def, modules, trans_units })
}

} // verus!
