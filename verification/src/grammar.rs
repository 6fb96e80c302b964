//! The grammar of a dictionary description, as functions on sequences of
//! tokens.
//!
//! ```text
//! Dict        := LocaleBlock Item*
//! LocaleBlock := 'enum' 'Locale' '{' LangDecl (',' LangDecl)* ','? '}'
//! LangDecl    := Identifier ( '{' Identifier (',' Identifier)* ','? '}' )?
//! Item        := 'unit' UnitDecl | 'mod' Identifier ';'
//! UnitDecl    := Identifier ParamList? ReturnType? '{' Arm* '}'
//! ParamList   := '(' (Param (',' Param)* ','?)? ')'
//! Param       := Identifier ':' Type
//! ReturnType  := '->' Type
//! Arm         := Pattern '=>' Body ','?
//! Pattern     := '_' | Identifier | Identifier '(' Identifier ')'
//! Body        := StringLiteral | '{' ... '}'
//! ```
//!
//! A `Type` is every token up to the next comma or block. The comma after
//! an arm may be left out after a block, and after the last arm. Languages,
//! regions and parameters are separated by commas; as in the host language,
//! one more comma may follow the last of them. A locale definition declares
//! at least one language, and a block of regions holds at least one.
//!
//! Each function gives the value read and the tokens left, or the error. The
//! parser is proved to compute these functions.
use vstd::prelude::*;
use crate::ast::{
    lemma_first_index, ArmBodyView, ArmPatternView, DictView, IdentView, LocaleDefView,
    LocaleLangView, ModView, TransUnitView, UnitArmView, UnitParamView,
};
use crate::cursor::{
    group_delimited_by_spec, keyword_spec, literal_spec, next_spec, op_if_spec, term_spec,
    unexpected, Parsed,
};
use crate::error::{ExpectedView, ParseErrorView};
use crate::sources::{declared_spec, term_text, ModuleSources, Resolution};
use crate::token::{tokens_view, Delimiter, Spacing, Span, TokenKindView, TokenView};

verus! {

/// Whether the token is the operator glyph `op`.
pub open spec fn is_op(token: TokenView, op: char) -> bool {
    token.kind matches TokenKindView::Op(glyph, _) && glyph == op
}

/// Whether the token is a group with the brackets `delimiter`.
pub open spec fn is_group_with(token: TokenView, delimiter: Delimiter) -> bool {
    token.kind matches TokenKindView::Group(d, _) && d == delimiter
}

/// The tokens without a comma at their head.
pub open spec fn skip_comma(s: Seq<TokenView>) -> Seq<TokenView> {
    if s.len() > 0 && is_op(s[0], ',') {
        s.drop_first()
    } else {
        s
    }
}

/// Whether a type ends before the token: at a comma or at a block.
pub open spec fn ends_type(token: TokenView) -> bool {
    is_op(token, ',') || is_group_with(token, Delimiter::Brace)
}

/// How many tokens at the head of `s` belong to a type.
pub open spec fn type_len(s: Seq<TokenView>) -> int
    decreases s.len(),
{
    if s.len() == 0 || ends_type(s[0]) {
        0
    } else {
        1 + type_len(s.drop_first())
    }
}

/// A type is a part of the stream.
pub proof fn lemma_type_len(s: Seq<TokenView>)
    ensures
        0 <= type_len(s) <= s.len(),
        type_len(s) < s.len() ==> ends_type(s[type_len(s)]),
        forall|i: int| 0 <= i < type_len(s) ==> !ends_type(#[trigger] s[i]),
    decreases s.len(),
{
    if s.len() > 0 && !ends_type(s[0]) {
        let rest = s.drop_first();
        lemma_type_len(rest);
        assert forall|i: int| 0 <= i < type_len(s) implies !ends_type(#[trigger] s[i]) by {
            if i > 0 {
                assert(s[i] == rest[i - 1]);
            }
        }
    }
}

/// A type: every token up to the next comma or block. It never fails.
pub open spec fn type_spec(s: Seq<TokenView>) -> (Seq<TokenView>, Seq<TokenView>) {
    (s.take(type_len(s)), s.skip(type_len(s)))
}

/// The parameters in a parameter list, after `acc`.
pub open spec fn params_from(s: Seq<TokenView>, acc: Seq<UnitParamView>) -> Result<
    Seq<UnitParamView>,
    ParseErrorView,
>
    decreases s.len(),
{
    if s.len() == 0 {
        Ok(acc)
    } else {
        match term_spec(s) {
            Err(e) => Err(e),
            Ok((name, after_name)) => match op_if_spec(after_name, ':') {
                Err(e) => Err(e),
                Ok((_, after_colon)) => {
                    let (ty, after_ty) = type_spec(after_colon);
                    let acc = acc.push(UnitParamView { name, ty });
                    if after_ty.len() == 0 {
                        Ok(acc)
                    } else {
                        match op_if_spec(after_ty, ',') {
                            Err(e) => Err(e),
                            Ok((_, rest)) => {
                                proof {
                                    lemma_type_len(after_colon);
                                }
                                params_from(rest, acc)
                            },
                        }
                    }
                },
            },
        }
    }
}

/// A pattern: `_`, a name, or a name with one more name in parentheses.
pub open spec fn pattern_spec(s: Seq<TokenView>) -> Parsed<ArmPatternView> {
    match op_if_spec(s, '_') {
        Ok(((_, span), rest)) => Ok((ArmPatternView::Underscore(span), rest)),
        Err(_) => match term_spec(s) {
            Err(e) => Err(e),
            Ok((lang, rest)) => if rest.len() == 0 {
                Err(ParseErrorView::EndOfInput)
            } else if !(rest[0].kind is Group) {
                Ok((ArmPatternView::Lang(lang), rest))
            } else {
                match group_delimited_by_spec(rest, Delimiter::Parenthesis) {
                    Err(e) => Err(e),
                    Ok((group, rest)) => match term_spec(group.tokens) {
                        Err(e) => Err(e),
                        Ok((region, inner)) => if inner.len() > 0 {
                            Err(unexpected(ExpectedView::EndOfGroup, inner[0]))
                        } else {
                            Ok((ArmPatternView::WithRegion { lang, region }, rest))
                        },
                    },
                }
            },
        },
    }
}

/// The body of an arm, with its place: a block of raw code, or a string
/// literal.
pub open spec fn body_spec(s: Seq<TokenView>) -> Parsed<(ArmBodyView, Span)> {
    if s.len() == 0 {
        Err(ParseErrorView::EndOfInput)
    } else if s[0].kind is Group {
        match group_delimited_by_spec(s, Delimiter::Brace) {
            Err(e) => Err(e),
            Ok((group, rest)) => Ok(((ArmBodyView::Raw(group.tokens), group.span), rest)),
        }
    } else {
        match literal_spec(s) {
            Err(e) => Err(e),
            Ok((lit, rest)) => match lit.string {
                Some(text) => Ok(((ArmBodyView::Str(text), lit.span), rest)),
                None => Err(unexpected(ExpectedView::StringLiteral, s[0])),
            },
        }
    }
}

/// The two glyphs `=>`.
pub open spec fn fat_arrow_spec(s: Seq<TokenView>) -> Parsed<()> {
    match op_if_spec(s, '=') {
        Err(e) => Err(e),
        Ok(((spacing, _), rest)) => if spacing == Spacing::Alone {
            Err(unexpected(ExpectedView::FatArrow, s[0]))
        } else {
            match op_if_spec(rest, '>') {
                Err(e) => Err(e),
                Ok((_, rest)) => Ok(((), rest)),
            }
        },
    }
}

/// One arm with the comma that follows it. The comma may be left out after
/// a block and at the end of the stream.
pub open spec fn arm_spec(s: Seq<TokenView>) -> Parsed<UnitArmView> {
    match pattern_spec(s) {
        Err(e) => Err(e),
        Ok((pattern, rest)) => match fat_arrow_spec(rest) {
            Err(e) => Err(e),
            Ok((_, rest)) => match body_spec(rest) {
                Err(e) => Err(e),
                Ok(((body, body_span), rest)) => {
                    let arm = UnitArmView { pattern, body, body_span };
                    if rest.len() == 0 {
                        Ok((arm, rest))
                    } else if body is Raw {
                        Ok((arm, skip_comma(rest)))
                    } else {
                        match op_if_spec(rest, ',') {
                            Err(e) => Err(e),
                            Ok((_, rest)) => Ok((arm, rest)),
                        }
                    }
                },
            },
        },
    }
}

/// A pattern takes at least one token.
pub proof fn lemma_pattern_consumes(s: Seq<TokenView>)
    ensures
        pattern_spec(s) matches Ok((_, rest)) ==> rest.len() < s.len(),
{
}

/// An arm takes at least one token.
pub proof fn lemma_arm_consumes(s: Seq<TokenView>)
    ensures
        arm_spec(s) matches Ok((_, rest)) ==> rest.len() < s.len(),
{
    lemma_pattern_consumes(s);
}

/// The arms in the block of a unit, after `acc`.
pub open spec fn arms_from(s: Seq<TokenView>, acc: Seq<UnitArmView>) -> Result<
    Seq<UnitArmView>,
    ParseErrorView,
>
    decreases s.len(),
{
    if s.len() == 0 {
        Ok(acc)
    } else {
        match arm_spec(s) {
            Err(e) => Err(e),
            Ok((arm, rest)) => {
                proof {
                    lemma_arm_consumes(s);
                }
                arms_from(rest, acc.push(arm))
            },
        }
    }
}

/// An optional parameter list.
pub open spec fn opt_params_spec(s: Seq<TokenView>) -> Parsed<Option<Seq<UnitParamView>>> {
    if s.len() == 0 {
        Err(ParseErrorView::EndOfInput)
    } else if is_group_with(s[0], Delimiter::Parenthesis) {
        match params_from(s[0].kind->Group_1, Seq::empty()) {
            Err(e) => Err(e),
            Ok(params) => Ok((Some(params), s.drop_first())),
        }
    } else {
        Ok((None, s))
    }
}

/// An optional return type: `->` and a type.
pub open spec fn opt_return_type_spec(s: Seq<TokenView>) -> Parsed<Option<Seq<TokenView>>> {
    if s.len() == 0 {
        Err(ParseErrorView::EndOfInput)
    } else {
        match s[0].kind {
            TokenKindView::Op(glyph, spacing) if glyph == '-' => if spacing == Spacing::Alone {
                Err(unexpected(ExpectedView::Arrow, s[0]))
            } else {
                match op_if_spec(s.drop_first(), '>') {
                    Err(e) => Err(e),
                    Ok((_, rest)) => {
                        let (ty, rest) = type_spec(rest);
                        Ok((Some(ty), rest))
                    },
                }
            },
            _ => Ok((None, s)),
        }
    }
}

/// What the parser looks for where the block of a unit should stand.
pub open spec fn expected_body(has_params: bool, has_return_type: bool) -> ExpectedView {
    if has_return_type {
        ExpectedView::Body
    } else if has_params {
        ExpectedView::ArrowOrBody
    } else {
        ExpectedView::ParamsArrowOrBody
    }
}

/// A translation unit, after the word `unit`.
pub open spec fn trans_unit_spec(s: Seq<TokenView>) -> Parsed<TransUnitView> {
    match term_spec(s) {
        Err(e) => Err(e),
        Ok((name, rest)) => match opt_params_spec(rest) {
            Err(e) => Err(e),
            Ok((params, rest)) => match opt_return_type_spec(rest) {
                Err(e) => Err(e),
                Ok((return_type, rest)) => match next_spec(rest) {
                    Err(e) => Err(e),
                    Ok((token, rest)) => if is_group_with(token, Delimiter::Brace) {
                        match arms_from(token.kind->Group_1, Seq::empty()) {
                            Err(e) => Err(e),
                            Ok(arms) => Ok((TransUnitView { name, params, return_type, arms }, rest)),
                        }
                    } else {
                        Err(
                            unexpected(
                                expected_body(params is Some, return_type is Some),
                                token,
                            ),
                        )
                    },
                },
            },
        },
    }
}

/// A translation unit takes at least one token.
pub proof fn lemma_trans_unit_consumes(s: Seq<TokenView>)
    ensures
        trans_unit_spec(s) matches Ok((_, rest)) ==> rest.len() < s.len(),
{
    match term_spec(s) {
        Ok((_, rest)) => match opt_params_spec(rest) {
            Ok((_, rest)) => {
                if rest.len() > 0 {
                    lemma_type_len(rest.drop_first().drop_first());
                }
            },
            Err(_) => {},
        },
        Err(_) => {},
    }
}

/// The region names in the block of a language, after `acc`: at least one,
/// with commas between them.
pub open spec fn regions_from(s: Seq<TokenView>, acc: Seq<IdentView>) -> Result<
    Seq<IdentView>,
    ParseErrorView,
>
    decreases s.len(),
{
    match term_spec(s) {
        Err(e) => Err(e),
        Ok((region, rest)) => if rest.len() == 0 {
            Ok(acc.push(region))
        } else {
            match op_if_spec(rest, ',') {
                Err(e) => Err(e),
                Ok((_, rest)) => if rest.len() == 0 {
                    Ok(acc.push(region))
                } else {
                    regions_from(rest, acc.push(region))
                },
            }
        },
    }
}

/// One language of the locale definition: a name and, in a block, its
/// regions.
pub open spec fn locale_variant_spec(s: Seq<TokenView>) -> Parsed<LocaleLangView> {
    match term_spec(s) {
        Err(e) => Err(e),
        Ok((name, rest)) => if rest.len() > 0 && is_group_with(rest[0], Delimiter::Brace) {
            match regions_from(rest[0].kind->Group_1, Seq::empty()) {
                Err(e) => Err(e),
                Ok(regions) => Ok((LocaleLangView { name, regions }, rest.drop_first())),
            }
        } else {
            Ok((LocaleLangView { name, regions: Seq::empty() }, rest))
        },
    }
}

/// A language takes at least one token.
pub proof fn lemma_locale_variant_consumes(s: Seq<TokenView>)
    ensures
        locale_variant_spec(s) matches Ok((_, rest)) ==> rest.len() < s.len(),
{
}

/// The languages in the block of the locale definition, after `acc`: at
/// least one, with commas between them.
pub open spec fn langs_from(s: Seq<TokenView>, acc: Seq<LocaleLangView>) -> Result<
    Seq<LocaleLangView>,
    ParseErrorView,
>
    decreases s.len(),
{
    match locale_variant_spec(s) {
        Err(e) => Err(e),
        Ok((lang, rest)) => if rest.len() == 0 {
            Ok(acc.push(lang))
        } else {
            match op_if_spec(rest, ',') {
                Err(e) => Err(e),
                Ok((_, after)) => if after.len() == 0 {
                    Ok(acc.push(lang))
                } else {
                    proof {
                        lemma_locale_variant_consumes(s);
                    }
                    langs_from(after, acc.push(lang))
                },
            }
        },
    }
}

/// The locale definition: `enum Locale` and a block of languages.
pub open spec fn locale_def_spec(s: Seq<TokenView>) -> Parsed<LocaleDefView> {
    match keyword_spec(s, "enum"@) {
        Err(e) => Err(e),
        Ok((_, rest)) => match keyword_spec(rest, "Locale"@) {
            Err(e) => Err(e),
            Ok((_, rest)) => match group_delimited_by_spec(rest, Delimiter::Brace) {
                Err(e) => Err(e),
                Ok((body, rest)) => match langs_from(body.tokens, Seq::empty()) {
                    Err(e) => Err(e),
                    Ok(langs) => Ok((LocaleDefView { langs }, rest)),
                },
            },
        },
    }
}

/// The modules and the units of one source, in the order they were
/// written.
pub struct ItemsView {
    pub modules: Seq<ModView>,
    pub trans_units: Seq<TransUnitView>,
}

/// No items yet.
pub open spec fn no_items() -> ItemsView {
    ItemsView { modules: Seq::empty(), trans_units: Seq::empty() }
}

/// The declaration of a module, after the word `mod`: a name and `;`.
pub open spec fn mod_decl_spec(s: Seq<TokenView>) -> Parsed<IdentView> {
    match term_spec(s) {
        Err(e) => Err(e),
        Ok((name, rest)) => match op_if_spec(rest, ';') {
            Err(e) => Err(e),
            Ok((_, rest)) => Ok((name, rest)),
        },
    }
}

/// The module named `name`: the items of the source that `sources` has for
/// it.
pub open spec fn module_spec(name: IdentView, sources: ModuleSources) -> Result<
    ModView,
    ParseErrorView,
>
    decreases sources, 0nat, 0nat,
{
    match sources.position(name.name) {
        None => Err(ParseErrorView::ModuleNotFound { name: name.name, span: name.span }),
        Some(i) => match sources.entries@[i].resolution {
            Resolution::NotFound => Err(
                ParseErrorView::ModuleNotFound { name: name.name, span: name.span },
            ),
            Resolution::Ambiguous => Err(
                ParseErrorView::AmbiguousModule { name: name.name, span: name.span },
            ),
            Resolution::Unreadable(reason) => Err(
                ParseErrorView::UnreadableModule {
                    name: name.name,
                    span: name.span,
                    reason: reason@,
                },
            ),
            Resolution::Found(file) => {
                proof {
                    lemma_first_index(sources.names(), name.name);
                }
                match items_from(tokens_view(file.tokens@), file.sources, no_items()) {
                    Err(e) => Err(e),
                    Ok(items) => Ok(
                        ModView { name, modules: items.modules, trans_units: items.trans_units },
                    ),
                }
            },
        },
    }
}

/// The items of a source, after `acc`. Each item starts with `unit` or
/// `mod`; the source of a module is looked up in `sources`.
pub open spec fn items_from(s: Seq<TokenView>, sources: ModuleSources, acc: ItemsView) -> Result<
    ItemsView,
    ParseErrorView,
>
    decreases sources, 1nat, s.len(),
{
    if s.len() == 0 {
        Ok(acc)
    } else {
        match term_spec(s) {
            Err(e) => Err(e),
            Ok((keyword, rest)) => if keyword.name == "unit"@ {
                match trans_unit_spec(rest) {
                    Err(e) => Err(e),
                    Ok((unit, after)) => {
                        proof {
                            lemma_trans_unit_consumes(rest);
                        }
                        items_from(
                            after,
                            sources,
                            ItemsView { trans_units: acc.trans_units.push(unit), ..acc },
                        )
                    },
                }
            } else if keyword.name == "mod"@ {
                match mod_decl_spec(rest) {
                    Err(e) => Err(e),
                    Ok((name, rest)) => match module_spec(name, sources) {
                        Err(e) => Err(e),
                        Ok(module) => items_from(
                            rest,
                            sources,
                            ItemsView { modules: acc.modules.push(module), ..acc },
                        ),
                    },
                }
            } else {
                Err(
                    ParseErrorView::UnknownItemKeyword { keyword: keyword.name, span: keyword.span },
                )
            },
        }
    }
}

/// A whole dictionary: the locale definition, then the items.
pub open spec fn dict_spec(s: Seq<TokenView>, sources: ModuleSources) -> Result<
    DictView,
    ParseErrorView,
> {
    match locale_def_spec(s) {
        Err(e) => Err(e),
        Ok((locale_def, rest)) => match items_from(rest, sources, no_items()) {
            Err(e) => Err(e),
            Ok(items) => Ok(
                DictView { locale_def, modules: items.modules, trans_units: items.trans_units },
            ),
        },
    }
}

/// The names of the modules whose declarations the grammar reads in the
/// items `s`, in order, up to the end of the stream or to the first item
/// that is malformed.
pub open spec fn declarations(s: Seq<TokenView>) -> Seq<Seq<char>>
    decreases s.len(),
{
    if s.len() == 0 {
        Seq::empty()
    } else {
        match term_spec(s) {
            Err(_) => Seq::empty(),
            Ok((keyword, rest)) => if keyword.name == "unit"@ {
                match trans_unit_spec(rest) {
                    Err(_) => Seq::empty(),
                    Ok((_, after)) => {
                        proof {
                            lemma_trans_unit_consumes(rest);
                        }
                        declarations(after)
                    },
                }
            } else if keyword.name == "mod"@ {
                match mod_decl_spec(rest) {
                    Err(_) => Seq::empty(),
                    Ok((name, after)) => seq![name.name] + declarations(after),
                }
            } else {
                Seq::empty()
            },
        }
    }
}

/// The names of modules, in order.
pub open spec fn module_names(modules: Seq<ModView>) -> Seq<Seq<char>> {
    Seq::new(modules.len(), |i: int| modules[i].name.name)
}

/// The modules among the items that the grammar reads are those whose
/// declarations it reads.
pub proof fn lemma_modules_are_declarations(
    s: Seq<TokenView>,
    sources: ModuleSources,
    acc: ItemsView,
)
    ensures
        items_from(s, sources, acc) matches Ok(items) ==> module_names(items.modules)
            == module_names(acc.modules) + declarations(s),
    decreases s.len(),
{
    if s.len() == 0 {
        assert(module_names(acc.modules) + declarations(s) =~= module_names(acc.modules));
    } else {
        match term_spec(s) {
            Ok((keyword, rest)) => {
                if keyword.name == "unit"@ {
                    match trans_unit_spec(rest) {
                        Ok((unit, after)) => {
                            lemma_trans_unit_consumes(rest);
                            lemma_modules_are_declarations(
                                after,
                                sources,
                                ItemsView { trans_units: acc.trans_units.push(unit), ..acc },
                            );
                        },
                        Err(_) => {},
                    }
                } else if keyword.name == "mod"@ {
                    match mod_decl_spec(rest) {
                        Ok((name, after)) => match module_spec(name, sources) {
                            Ok(module) => {
                                let next = ItemsView { modules: acc.modules.push(module), ..acc };
                                lemma_modules_are_declarations(after, sources, next);
                                lemma_first_index(sources.names(), name.name);
                                assert(module.name == name);
                                assert(module_names(next.modules) =~= module_names(acc.modules)
                                    + seq![name.name]);
                                assert(module_names(acc.modules) + seq![name.name] + declarations(
                                    after,
                                ) =~= module_names(acc.modules) + (seq![name.name] + declarations(
                                    after,
                                )));
                            },
                            Err(_) => {},
                        },
                        Err(_) => {},
                    }
                }
            },
            Err(_) => {},
        }
    }
}

/// Whether the token is the word `mod`.
pub open spec fn is_mod_word(token: TokenView) -> bool {
    term_text(token) == Some("mod"@)
}

/// The names after `mod` in two streams, one after the other, are those of
/// the first and those of the second, unless the first ends with the word
/// `mod`.
pub proof fn lemma_declared_split(a: Seq<TokenView>, b: Seq<TokenView>)
    requires
        a.len() == 0 || !is_mod_word(a.last()),
    ensures
        declared_spec(a + b) == declared_spec(a) + declared_spec(b),
    decreases a.len(),
{
    let s = a + b;
    if a.len() == 0 {
        assert(s =~= b);
        assert(declared_spec(a) + declared_spec(b) =~= declared_spec(b));
    } else if a.len() == 1 {
        assert(s[0] == a[0]);
        assert(s.drop_first() =~= b);
        assert(declared_spec(a) + declared_spec(b) =~= declared_spec(b));
    } else {
        assert(s[0] == a[0]);
        assert(s[1] == a[1]);
        if is_mod_word(a[0]) && term_text(a[1]) is Some {
            let tail = a.skip(2);
            assert(s.skip(2) =~= tail + b);
            if tail.len() > 0 {
                assert(tail.last() == a.last());
            }
            lemma_declared_split(tail, b);
            assert(seq![term_text(a[1])->0] + (declared_spec(tail) + declared_spec(b)) =~= seq![
                term_text(a[1])->0,
            ] + declared_spec(tail) + declared_spec(b));
        } else {
            let tail = a.drop_first();
            assert(s.drop_first() =~= tail + b);
            assert(tail.last() == a.last());
            lemma_declared_split(tail, b);
        }
    }
}

/// What a unit leaves is the end of the stream it was read from, and the
/// last token that it takes is its block.
pub proof fn lemma_trans_unit_ends_with_block(s: Seq<TokenView>)
    ensures
        trans_unit_spec(s) matches Ok((_, after)) ==> {
            let n = s.len() - after.len();
            &&& 0 < n <= s.len()
            &&& after == s.skip(n)
            &&& s[n - 1].kind is Group
        },
{
    match term_spec(s) {
        Ok((_, r1)) => {
            assert(r1 =~= s.skip(1));
            match opt_params_spec(r1) {
                Ok((_, r2)) => {
                    let k2 = s.len() - r2.len();
                    assert(r2 =~= s.skip(k2));
                    if r2.len() > 0 {
                        lemma_type_len(r2.drop_first().drop_first());
                    }
                    match opt_return_type_spec(r2) {
                        Ok((_, r3)) => {
                            let k3 = s.len() - r3.len();
                            assert(r3 =~= s.skip(k3));
                            match next_spec(r3) {
                                Ok((token, after)) => {
                                    assert(after =~= s.skip(k3 + 1));
                                    assert(token == s[k3]);
                                },
                                Err(_) => {},
                            }
                        },
                        Err(_) => {},
                    }
                },
                Err(_) => {},
            }
        },
        Err(_) => {},
    }
}

/// Every module declaration that the grammar reads in the items `s` is
/// among the names that follow the word `mod` in `s`.
pub proof fn lemma_declarations_are_declared(s: Seq<TokenView>)
    ensures
        forall|i: int|
            0 <= i < declarations(s).len() ==> declared_spec(s).contains(
                #[trigger] declarations(s)[i],
            ),
    decreases s.len(),
{
    if s.len() > 0 {
        match term_spec(s) {
            Ok((keyword, rest)) => {
                assert(rest =~= s.skip(1));
                if keyword.name == "unit"@ {
                    match trans_unit_spec(rest) {
                        Ok((_, after)) => {
                            lemma_trans_unit_consumes(rest);
                            lemma_trans_unit_ends_with_block(rest);
                            let n = s.len() - after.len();
                            let item = s.take(n);
                            assert(after =~= s.skip(n));
                            assert(item + after =~= s);
                            assert(item.last() == rest[n - 2]);
                            lemma_declared_split(item, after);
                            lemma_declarations_are_declared(after);
                            let found = declared_spec(item);
                            assert forall|i: int| 0 <= i < declarations(s).len() implies declared_spec(
                                s,
                            ).contains(#[trigger] declarations(s)[i]) by {
                                let name = declarations(after)[i];
                                let j = choose|j: int|
                                    0 <= j < declared_spec(after).len() && declared_spec(after)[j]
                                        == name;
                                assert(declared_spec(s)[found.len() + j] == name);
                            }
                        },
                        Err(_) => {},
                    }
                } else if keyword.name == "mod"@ {
                    match mod_decl_spec(rest) {
                        Ok((name, after)) => {
                            let item = s.take(3);
                            assert(after =~= s.skip(3));
                            assert(item + after =~= s);
                            lemma_declared_split(item, after);
                            lemma_declarations_are_declared(after);
                            assert(item.skip(2).len() == 1);
                            assert(declared_spec(item.skip(2)) =~= Seq::<Seq<char>>::empty());
                            assert(declared_spec(item) =~= seq![name.name]);
                            assert forall|i: int| 0 <= i < declarations(s).len() implies declared_spec(
                                s,
                            ).contains(#[trigger] declarations(s)[i]) by {
                                if i == 0 {
                                    assert(declared_spec(s)[0] == name.name);
                                } else {
                                    let wanted = declarations(after)[i - 1];
                                    let j = choose|j: int|
                                        0 <= j < declared_spec(after).len() && declared_spec(
                                            after,
                                        )[j] == wanted;
                                    assert(declared_spec(s)[1 + j] == wanted);
                                }
                            }
                        },
                        Err(_) => {},
                    }
                }
            },
            Err(_) => {},
        }
    }
}

/// A resolver that looks for every name after the word `mod` looks for
/// every module that the grammar will ask for.
///
/// `head` is what stands before the items in a source: nothing, or the
/// locale definition. It must not end with the word `mod`.
pub proof fn theorem_declared_covers_declarations(head: Seq<TokenView>, items: Seq<TokenView>)
    requires
        head.len() == 0 || !is_mod_word(head.last()),
    ensures
        forall|i: int|
            0 <= i < declarations(items).len() ==> declared_spec(head + items).contains(
                #[trigger] declarations(items)[i],
            ),
{
    lemma_declared_split(head, items);
    lemma_declarations_are_declared(items);
    let before = declared_spec(head);
    assert forall|i: int| 0 <= i < declarations(items).len() implies declared_spec(
        head + items,
    ).contains(#[trigger] declarations(items)[i]) by {
        let name = declarations(items)[i];
        let j = choose|j: int|
            0 <= j < declared_spec(items).len() && declared_spec(items)[j] == name;
        assert(declared_spec(head + items)[before.len() + j] == name);
    }
}

} // verus!
