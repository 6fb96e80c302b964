//! The syntax tree of a dictionary: the declared locales, the modules and
//! the translation units with their arms.
//!
//! Every type has a model, reached with `@`, in which strings are
//! `Seq<char>`, vectors are `Seq` and token streams are `Seq<TokenView>`.
use vstd::prelude::*;
use vstd::string::StringExecFns;
use crate::model::{lemma_views_push, str_eq, views};
use crate::token::{tokens_view, Span, Spanned, Token, TokenKind, TokenKindView, TokenView};

verus! {

/// A name, with the place it was written at. A name that the compiler made
/// up has no place.
#[derive(Debug, PartialEq, Eq)]
pub struct Ident {
    pub name: String,
    pub span: Option<Span>,
}

/// The model of an [`Ident`].
pub struct IdentView {
    pub name: Seq<char>,
    pub span: Option<Span>,
}

impl View for Ident {
    type V = IdentView;

    open spec fn view(&self) -> IdentView {
        IdentView { name: self.name@, span: self.span }
    }
}

impl Ident {
    /// The name `name`, written at `span`.
    pub fn new(name: String, span: Span) -> (ident: Self)
        ensures
            ident@ == (IdentView { name: name@, span: Some(span) }),
    {
        Ident { name, span: Some(span) }
    }

    /// A name that the compiler made up; it has no place in the source.
    pub fn internal(s: &str) -> (ident: Self)
        ensures
            ident@ == (IdentView { name: s@, span: None }),
    {
        Ident { name: String::from_str(s), span: None }
    }

    /// A name that the compiler made up for the dictionary's user to refer
    /// to; it stands where the dictionary as a whole stands.
    pub fn exported(s: &str) -> (ident: Self)
        ensures
            ident@ == (IdentView { name: s@, span: Some(Span::spec_call_site()) }),
    {
        Ident { name: String::from_str(s), span: Some(Span::call_site()) }
    }

    /// The word `s` as a token, placed where the dictionary as a whole
    /// stands.
    pub fn export(s: &str) -> (token: Token)
        ensures
            token@ == (TokenView {
                kind: TokenKindView::Term(s@),
                span: Span::spec_call_site(),
            }),
    {
        Token::term(s, Span::call_site())
    }

    /// The text of the name.
    pub fn as_str(&self) -> (s: &str)
        ensures
            s@ == self@.name,
    {
        self.name.as_str()
    }

    /// The place the name was written at, if any.
    pub fn span(&self) -> (span: Option<Span>)
        ensures
            span == self@.span,
    {
        self.span
    }

    /// A copy of the name.
    pub fn duplicate(&self) -> (copy: Self)
        ensures
            copy@ == self@,
    {
        Ident { name: self.name.clone(), span: self.span }
    }

    /// The name as a token: at its own place if it has one, else where the
    /// dictionary as a whole stands.
    pub fn into_token(&self) -> (token: Token)
        ensures
            token@ == self@.token(),
    {
        let span = match self.span {
            Some(span) => span,
            None => Span::call_site(),
        };
        Token { kind: TokenKind::Term(self.name.clone()), span }
    }
}

impl IdentView {
    /// The token that spells this name.
    pub open spec fn token(self) -> TokenView {
        TokenView {
            kind: TokenKindView::Term(self.name),
            span: match self.span {
                Some(span) => span,
                None => Span::spec_call_site(),
            },
        }
    }
}

/// A type of the host language, kept as the tokens it was written with.
#[derive(Debug, PartialEq, Eq)]
pub struct Ty(pub Vec<Token>);

impl View for Ty {
    type V = Seq<TokenView>;

    open spec fn view(&self) -> Seq<TokenView> {
        tokens_view(self.0@)
    }
}

/// One parameter of a translation unit, such as `name: &str`.
#[derive(Debug, PartialEq, Eq)]
pub struct UnitParam {
    pub name: Ident,
    pub ty: Ty,
}

/// The model of a [`UnitParam`].
pub struct UnitParamView {
    pub name: IdentView,
    pub ty: Seq<TokenView>,
}

impl View for UnitParam {
    type V = UnitParamView;

    open spec fn view(&self) -> UnitParamView {
        UnitParamView { name: self.name@, ty: self.ty@ }
    }
}

/// The pattern of one arm: `_`, `En` or `En(Gb)`.
///
/// Whether a name is a declared language or region, or a variable that the
/// arm binds, is decided against the locale definition, not here.
#[derive(Debug, PartialEq, Eq)]
pub enum ArmPattern {
    Underscore(Span),
    Lang(Ident),
    WithRegion { lang: Ident, region: Ident },
}

/// The model of an [`ArmPattern`].
pub enum ArmPatternView {
    Underscore(Span),
    Lang(IdentView),
    WithRegion { lang: IdentView, region: IdentView },
}

impl View for ArmPattern {
    type V = ArmPatternView;

    open spec fn view(&self) -> ArmPatternView {
        match *self {
            ArmPattern::Underscore(span) => ArmPatternView::Underscore(span),
            ArmPattern::Lang(lang) => ArmPatternView::Lang(lang@),
            ArmPattern::WithRegion { lang, region } => ArmPatternView::WithRegion {
                lang: lang@,
                region: region@,
            },
        }
    }
}

impl ArmPattern {
    /// Whether the pattern is `_`.
    pub fn is_underscore(&self) -> (yes: bool)
        ensures
            yes == (self@ is Underscore),
    {
        match self {
            ArmPattern::Underscore(_) => true,
            _ => false,
        }
    }

    /// The pattern as it is written: `_`, `En` or `En(Gb)`.
    pub fn to_text(&self) -> (text: String)
        ensures
            text@ == self@.text(),
    {
        match self {
            ArmPattern::Underscore(_) => String::from_str("_"),
            ArmPattern::Lang(lang) => lang.name.clone(),
            ArmPattern::WithRegion { lang, region } => {
                let mut text = lang.name.clone();
                text.append("(");
                text.append(region.as_str());
                text.append(")");
                text
            },
        }
    }

    /// A copy of the pattern.
    pub fn duplicate(&self) -> (copy: Self)
        ensures
            copy@ == self@,
    {
        match self {
            ArmPattern::Underscore(span) => ArmPattern::Underscore(*span),
            ArmPattern::Lang(lang) => ArmPattern::Lang(lang.duplicate()),
            ArmPattern::WithRegion { lang, region } => ArmPattern::WithRegion {
                lang: lang.duplicate(),
                region: region.duplicate(),
            },
        }
    }

    /// The place of the pattern: that of `_`, or that of the language name
    /// (`None` if the name was made up).
    pub fn span(&self) -> (span: Option<Span>)
        ensures
            span == self@.span(),
    {
        match self {
            ArmPattern::Underscore(span) => Some(*span),
            ArmPattern::Lang(lang) => lang.span(),
            ArmPattern::WithRegion { lang, .. } => lang.span(),
        }
    }
}

/// The text of a pattern that names a language and a region: `En(Gb)`.
pub open spec fn region_pattern_text(lang: Seq<char>, region: Seq<char>) -> Seq<char> {
    lang + "("@ + region + ")"@
}

impl ArmPatternView {
    /// The pattern as it is written: `_`, `En` or `En(Gb)`.
    pub open spec fn text(self) -> Seq<char> {
        match self {
            ArmPatternView::Underscore(_) => "_"@,
            ArmPatternView::Lang(lang) => lang.name,
            ArmPatternView::WithRegion { lang, region } => region_pattern_text(
                lang.name,
                region.name,
            ),
        }
    }

    pub open spec fn span(self) -> Option<Span> {
        match self {
            ArmPatternView::Underscore(span) => Some(span),
            ArmPatternView::Lang(lang) => lang.span,
            ArmPatternView::WithRegion { lang, .. } => lang.span,
        }
    }
}

/// The body of one arm: a string with `{placeholder}`s, or raw host code.
#[derive(Debug, PartialEq, Eq)]
pub enum ArmBody {
    Str(String),
    Raw(Vec<Token>),
}

/// The model of an [`ArmBody`].
pub enum ArmBodyView {
    Str(Seq<char>),
    Raw(Seq<TokenView>),
}

impl View for ArmBody {
    type V = ArmBodyView;

    open spec fn view(&self) -> ArmBodyView {
        match *self {
            ArmBody::Str(s) => ArmBodyView::Str(s@),
            ArmBody::Raw(ts) => ArmBodyView::Raw(tokens_view(ts@)),
        }
    }
}

impl ArmBody {
    /// Whether the body is raw host code.
    pub fn is_raw_block(&self) -> (yes: bool)
        ensures
            yes == (self@ is Raw),
    {
        match self {
            ArmBody::Raw(_) => true,
            _ => false,
        }
    }
}

/// One arm of a translation unit, such as `En(Gb) => "Hello sir"`.
#[derive(Debug, PartialEq, Eq)]
pub struct UnitArm {
    pub pattern: ArmPattern,
    pub body: Spanned<ArmBody>,
}

/// The model of a [`UnitArm`].
pub struct UnitArmView {
    pub pattern: ArmPatternView,
    pub body: ArmBodyView,
    pub body_span: Span,
}

impl View for UnitArm {
    type V = UnitArmView;

    open spec fn view(&self) -> UnitArmView {
        UnitArmView { pattern: self.pattern@, body: self.body.obj@, body_span: self.body.span }
    }
}

/// The arms of a translation unit, in the order they were written.
#[derive(Debug, PartialEq, Eq)]
pub struct UnitBody {
    pub arms: Vec<UnitArm>,
}

impl View for UnitBody {
    type V = Seq<UnitArmView>;

    open spec fn view(&self) -> Seq<UnitArmView> {
        views(self.arms@)
    }
}

/// The model of an optional parameter list.
pub open spec fn params_view(params: Option<Vec<UnitParam>>) -> Option<Seq<UnitParamView>> {
    match params {
        Some(ps) => Some(views(ps@)),
        None => None,
    }
}

/// The model of an optional type.
pub open spec fn opt_ty_view(ty: Option<Ty>) -> Option<Seq<TokenView>> {
    match ty {
        Some(ty) => Some(ty@),
        None => None,
    }
}

/// A named translation unit: a key whose value depends on the locale.
///
/// `params` is `None` where no parameter list was written. `return_type` is
/// `None` where the unit returns text.
#[derive(Debug, PartialEq, Eq)]
pub struct TransUnit {
    pub name: Ident,
    pub params: Option<Vec<UnitParam>>,
    pub return_type: Option<Ty>,
    pub body: UnitBody,
}

/// The model of a [`TransUnit`].
pub struct TransUnitView {
    pub name: IdentView,
    pub params: Option<Seq<UnitParamView>>,
    pub return_type: Option<Seq<TokenView>>,
    pub arms: Seq<UnitArmView>,
}

impl View for TransUnit {
    type V = TransUnitView;

    open spec fn view(&self) -> TransUnitView {
        TransUnitView {
            name: self.name@,
            params: params_view(self.params),
            return_type: opt_ty_view(self.return_type),
            arms: self.body@,
        }
    }
}

/// A language with its regions; a language without regions is matched
/// directly.
#[derive(Debug, PartialEq, Eq)]
pub struct LocaleLang {
    pub name: Ident,
    pub regions: Vec<Ident>,
}

/// The model of a [`LocaleLang`].
pub struct LocaleLangView {
    pub name: IdentView,
    pub regions: Seq<IdentView>,
}

impl View for LocaleLang {
    type V = LocaleLangView;

    open spec fn view(&self) -> LocaleLangView {
        LocaleLangView { name: self.name@, regions: views(self.regions@) }
    }
}

/// The first index at which `name` stands in `names`, counted from the
/// front.
pub open spec fn first_index(names: Seq<Seq<char>>, name: Seq<char>) -> Option<int>
    decreases names.len(),
{
    if names.len() == 0 {
        None
    } else {
        match first_index(names.drop_last(), name) {
            Some(i) => Some(i),
            None => if names.last() == name {
                Some(names.len() - 1)
            } else {
                None
            },
        }
    }
}

/// `first_index` finds the first occurrence and nothing else.
pub proof fn lemma_first_index(names: Seq<Seq<char>>, name: Seq<char>)
    ensures
        match first_index(names, name) {
            Some(i) => 0 <= i < names.len() && names[i] == name && forall|j: int|
                0 <= j < i ==> names[j] != name,
            None => forall|j: int| 0 <= j < names.len() ==> names[j] != name,
        },
    decreases names.len(),
{
    if names.len() > 0 {
        let front = names.drop_last();
        lemma_first_index(front, name);
        assert(forall|j: int| 0 <= j < front.len() ==> front[j] == names[j]);
        match first_index(front, name) {
            Some(i) => {
                assert(names[i] == front[i]);
            },
            None => {
                assert forall|j: int| 0 <= j < names.len() - 1 implies names[j] != name by {
                    assert(front[j] != name);
                }
            },
        }
    }
}

impl LocaleLangView {
    /// The names of the regions, in order.
    pub open spec fn region_names(self) -> Seq<Seq<char>> {
        Seq::new(self.regions.len(), |i: int| self.regions[i].name)
    }

    pub open spec fn has_regions(self) -> bool {
        self.regions.len() > 0
    }

    /// The index of the first region of that name.
    pub open spec fn region_index(self, name: Seq<char>) -> Option<int> {
        first_index(self.region_names(), name)
    }
}

impl LocaleLang {
    /// Whether the language is subdivided into regions.
    pub fn has_regions(&self) -> (yes: bool)
        ensures
            yes == self@.has_regions(),
    {
        self.regions.len() > 0
    }

    /// The index of the first region named `region_name`.
    pub fn region_index(&self, region_name: &str) -> (index: Option<usize>)
        ensures
            match index {
                Some(i) => self@.region_index(region_name@) == Some(i as int),
                None => self@.region_index(region_name@) is None,
            },
    {
        let ghost names = self@.region_names();
        let mut i: usize = 0;
        while i < self.regions.len()
            invariant
                i <= self.regions.len(),
                names == self@.region_names(),
                first_index(names.take(i as int), region_name@) is None,
            decreases self.regions.len() - i,
        {
            proof {
                assert(names.take(i + 1).drop_last() =~= names.take(i as int));
            }
            if str_eq(self.regions[i].as_str(), region_name) {
                proof {
                    lemma_first_index_extends(names, region_name@, i + 1);
                }
                return Some(i);
            }
            i += 1;
        }
        proof {
            assert(names.take(i as int) =~= names);
        }
        None
    }

    /// Whether the language has a region named `region_name`.
    pub fn contains_region(&self, region_name: &str) -> (yes: bool)
        ensures
            yes == self@.region_index(region_name@).is_some(),
    {
        self.region_index(region_name).is_some()
    }
}

/// What is found in a prefix is found in the whole sequence, at the same
/// place.
pub proof fn lemma_first_index_extends(names: Seq<Seq<char>>, name: Seq<char>, n: int)
    requires
        0 <= n <= names.len(),
        first_index(names.take(n), name) is Some,
    ensures
        first_index(names, name) == first_index(names.take(n), name),
    decreases names.len() - n,
{
    if n < names.len() {
        assert(names.take(n + 1).drop_last() =~= names.take(n));
        lemma_first_index_extends(names, name, n + 1);
    } else {
        assert(names.take(n) =~= names);
    }
}

/// The languages and regions that a dictionary supports.
#[derive(Debug, PartialEq, Eq)]
pub struct LocaleDef {
    pub langs: Vec<LocaleLang>,
}

/// The model of a [`LocaleDef`].
pub struct LocaleDefView {
    pub langs: Seq<LocaleLangView>,
}

impl View for LocaleDef {
    type V = LocaleDefView;

    open spec fn view(&self) -> LocaleDefView {
        LocaleDefView { langs: views(self.langs@) }
    }
}

impl LocaleDefView {
    /// The names of the languages, in order.
    pub open spec fn lang_names(self) -> Seq<Seq<char>> {
        Seq::new(self.langs.len(), |i: int| self.langs[i].name.name)
    }

    /// The index of the first language of that name.
    pub open spec fn lang_index(self, name: Seq<char>) -> Option<int> {
        first_index(self.lang_names(), name)
    }
}

impl LocaleDef {
    /// The name of the locale type that the generator emits.
    pub fn name(&self) -> (ident: Ident)
        ensures
            ident@ == (IdentView { name: "Locale"@, span: Some(Span::spec_call_site()) }),
    {
        Ident::exported("Locale")
    }

    /// The index of the first language named `lang_name`.
    pub fn lang_index(&self, lang_name: &str) -> (index: Option<usize>)
        ensures
            match index {
                Some(i) => self@.lang_index(lang_name@) == Some(i as int) && i < self.langs.len(),
                None => self@.lang_index(lang_name@) is None,
            },
    {
        let ghost names = self@.lang_names();
        let mut i: usize = 0;
        while i < self.langs.len()
            invariant
                i <= self.langs.len(),
                names == self@.lang_names(),
                first_index(names.take(i as int), lang_name@) is None,
            decreases self.langs.len() - i,
        {
            proof {
                assert(names.take(i + 1).drop_last() =~= names.take(i as int));
            }
            if str_eq(self.langs[i].name.as_str(), lang_name) {
                proof {
                    lemma_first_index_extends(names, lang_name@, i + 1);
                }
                return Some(i);
            }
            i += 1;
        }
        proof {
            assert(names.take(i as int) =~= names);
        }
        None
    }

    /// The first language named `lang_name`, if there is one.
    pub fn get_lang(&self, lang_name: &str) -> (lang: Option<&LocaleLang>)
        ensures
            match lang {
                Some(lang) => self@.lang_index(lang_name@) is Some && lang@
                    == self@.langs[self@.lang_index(lang_name@).unwrap()],
                None => self@.lang_index(lang_name@) is None,
            },
    {
        match self.lang_index(lang_name) {
            Some(i) => Some(&self.langs[i]),
            None => None,
        }
    }
}

/// A module: a named dictionary inside a dictionary.
#[derive(Debug, PartialEq, Eq)]
pub struct Mod {
    pub name: Ident,
    pub modules: Vec<Mod>,
    pub trans_units: Vec<TransUnit>,
}

/// The model of a [`Mod`].
pub struct ModView {
    pub name: IdentView,
    pub modules: Seq<ModView>,
    pub trans_units: Seq<TransUnitView>,
}

/// The model of one module; nested modules are modelled one by one.
pub open spec fn mod_view(m: Mod) -> ModView
    decreases m,
{
    ModView {
        name: m.name@,
        modules: Seq::new(
            m.modules@.len(),
            |i: int|
                if 0 <= i < m.modules@.len() {
                    mod_view(m.modules@[i])
                } else {
                    arbitrary()
                },
        ),
        trans_units: views(m.trans_units@),
    }
}

impl View for Mod {
    type V = ModView;

    open spec fn view(&self) -> ModView {
        mod_view(*self)
    }
}

/// A module's model holds the models of its modules.
pub proof fn lemma_mod_view(m: Mod)
    ensures
        m@.modules == views(m.modules@),
        m@.name == m.name@,
        m@.trans_units == views(m.trans_units@),
{
    assert(m@.modules =~= views(m.modules@));
}

/// A whole dictionary: the locale definition, the modules and the
/// translation units of the root.
#[derive(Debug, PartialEq, Eq)]
pub struct Dict {
    pub locale_def: LocaleDef,
    pub modules: Vec<Mod>,
    pub trans_units: Vec<TransUnit>,
}

/// The model of a [`Dict`].
pub struct DictView {
    pub locale_def: LocaleDefView,
    pub modules: Seq<ModView>,
    pub trans_units: Seq<TransUnitView>,
}

impl View for Dict {
    type V = DictView;

    open spec fn view(&self) -> DictView {
        DictView {
            locale_def: self.locale_def@,
            modules: views(self.modules@),
            trans_units: views(self.trans_units@),
        }
    }
}

impl ModView {
    /// The units of this module and of the modules below it: its own first,
    /// then those of its modules, the last module first.
    pub open spec fn units(self) -> Seq<TransUnitView>
        decreases self, 1int,
    {
        self.trans_units + units_of_modules(self.modules)
    }
}

/// The units of a list of modules: those of the last module and of what is
/// below it first, those of the first module last.
pub open spec fn units_of_modules(modules: Seq<ModView>) -> Seq<TransUnitView>
    decreases modules, 0int,
{
    if modules.len() == 0 {
        Seq::empty()
    } else {
        modules.last().units() + units_of_modules(modules.drop_last())
    }
}

impl DictView {
    /// All units of the dictionary: those of the root first, then those of
    /// the modules, the last module first.
    pub open spec fn units(self) -> Seq<TransUnitView> {
        self.trans_units + units_of_modules(self.modules)
    }
}

/// Appends the units of `modules`, and of the modules below them, to `out`.
fn collect_units<'a>(modules: &'a Vec<Mod>, out: &mut Vec<&'a TransUnit>)
    ensures
        views(final(out)@) == views(old(out)@) + units_of_modules(views(modules@)),
    decreases *modules,
{
    let ghost all = views(modules@);
    let ghost start = views(out@);
    let mut i: usize = modules.len();
    proof {
        assert(all.take(i as int) =~= all);
    }
    while i > 0
        invariant
            i <= modules.len(),
            all == views(modules@),
            views(out@) + units_of_modules(all.take(i as int)) == start + units_of_modules(all),
        decreases i,
    {
        i -= 1;
        let m = &modules[i];
        let ghost before = views(out@);
        proof {
            lemma_mod_view(*m);
            assert(all.take(i + 1).last() == m@);
            assert(all.take(i + 1).drop_last() =~= all.take(i as int));
        }
        let mut k: usize = 0;
        while k < m.trans_units.len()
            invariant
                k <= m.trans_units.len(),
                views(out@) == before + views(m.trans_units@).take(k as int),
            decreases m.trans_units.len() - k,
        {
            let ghost prev = out@;
            out.push(&m.trans_units[k]);
            proof {
                lemma_views_push(prev, &m.trans_units[k as int]);
                assert(views(m.trans_units@).take(k + 1) =~= views(m.trans_units@).take(
                    k as int,
                ).push(m.trans_units@[k as int]@));
                assert(views(out@) =~= before + views(m.trans_units@).take(k + 1));
            }
            k += 1;
        }
        proof {
            assert(views(m.trans_units@).take(k as int) =~= views(m.trans_units@));
        }
        collect_units(&m.modules, out);
        proof {
            assert(views(out@) =~= before + m@.units());
            assert(before + m@.units() + units_of_modules(all.take(i as int)) =~= before + (
            m@.units() + units_of_modules(all.take(i as int))));
        }
    }
    proof {
        assert(all.take(0) =~= Seq::<ModView>::empty());
        assert(views(out@) + Seq::<TransUnitView>::empty() =~= views(out@));
    }
}

impl Dict {
    /// All units of the dictionary, in the order of [`DictView::units`].
    pub fn units(&self) -> (units: Vec<&TransUnit>)
        ensures
            views(units@) == self@.units(),
    {
        let mut out: Vec<&TransUnit> = Vec::new();
        let mut k: usize = 0;
        while k < self.trans_units.len()
            invariant
                k <= self.trans_units.len(),
                views(out@) == views(self.trans_units@).take(k as int),
            decreases self.trans_units.len() - k,
        {
            let ghost prev = out@;
            out.push(&self.trans_units[k]);
            proof {
                lemma_views_push(prev, &self.trans_units[k as int]);
                assert(views(out@) =~= views(self.trans_units@).take(k + 1));
            }
            k += 1;
        }
        proof {
            assert(views(self.trans_units@).take(k as int) =~= views(self.trans_units@));
        }
        collect_units(&self.modules, &mut out);
        out
    }
}

} // verus!
