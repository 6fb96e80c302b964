//! Which locales the arms of one translation unit have matched so far.
//!
//! The working state is a tree that mirrors the locale definition: a root,
//! one child per language, one grandchild per region, each with a `used`
//! flag. Its model is a [`Coverage`]: the same flags, without the tree.
use vstd::prelude::*;
use vstd::string::StringExecFns;
use crate::ast::{
    first_index, lemma_first_index, region_pattern_text, Ident, IdentView, LocaleDef, LocaleDefView,
};
use crate::error::{CheckError, CheckErrorView};
use crate::model::str_eq;
use crate::token::Span;

verus! {

/// The flag of one region.
pub struct RegionCoverage {
    pub name: IdentView,
    pub used: bool,
}

/// The flags of one language and of its regions.
pub struct LangCoverage {
    pub name: IdentView,
    pub used: bool,
    pub regions: Seq<RegionCoverage>,
}

/// The flags of a whole locale definition.
pub struct Coverage {
    pub all: bool,
    pub langs: Seq<LangCoverage>,
}

impl LangCoverage {
    /// The language is done when it was matched as a whole, or when it has
    /// regions and each of them was matched.
    pub open spec fn done(self) -> bool {
        self.used || (self.regions.len() > 0 && forall|j: int|
            0 <= j < self.regions.len() ==> (#[trigger] self.regions[j]).used)
    }

    pub open spec fn region_names(self) -> Seq<Seq<char>> {
        Seq::new(self.regions.len(), |j: int| self.regions[j].name.name)
    }

    /// The index of the first region of that name.
    pub open spec fn region_index(self, name: Seq<char>) -> Option<int> {
        first_index(self.region_names(), name)
    }

    /// The same flags, with region `j` matched.
    pub open spec fn with_region(self, j: int) -> LangCoverage {
        LangCoverage {
            regions: self.regions.update(j, RegionCoverage { used: true, ..self.regions[j] }),
            ..self
        }
    }
}

impl Coverage {
    /// Nothing is left to match: a wildcard was seen, or there are languages
    /// and each of them is done.
    pub open spec fn exhausted(self) -> bool {
        self.all || (self.langs.len() > 0 && forall|i: int|
            0 <= i < self.langs.len() ==> (#[trigger] self.langs[i]).done())
    }

    pub open spec fn lang_names(self) -> Seq<Seq<char>> {
        Seq::new(self.langs.len(), |i: int| self.langs[i].name.name)
    }

    /// The index of the first language of that name.
    pub open spec fn lang_index(self, name: Seq<char>) -> Option<int> {
        first_index(self.lang_names(), name)
    }

    /// The flags of a locale definition of which nothing was matched yet.
    pub open spec fn fresh(locale: LocaleDefView) -> Coverage {
        Coverage {
            all: false,
            langs: Seq::new(
                locale.langs.len(),
                |i: int|
                    LangCoverage {
                        name: locale.langs[i].name,
                        used: false,
                        regions: Seq::new(
                            locale.langs[i].regions.len(),
                            |j: int|
                                RegionCoverage {
                                    name: locale.langs[i].regions[j],
                                    used: false,
                                },
                        ),
                    },
            ),
        }
    }

    /// Whether these are flags for the given locale definition: the same
    /// languages and regions, by name and in order.
    pub open spec fn mirrors(self, locale: LocaleDefView) -> bool {
        &&& self.langs.len() == locale.langs.len()
        &&& forall|i: int|
            0 <= i < self.langs.len() ==> {
                &&& (#[trigger] self.langs[i]).name == locale.langs[i].name
                &&& self.langs[i].regions.len() == locale.langs[i].regions.len()
                &&& forall|j: int|
                    0 <= j < self.langs[i].regions.len() ==> (#[trigger] self.langs[i].regions[j]).name
                        == locale.langs[i].regions[j]
            }
    }

    /// The same flags, with everything matched.
    pub open spec fn with_all(self) -> Coverage {
        Coverage { all: true, ..self }
    }

    /// The same flags, with language `i` matched as a whole.
    pub open spec fn with_lang(self, i: int) -> Coverage {
        Coverage { langs: self.langs.update(i, LangCoverage { used: true, ..self.langs[i] }), ..self }
    }

    /// The same flags, with region `j` of language `i` matched.
    pub open spec fn with_region(self, i: int, j: int) -> Coverage {
        Coverage { langs: self.langs.update(i, self.langs[i].with_region(j)), ..self }
    }
}

/// One node of the usage tree.
#[derive(Debug, PartialEq, Eq)]
pub struct UsageNode {
    pub used: bool,
    pub children: Vec<UsageNode>,
    pub data: Ident,
}

impl UsageNode {
    /// A node is fully used if its own flag is set, or if it has children and
    /// all of them are fully used.
    pub open spec fn fully_used(self) -> bool
        decreases self,
    {
        self.used || (self.children@.len() > 0 && forall|i: int|
            0 <= i < self.children@.len() ==> (#[trigger] self.children@[i]).fully_used())
    }

    /// Whether the node is fully used.
    pub fn is_used(&self) -> (yes: bool)
        ensures
            yes == self.fully_used(),
        decreases *self,
    {
        if self.used {
            return true;
        }
        if self.children.len() == 0 {
            return false;
        }
        let mut i: usize = 0;
        while i < self.children.len()
            invariant
                i <= self.children.len(),
                !self.used,
                forall|k: int| 0 <= k < i ==> (#[trigger] self.children@[k]).fully_used(),
            decreases self.children.len() - i,
        {
            if !self.children[i].is_used() {
                assert(!self.children@[i as int].fully_used());
                return false;
            }
            i += 1;
        }
        true
    }

    /// Sets the flag of a root node.
    fn mark_all(&mut self)
        requires
            old(self).root_wf(),
        ensures
            final(self).root_wf(),
            final(self).coverage() == old(self).coverage().with_all(),
        no_unwind
    {
        let ghost before = *self;
        self.used = true;
        proof {
            assert(self.coverage().langs =~= before.coverage().langs);
        }
    }

    /// Sets the flag of the language node at `i` of a root node.
    fn mark_lang(&mut self, i: usize)
        requires
            i < old(self).children@.len(),
            old(self).root_wf(),
        ensures
            final(self).root_wf(),
            final(self).coverage() == old(self).coverage().with_lang(i as int),
        no_unwind
    {
        let ghost before = *self;
        self.children[i].used = true;
        proof {
            assert(self.coverage().langs =~= before.coverage().with_lang(i as int).langs);
        }
    }

    /// Sets the flag of the region node at `j` of the language node at `i`
    /// of a root node.
    fn mark_region(&mut self, i: usize, j: usize)
        requires
            i < old(self).children@.len(),
            j < old(self).children@[i as int].children@.len(),
            old(self).root_wf(),
        ensures
            final(self).root_wf(),
            final(self).coverage() == old(self).coverage().with_region(i as int, j as int),
        no_unwind
    {
        let ghost before = *self;
        self.children[i].children[j].used = true;
        proof {
            assert(self.children@[i as int].lang_coverage().regions
                =~= before.children@[i as int].lang_coverage().with_region(j as int).regions);
            assert(self.coverage().langs =~= before.coverage().with_region(
                i as int,
                j as int,
            ).langs);
        }
    }

    /// The flags of a language node.
    pub open spec fn lang_coverage(self) -> LangCoverage {
        LangCoverage {
            name: self.data@,
            used: self.used,
            regions: Seq::new(
                self.children@.len(),
                |j: int|
                    RegionCoverage { name: self.children@[j].data@, used: self.children@[j].used },
            ),
        }
    }

    /// The flags of a root node.
    pub open spec fn coverage(self) -> Coverage {
        Coverage {
            all: self.used,
            langs: Seq::new(self.children@.len(), |i: int| self.children@[i].lang_coverage()),
        }
    }

    /// A language node is well formed if its region nodes have no children.
    pub open spec fn lang_wf(self) -> bool {
        forall|j: int|
            0 <= j < self.children@.len() ==> (#[trigger] self.children@[j]).children@.len() == 0
    }

    /// A root node is well formed if its language nodes are.
    pub open spec fn root_wf(self) -> bool {
        forall|i: int| 0 <= i < self.children@.len() ==> (#[trigger] self.children@[i]).lang_wf()
    }

    /// On a well-formed language node the tree's rule and the flags agree.
    pub proof fn lemma_lang_done(self)
        requires
            self.lang_wf(),
        ensures
            self.fully_used() == self.lang_coverage().done(),
    {
        let cov = self.lang_coverage();
        assert forall|j: int| 0 <= j < self.children@.len() implies (
        #[trigger] self.children@[j]).fully_used() == cov.regions[j].used by {
            assert(self.children@[j].children@.len() == 0);
        }
        if self.children@.len() > 0 && !self.used {
            if cov.done() {
                assert forall|j: int| 0 <= j < self.children@.len() implies (
                #[trigger] self.children@[j]).fully_used() by {
                    assert(cov.regions[j].used);
                }
            }
            if self.fully_used() {
                assert forall|j: int| 0 <= j < cov.regions.len() implies (
                #[trigger] cov.regions[j]).used by {
                    assert(self.children@[j].fully_used());
                }
            }
        }
    }

    /// On a well-formed root node the tree's rule and the flags agree.
    pub proof fn lemma_root_exhausted(self)
        requires
            self.root_wf(),
        ensures
            self.fully_used() == self.coverage().exhausted(),
    {
        let cov = self.coverage();
        assert forall|i: int| 0 <= i < self.children@.len() implies (
        #[trigger] self.children@[i]).fully_used() == cov.langs[i].done() by {
            self.children@[i].lemma_lang_done();
        }
        if self.children@.len() > 0 && !self.used {
            if cov.exhausted() {
                assert forall|i: int| 0 <= i < self.children@.len() implies (
                #[trigger] self.children@[i]).fully_used() by {
                    assert(cov.langs[i].done());
                }
            }
            if self.fully_used() {
                assert forall|i: int| 0 <= i < cov.langs.len() implies (
                #[trigger] cov.langs[i]).done() by {
                    assert(self.children@[i].fully_used());
                }
            }
        }
    }
}

/// Which patterns were already matched.
///
/// It is used to find unreachable patterns and to tell whether a unit's arms
/// cover every locale.
#[derive(Debug)]
pub struct PatternUsage {
    root: UsageNode,
}

impl View for PatternUsage {
    type V = Coverage;

    closed spec fn view(&self) -> Coverage {
        self.root.coverage()
    }
}

impl PatternUsage {
    #[verifier::type_invariant]
    spec fn wf(self) -> bool {
        self.root.root_wf()
    }

    /// A usage tree for `locale` in which nothing is used yet.
    pub fn new(locale: &LocaleDef) -> (usage: Self)
        ensures
            usage@ == Coverage::fresh(locale@),
            usage@.mirrors(locale@),
    {
        let mut langs: Vec<UsageNode> = Vec::new();
        let mut i: usize = 0;
        while i < locale.langs.len()
            invariant
                i <= locale.langs.len(),
                langs.len() == i,
                forall|k: int|
                    0 <= k < i ==> (#[trigger] langs@[k]).lang_wf() && langs@[k].lang_coverage()
                        == Coverage::fresh(locale@).langs[k],
            decreases locale.langs.len() - i,
        {
            let lang = &locale.langs[i];
            let mut regions: Vec<UsageNode> = Vec::new();
            let mut j: usize = 0;
            while j < lang.regions.len()
                invariant
                    j <= lang.regions.len(),
                    regions.len() == j,
                    forall|k: int|
                        0 <= k < j ==> (#[trigger] regions@[k]).children@.len() == 0
                            && !regions@[k].used && regions@[k].data@
                            == lang.regions@[k]@,
                decreases lang.regions.len() - j,
            {
                regions.push(
                    UsageNode { used: false, children: Vec::new(), data: lang.regions[j].duplicate() },
                );
                j += 1;
            }
            let node = UsageNode { used: false, children: regions, data: lang.name.duplicate() };
            proof {
                let want = Coverage::fresh(locale@).langs[i as int];
                assert(locale@.langs[i as int] == lang@);
                assert(node.lang_coverage().regions =~= want.regions);
            }
            langs.push(node);
            i += 1;
        }
        let root = UsageNode { used: false, children: langs, data: Ident::internal("Locale") };
        proof {
            assert(root.coverage().langs =~= Coverage::fresh(locale@).langs);
        }
        PatternUsage { root }
    }

    /// Whether nothing is left to match.
    pub fn is_exhausted(&self) -> (yes: bool)
        ensures
            yes == self@.exhausted(),
    {
        proof {
            use_type_invariant(self);
            self.root.lemma_root_exhausted();
        }
        self.root.is_used()
    }

    /// The index of the first language node named `lang`.
    fn lang_position(&self, lang: &str) -> (index: usize)
        requires
            self@.lang_index(lang@) is Some,
        ensures
            self@.lang_index(lang@) == Some(index as int),
            index < self.root.children@.len(),
            self@.langs.len() == self.root.children@.len(),
    {
        let ghost names = self@.lang_names();
        proof {
            lemma_first_index(names, lang@);
        }
        let ghost target = self@.lang_index(lang@).unwrap();
        let mut i: usize = 0;
        while i < self.root.children.len()
            invariant
                i <= target < self.root.children@.len(),
                names == self@.lang_names(),
                names.len() == self.root.children@.len(),
                names[target] == lang@,
                forall|k: int| 0 <= k < target ==> names[k] != lang@,
                first_index(names, lang@) == Some(target),
            decreases self.root.children.len() - i,
        {
            if str_eq(self.root.children[i].data.as_str(), lang) {
                assert(names[i as int] == lang@);
                return i;
            }
            i += 1;
        }
        i
    }

    /// Marks language `lang` as matched, unless nothing of it is left to
    /// match: then the pattern is unreachable and nothing changes.
    pub fn use_lang(&mut self, lang: &str) -> (r: Result<(), CheckError>)
        requires
            old(self)@.lang_index(lang@) is Some,
        ensures
            ({
                let before = old(self)@;
                let i = before.lang_index(lang@).unwrap();
                match r {
                    Ok(()) => !before.langs[i].done() && !before.exhausted() && final(self)@
                        == before.with_lang(i),
                    Err(e) => (before.langs[i].done() || before.exhausted()) && final(self)@
                        == before && e@ == (CheckErrorView::UnreachablePattern {
                        pattern: lang@,
                        span: before.langs[i].name.span,
                    }),
                }
            }),
    {
        let is_exhausted = self.is_exhausted();
        let i = self.lang_position(lang);
        proof {
            use_type_invariant(&*self);
            self.root.children@[i as int].lemma_lang_done();
        }
        if self.root.children[i].is_used() || is_exhausted {
            Err(
                CheckError::UnreachablePattern {
                    pattern: String::from_str(lang),
                    span: self.root.children[i].data.span(),
                },
            )
        } else {
            self.root.mark_lang(i);
            Ok(())
        }
    }

    /// The index of the first region node named `region` under the language
    /// node at `i`.
    fn region_position(&self, i: usize, region: &str) -> (index: usize)
        requires
            i < self@.langs.len(),
            self@.langs[i as int].region_index(region@) is Some,
        ensures
            self@.langs[i as int].region_index(region@) == Some(index as int),
            i < self.root.children@.len(),
            index < self.root.children@[i as int].children@.len(),
    {
        let lang = &self.root.children[i];
        let ghost names = self@.langs[i as int].region_names();
        proof {
            lemma_first_index(names, region@);
        }
        let ghost target = self@.langs[i as int].region_index(region@).unwrap();
        let mut j: usize = 0;
        while j < lang.children.len()
            invariant
                j <= target < lang.children@.len(),
                lang == self.root.children@[i as int],
                i < self.root.children@.len(),
                names == self@.langs[i as int].region_names(),
                names.len() == lang.children@.len(),
                names[target] == region@,
                forall|k: int| 0 <= k < target ==> names[k] != region@,
                first_index(names, region@) == Some(target),
            decreases lang.children.len() - j,
        {
            if str_eq(lang.children[j].data.as_str(), region) {
                assert(names[j as int] == region@);
                return j;
            }
            j += 1;
        }
        j
    }

    /// Marks region `region` of language `lang` as matched, unless it is no
    /// longer left to match: then the pattern is unreachable and nothing
    /// changes.
    pub fn use_region(&mut self, lang: &str, region: &str) -> (r: Result<(), CheckError>)
        requires
            old(self)@.lang_index(lang@) is Some,
            old(self)@.langs[old(self)@.lang_index(lang@).unwrap()].region_index(region@) is Some,
        ensures
            ({
                let before = old(self)@;
                let i = before.lang_index(lang@).unwrap();
                let j = before.langs[i].region_index(region@).unwrap();
                match r {
                    Ok(()) => !before.langs[i].regions[j].used && !before.langs[i].done()
                        && !before.exhausted() && final(self)@ == before.with_region(i, j),
                    Err(e) => (before.langs[i].regions[j].used || before.langs[i].done()
                        || before.exhausted()) && final(self)@ == before && e@ == (
                    CheckErrorView::UnreachablePattern {
                        pattern: region_pattern_text(lang@, region@),
                        span: before.langs[i].regions[j].name.span,
                    }),
                }
            }),
    {
        let is_exhausted = self.is_exhausted();
        let i = self.lang_position(lang);
        let j = self.region_position(i, region);
        proof {
            use_type_invariant(&*self);
            self.root.children@[i as int].lemma_lang_done();
            assert(self.root.children@[i as int].children@[j as int].children@.len() == 0);
        }
        let is_lang_used = self.root.children[i].is_used();
        if self.root.children[i].children[j].is_used() || is_lang_used || is_exhausted {
            let mut pattern = String::from_str(lang);
            pattern.append("(");
            pattern.append(region);
            pattern.append(")");
            Err(
                CheckError::UnreachablePattern {
                    pattern,
                    span: self.root.children[i].children[j].data.span(),
                },
            )
        } else {
            self.root.mark_region(i, j);
            Ok(())
        }
    }

    /// Marks everything as matched, unless nothing is left to match: then
    /// the pattern is unreachable and nothing changes.
    ///
    /// `span` is the place of the pattern. `binding` is the name that the
    /// pattern binds, `None` for `_`; it only serves the error.
    pub fn use_wildcard(&mut self, span: Span, binding: Option<&str>) -> (r: Result<(), CheckError>)
        ensures
            ({
                let before = old(self)@;
                match r {
                    Ok(()) => !before.exhausted() && final(self)@ == before.with_all(),
                    Err(e) => before.exhausted() && final(self)@ == before && e@ == (
                    CheckErrorView::UnreachablePattern {
                        pattern: match binding {
                            Some(name) => name@,
                            None => "_"@,
                        },
                        span: Some(span),
                    }),
                }
            }),
    {
        if self.is_exhausted() {
            let pattern = match binding {
                Some(name) => String::from_str(name),
                None => String::from_str("_"),
            };
            Err(CheckError::UnreachablePattern { pattern, span: Some(span) })
        } else {
            proof {
                use_type_invariant(&*self);
            }
            self.root.mark_all();
            Ok(())
        }
    }
}

} // verus!
