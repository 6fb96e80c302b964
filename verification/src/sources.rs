//! Where the sources of modules come from.
//!
//! A module `foo` is looked for in two places below the directory of the
//! source that declares it: `foo/mod.mauzi.rs`, which brings the directory
//! `foo` for its own modules, and `foo.mauzi.rs`, whose modules are looked
//! for in the same directory again. Exactly one of the two must exist.
//!
//! The parser does not read files. It is handed what a resolver found, as a
//! tree: for each module name the outcome and, where a source was found, its
//! tokens and the outcomes for the modules below it.
use vstd::prelude::*;
use vstd::string::StringExecFns;
use crate::ast::{first_index, lemma_first_index_extends};
use crate::model::{str_eq, strings_view};
use crate::token::{tokens_view, Token, TokenKind, TokenKindView, TokenView};

verus! {

/// Which of the two places holds a module's source.
#[derive(Clone, Copy, Debug, PartialEq, Eq, Structural)]
pub enum ModuleLocation {
    /// `foo/mod.mauzi.rs`
    PackageStyle,
    /// `foo.mauzi.rs`
    FlatFile,
}

/// Why a module has no source.
#[derive(Clone, Copy, Debug, PartialEq, Eq, Structural)]
pub enum ResolveError {
    /// Neither place exists.
    NotFound,
    /// Both places exist.
    Ambiguous,
}

/// The place to read a module from, given which of the two places exist.
pub fn select_location(package_style_exists: bool, flat_file_exists: bool) -> (r: Result<
    ModuleLocation,
    ResolveError,
>)
    ensures
        r == (if package_style_exists && flat_file_exists {
            Err::<ModuleLocation, ResolveError>(ResolveError::Ambiguous)
        } else if package_style_exists {
            Ok(ModuleLocation::PackageStyle)
        } else if flat_file_exists {
            Ok(ModuleLocation::FlatFile)
        } else {
            Err(ResolveError::NotFound)
        }),
{
    match (package_style_exists, flat_file_exists) {
        (false, false) => Err(ResolveError::NotFound),
        (true, true) => Err(ResolveError::Ambiguous),
        (true, false) => Ok(ModuleLocation::PackageStyle),
        (false, true) => Ok(ModuleLocation::FlatFile),
    }
}

/// The name of the file that holds a module in the package style, inside the
/// directory named like the module.
pub fn package_file_name() -> (name: &'static str)
    ensures
        name@ == "mod.mauzi.rs"@,
{
    "mod.mauzi.rs"
}

/// The name of the file that holds the module `module` in the flat style.
pub fn flat_file_name(module: &str) -> (name: String)
    ensures
        name@ == module@ + ".mauzi.rs"@,
{
    let mut name = String::from_str(module);
    name.append(".mauzi.rs");
    name
}

/// How many levels of modules a resolver follows below the root.
pub open spec fn max_depth() -> usize {
    64
}

/// How many levels of modules a resolver follows below the root. Two
/// sources that declare each other would otherwise be followed without end.
pub fn max_module_depth() -> (depth: usize)
    ensures
        depth == max_depth(),
{
    64
}

/// The levels that are left below a module, where `depth` levels are left
/// at the module itself; `None` where the module lies too deep to be
/// followed.
pub fn descend(depth: usize) -> (below: Option<usize>)
    ensures
        below == (if depth == 0 {
            None::<usize>
        } else {
            Some((depth - 1) as usize)
        }),
{
    if depth == 0 {
        None
    } else {
        Some(depth - 1)
    }
}

/// What a resolver found for one module.
#[derive(Debug, PartialEq, Eq)]
pub enum Resolution {
    Found(ModuleFile),
    NotFound,
    Ambiguous,
    /// A source was found but could not be read or split into tokens, or
    /// lies too deep; the text says why.
    Unreadable(String),
}

/// The source of a module: its tokens, and what the resolver found for the
/// modules that it may declare.
#[derive(Debug, PartialEq, Eq)]
pub struct ModuleFile {
    pub tokens: Vec<Token>,
    pub sources: ModuleSources,
}

/// A module name and what a resolver found for it.
#[derive(Debug, PartialEq, Eq)]
pub struct ModuleSource {
    pub name: String,
    pub resolution: Resolution,
}

/// What a resolver found for the modules that one source may declare. A
/// name that is not listed was not found; of a name that is listed twice the
/// first entry counts.
#[derive(Debug, PartialEq, Eq)]
pub struct ModuleSources {
    pub entries: Vec<ModuleSource>,
}

impl ModuleSources {
    /// The listed names, in order.
    pub open spec fn names(self) -> Seq<Seq<char>> {
        Seq::new(self.entries@.len(), |i: int| self.entries@[i].name@)
    }

    /// The index of the first entry for `name`.
    pub open spec fn position(self, name: Seq<char>) -> Option<int> {
        first_index(self.names(), name)
    }

    /// Sources for a dictionary without modules.
    pub fn empty() -> (sources: Self)
        ensures
            sources.entries@.len() == 0,
    {
        ModuleSources { entries: Vec::new() }
    }

    /// The index of the first entry for `name`.
    pub fn find(&self, name: &str) -> (index: Option<usize>)
        ensures
            match index {
                Some(i) => self.position(name@) == Some(i as int) && i < self.entries@.len(),
                None => self.position(name@) is None,
            },
    {
        let ghost names = self.names();
        let mut i: usize = 0;
        while i < self.entries.len()
            invariant
                i <= self.entries.len(),
                names == self.names(),
                first_index(names.take(i as int), name@) is None,
            decreases self.entries.len() - i,
        {
            proof {
                assert(names.take(i + 1).drop_last() =~= names.take(i as int));
            }
            if str_eq(self.entries[i].name.as_str(), name) {
                proof {
                    lemma_first_index_extends(names, name@, i + 1);
                }
                return Some(i);
            }
            i += 1;
        }
        proof {
            assert(names.take(i as int) =~= names);
        }
        None
    }
}

/// The word of a token, if it is one.
pub open spec fn term_text(token: TokenView) -> Option<Seq<char>> {
    match token.kind {
        TokenKindView::Term(text) => Some(text),
        _ => None,
    }
}

/// The names that follow the word `mod` in a stream, in order. Groups are
/// not looked into.
pub open spec fn declared_spec(s: Seq<TokenView>) -> Seq<Seq<char>>
    decreases s.len(),
{
    if s.len() < 2 {
        Seq::empty()
    } else if term_text(s[0]) == Some("mod"@) && term_text(s[1]) is Some {
        seq![term_text(s[1])->0] + declared_spec(s.skip(2))
    } else {
        declared_spec(s.drop_first())
    }
}

/// The word of a token, if it is one.
fn term_of(token: &Token) -> (text: Option<&str>)
    ensures
        match text {
            Some(text) => term_text(token@) == Some(text@),
            None => term_text(token@) is None,
        },
{
    match &token.kind {
        TokenKind::Term(text) => Some(text.as_str()),
        _ => None,
    }
}

/// The names of the modules that a source may declare: every name that
/// follows the word `mod`. A resolver learns from it which sources to look
/// for; a name too many does no harm.
pub fn declared_modules(tokens: &Vec<Token>) -> (names: Vec<String>)
    ensures
        strings_view(names@) == declared_spec(tokens_view(tokens@)),
{
    let ghost all = tokens_view(tokens@);
    let mut names: Vec<String> = Vec::new();
    let mut i: usize = 0;
    proof {
        assert(all.skip(0) =~= all);
        assert(strings_view(names@) =~= Seq::<Seq<char>>::empty());
    }
    while tokens.len() - i >= 2
        invariant
            i <= tokens.len(),
            all == tokens_view(tokens@),
            declared_spec(all) == strings_view(names@) + declared_spec(
                all.skip(i as int),
            ),
        decreases tokens.len() - i,
    {
        let ghost rest = all.skip(i as int);
        let ghost so_far = strings_view(names@);
        proof {
            assert(rest[0] == tokens@[i as int]@);
            assert(rest[1] == tokens@[i + 1]@);
            assert(rest.skip(2) =~= all.skip(i + 2));
            assert(rest.drop_first() =~= all.skip(i + 1));
        }
        let is_mod = match term_of(&tokens[i]) {
            Some(text) => str_eq(text, "mod"),
            None => false,
        };
        let name = if is_mod {
            term_of(&tokens[i + 1])
        } else {
            None
        };
        match name {
            Some(name) => {
                names.push(String::from_str(name));
                proof {
                    assert(strings_view(names@) =~= so_far + seq![name@]);
                    assert(so_far + (seq![name@] + declared_spec(all.skip(i + 2))) =~= so_far
                        + seq![name@] + declared_spec(all.skip(i + 2)));
                }
                i += 2;
            },
            None => {
                i += 1;
            },
        }
    }
    proof {
        assert(all.skip(i as int).len() < 2);
        assert(strings_view(names@) + Seq::<Seq<char>>::empty()
            =~= strings_view(names@));
    }
    names
}

} // verus!
