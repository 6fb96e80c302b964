//! String bodies: a text with `{placeholder}`s is split into a skeleton and
//! the expressions that fill it.
//!
//! A scanner with two states reads the text. Outside a placeholder it copies
//! characters; `{{` and `}}` stand for one literal brace; a single `{` opens
//! a placeholder. Inside a placeholder it collects the characters of one
//! expression, up to the next `}`. A placeholder that is still open at the
//! end of the text is taken as closed there.
use vstd::prelude::*;
use vstd::string::StrSliceExecFns;
use crate::error::{TemplateError, TemplateErrorView};
use crate::host::{is_host_code, lexes_as_host_code};
use crate::model::strings_view;

verus! {

/// A string body, split.
#[derive(Debug, PartialEq, Eq)]
pub struct Template {
    /// The text with `{}` in place of each placeholder and each doubled
    /// brace as the one brace it stands for.
    pub skeleton: String,
    /// The same text as a format string of the host language: `{}` in place
    /// of each placeholder, each literal brace doubled.
    pub format: String,
    /// The expressions of the placeholders, from left to right.
    pub exprs: Vec<String>,
}

/// The model of a [`Template`].
pub struct TemplateView {
    pub skeleton: Seq<char>,
    pub format: Seq<char>,
    pub exprs: Seq<Seq<char>>,
}

impl View for Template {
    type V = TemplateView;

    open spec fn view(&self) -> TemplateView {
        TemplateView {
            skeleton: self.skeleton@,
            format: self.format@,
            exprs: strings_view(self.exprs@),
        }
    }
}

impl TemplateView {
    /// The template of the empty text.
    pub open spec fn empty() -> TemplateView {
        TemplateView { skeleton: Seq::empty(), format: Seq::empty(), exprs: Seq::empty() }
    }

    /// One more character of text.
    pub open spec fn copy(self, c: char) -> TemplateView {
        TemplateView { skeleton: self.skeleton.push(c), format: self.format.push(c), ..self }
    }

    /// One more literal brace: single in the skeleton, doubled in the format
    /// string.
    pub open spec fn brace(self, c: char) -> TemplateView {
        TemplateView {
            skeleton: self.skeleton.push(c),
            format: self.format.push(c).push(c),
            ..self
        }
    }

    /// One more placeholder, its expression still empty.
    pub open spec fn open(self) -> TemplateView {
        TemplateView {
            skeleton: self.skeleton.push('{').push('}'),
            format: self.format.push('{').push('}'),
            exprs: self.exprs.push(Seq::empty()),
        }
    }

    /// One more character of the last placeholder's expression.
    pub open spec fn extend(self, c: char) -> TemplateView {
        TemplateView {
            exprs: self.exprs.update(self.exprs.len() - 1, self.exprs.last().push(c)),
            ..self
        }
    }
}

/// The scanner: the template of `text`, given that the characters before
/// `pos` made `acc` and left the scanner inside a placeholder or not.
pub open spec fn scan(text: Seq<char>, pos: int, inside: bool, acc: TemplateView) -> TemplateView
    decreases text.len() - pos,
{
    if pos < 0 || pos >= text.len() {
        acc
    } else if inside {
        if text[pos] == '}' {
            scan(text, pos + 1, false, acc)
        } else {
            scan(text, pos + 1, true, acc.extend(text[pos]))
        }
    } else if text[pos] == '{' {
        if pos + 1 < text.len() && text[pos + 1] == '{' {
            scan(text, pos + 2, false, acc.brace('{'))
        } else {
            scan(text, pos + 1, true, acc.open())
        }
    } else if text[pos] == '}' {
        if pos + 1 < text.len() && text[pos + 1] == '}' {
            scan(text, pos + 2, false, acc.brace('}'))
        } else {
            scan(text, pos + 1, false, acc.brace('}'))
        }
    } else {
        scan(text, pos + 1, false, acc.copy(text[pos]))
    }
}

/// The template of `text`.
pub open spec fn scan_spec(text: Seq<char>) -> TemplateView {
    scan(text, 0, false, TemplateView::empty())
}

/// The characters of a string.
fn chars_of(text: &str) -> (chars: Vec<char>)
    ensures
        chars@ == text@,
{
    let n = text.unicode_len();
    let mut chars: Vec<char> = Vec::new();
    let mut i: usize = 0;
    while i < n
        invariant
            i <= n,
            n == text@.len(),
            chars@ == text@.take(i as int),
        decreases n - i,
    {
        chars.push(text.get_char(i));
        assert(chars@ =~= text@.take(i + 1));
        i += 1;
    }
    assert(text@.take(n as int) =~= text@);
    chars
}

/// Splits a string body into its skeleton and its expressions.
pub fn scan_template(text: &str) -> (template: Template)
    ensures
        template@ == scan_spec(text@),
{
    let chars = chars_of(text);
    let mut skeleton = String::new();
    let mut format = String::new();
    let mut exprs: Vec<String> = Vec::new();
    let mut inside = false;
    let mut pos: usize = 0;
    let ghost mut acc = TemplateView::empty();
    proof {
        assert(strings_view(exprs@) =~= acc.exprs);
    }
    while pos < chars.len()
        invariant
            pos <= chars.len(),
            chars@ == text@,
            acc == (TemplateView {
                skeleton: skeleton@,
                format: format@,
                exprs: strings_view(exprs@),
            }),
            inside ==> exprs.len() > 0,
            scan(text@, pos as int, inside, acc) == scan_spec(text@),
        decreases chars.len() - pos,
    {
        let c = chars[pos];
        if inside {
            if c == '}' {
                inside = false;
            } else {
                let last = exprs.len() - 1;
                let ghost before = exprs@;
                exprs[last].push(c);
                proof {
                    assert(strings_view(exprs@) =~= acc.extend(c).exprs);
                    acc = acc.extend(c);
                }
            }
            pos += 1;
        } else if c == '{' {
            if pos + 1 < chars.len() && chars[pos + 1] == '{' {
                skeleton.push('{');
                format.push('{');
                format.push('{');
                proof {
                    acc = acc.brace('{');
                }
                pos += 2;
            } else {
                skeleton.push('{');
                skeleton.push('}');
                format.push('{');
                format.push('}');
                exprs.push(String::new());
                inside = true;
                proof {
                    assert(strings_view(exprs@) =~= acc.open().exprs);
                    acc = acc.open();
                }
                pos += 1;
            }
        } else if c == '}' {
            skeleton.push('}');
            format.push('}');
            format.push('}');
            proof {
                acc = acc.brace('}');
            }
            if pos + 1 < chars.len() && chars[pos + 1] == '}' {
                pos += 2;
            } else {
                pos += 1;
            }
        } else {
            skeleton.push(c);
            format.push(c);
            proof {
                acc = acc.copy(c);
            }
            pos += 1;
        }
    }
    Template { skeleton, format, exprs }
}

/// The index of the first `false` among `verdicts`.
pub open spec fn first_false(verdicts: Seq<bool>) -> Option<int>
    decreases verdicts.len(),
{
    if verdicts.len() == 0 {
        None
    } else {
        match first_false(verdicts.drop_last()) {
            Some(i) => Some(i),
            None => if verdicts.last() {
                None
            } else {
                Some(verdicts.len() - 1)
            },
        }
    }
}

/// `first_false` finds the first `false` and nothing else.
pub proof fn lemma_first_false(verdicts: Seq<bool>)
    ensures
        match first_false(verdicts) {
            Some(i) => 0 <= i < verdicts.len() && !verdicts[i] && forall|j: int|
                0 <= j < i ==> verdicts[j],
            None => forall|j: int| 0 <= j < verdicts.len() ==> verdicts[j],
        },
    decreases verdicts.len(),
{
    if verdicts.len() > 0 {
        let front = verdicts.drop_last();
        lemma_first_false(front);
        assert(forall|j: int| 0 <= j < front.len() ==> front[j] == verdicts[j]);
        match first_false(front) {
            Some(i) => {
                assert(verdicts[i] == front[i]);
            },
            None => {
                assert forall|j: int| 0 <= j < verdicts.len() - 1 implies verdicts[j] by {
                    assert(front[j]);
                }
            },
        }
    }
}

/// What is found in a prefix is found in the whole sequence, at the same
/// place.
proof fn lemma_first_false_extends(verdicts: Seq<bool>, n: int)
    requires
        0 <= n <= verdicts.len(),
        first_false(verdicts.take(n)) is Some,
    ensures
        first_false(verdicts) == first_false(verdicts.take(n)),
    decreases verdicts.len() - n,
{
    if n < verdicts.len() {
        assert(verdicts.take(n + 1).drop_last() =~= verdicts.take(n));
        lemma_first_false_extends(verdicts, n + 1);
    } else {
        assert(verdicts.take(n) =~= verdicts);
    }
}

/// The template, or the error for the first expression that has the verdict
/// `false`. A verdict without an expression counts for nothing.
pub open spec fn reject_spec(template: TemplateView, verdicts: Seq<bool>) -> Result<
    TemplateView,
    TemplateErrorView,
> {
    match first_false(verdicts) {
        Some(i) => if i < template.exprs.len() {
            Err(TemplateErrorView::InvalidExpression { index: i as usize, expr: template.exprs[i] })
        } else {
            Ok(template)
        },
        None => Ok(template),
    }
}

/// The verdicts of the host's lexer on the expressions.
pub open spec fn verdicts_spec(exprs: Seq<Seq<char>>) -> Seq<bool> {
    Seq::new(exprs.len(), |i: int| lexes_as_host_code(exprs[i]))
}

/// The template of `text`, or the error for its first expression that is not
/// host code.
pub open spec fn compile_spec(text: Seq<char>) -> Result<TemplateView, TemplateErrorView> {
    reject_spec(scan_spec(text), verdicts_spec(scan_spec(text).exprs))
}

/// Hands the template on, unless an expression was found not to be host
/// code: `verdicts[i]` says whether the expression at `i` is.
pub fn reject_invalid(template: Template, verdicts: &Vec<bool>) -> (r: Result<
    Template,
    TemplateError,
>)
    ensures
        match r {
            Ok(t) => reject_spec(template@, verdicts@) == Ok::<TemplateView, TemplateErrorView>(
                t@,
            ),
            Err(e) => reject_spec(template@, verdicts@) == Err::<TemplateView, TemplateErrorView>(
                e@,
            ),
        },
{
    let mut i: usize = 0;
    while i < verdicts.len()
        invariant
            i <= verdicts.len(),
            first_false(verdicts@.take(i as int)) is None,
        decreases verdicts.len() - i,
    {
        proof {
            assert(verdicts@.take(i + 1).drop_last() =~= verdicts@.take(i as int));
        }
        if !verdicts[i] {
            proof {
                lemma_first_false_extends(verdicts@, i + 1);
            }
            if i < template.exprs.len() {
                return Err(
                    TemplateError::InvalidExpression { index: i, expr: template.exprs[i].clone() },
                );
            } else {
                return Ok(template);
            }
        }
        i += 1;
    }
    proof {
        assert(verdicts@.take(i as int) =~= verdicts@);
    }
    Ok(template)
}

/// Asks the host's lexer about each expression.
pub fn lex_each(exprs: &Vec<String>) -> (verdicts: Vec<bool>)
    ensures
        verdicts@ == verdicts_spec(strings_view(exprs@)),
{
    let mut verdicts: Vec<bool> = Vec::new();
    let mut i: usize = 0;
    while i < exprs.len()
        invariant
            i <= exprs.len(),
            verdicts@ == verdicts_spec(strings_view(exprs@)).take(i as int),
        decreases exprs.len() - i,
    {
        verdicts.push(is_host_code(exprs[i].as_str()));
        assert(verdicts@ =~= verdicts_spec(strings_view(exprs@)).take(i + 1));
        i += 1;
    }
    assert(verdicts_spec(strings_view(exprs@)).take(i as int) =~= verdicts_spec(
        strings_view(exprs@),
    ));
    verdicts
}

/// Splits a string body and makes sure that each placeholder holds host
/// code.
pub fn compile_template(text: &str) -> (r: Result<Template, TemplateError>)
    ensures
        match r {
            Ok(t) => compile_spec(text@) == Ok::<TemplateView, TemplateErrorView>(t@),
            Err(e) => compile_spec(text@) == Err::<TemplateView, TemplateErrorView>(e@),
        },
{
    let template = scan_template(text);
    let verdicts = lex_each(&template.exprs);
    reject_invalid(template, &verdicts)
}

} // verus!
