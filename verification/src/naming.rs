//! The names of the dispatch types.
//!
//! Modules do not become modules of the host language: the dispatch types of
//! all modules stand side by side, so each needs a name of its own. The name
//! of a module's type is `Dict` followed, for each module on the way from
//! the root, by `_`, the length of the module's name, `_` and the name:
//! `Dict` for the root, `Dict_3_foo` for its module `foo`, `Dict_3_foo_3_bar`
//! for the module `bar` of `foo`. The lengths make the name readable in one
//! way only, whatever the names of the modules hold: two different paths
//! never give the same name.
use vstd::prelude::*;
use vstd::string::StrSliceExecFns;
use vstd::string::StringExecFns;

verus! {

/// The character for a digit.
pub open spec fn digit(d: nat) -> char {
    if d == 0 {
        '0'
    } else if d == 1 {
        '1'
    } else if d == 2 {
        '2'
    } else if d == 3 {
        '3'
    } else if d == 4 {
        '4'
    } else if d == 5 {
        '5'
    } else if d == 6 {
        '6'
    } else if d == 7 {
        '7'
    } else if d == 8 {
        '8'
    } else {
        '9'
    }
}

/// The number in decimal notation.
pub open spec fn digits(n: nat) -> Seq<char>
    decreases n,
{
    if n < 10 {
        seq![digit(n)]
    } else {
        digits(n / 10).push(digit(n % 10))
    }
}

/// What stands for one module in a name: `_`, the length of the module's
/// name, `_` and the name.
pub open spec fn segment(name: Seq<char>) -> Seq<char> {
    seq!['_'] + digits(name.len()) + seq!['_'] + name
}

/// What stands for the root in a name: nothing.
pub open spec fn root_stem() -> Seq<char> {
    ""@
}

/// What stands for the module `name`, itself below the module that `stem`
/// stands for.
pub open spec fn child_stem(stem: Seq<char>, name: Seq<char>) -> Seq<char> {
    stem + segment(name)
}

/// What stands for the module at the end of `path`, which holds the names
/// of the modules on the way from the root.
pub open spec fn module_stem(path: Seq<Seq<char>>) -> Seq<char>
    decreases path.len(),
{
    if path.len() == 0 {
        root_stem()
    } else {
        child_stem(module_stem(path.drop_last()), path.last())
    }
}

/// The name of the dispatch type of the module that `stem` stands for;
/// `Dict` for the root.
pub open spec fn dispatch_type_name(stem: Seq<char>) -> Seq<char> {
    "Dict"@ + stem
}

/// Whether the character is a decimal digit.
pub open spec fn is_digit(c: char) -> bool {
    c == '0' || c == '1' || c == '2' || c == '3' || c == '4' || c == '5' || c == '6' || c == '7'
        || c == '8' || c == '9'
}

/// Decimal notation has at least one character, and digits only.
pub proof fn lemma_digits(n: nat)
    ensures
        digits(n).len() >= 1,
        n >= 10 ==> digits(n).len() >= 2,
        forall|i: int| 0 <= i < digits(n).len() ==> is_digit(#[trigger] digits(n)[i]),
    decreases n,
{
    if n >= 10 {
        lemma_digits(n / 10);
    }
}

/// Two numbers with the same decimal notation are the same number.
pub proof fn lemma_digits_injective(a: nat, b: nat)
    requires
        digits(a) == digits(b),
    ensures
        a == b,
    decreases a,
{
    lemma_digits(a);
    lemma_digits(b);
    if a < 10 && b < 10 {
        assert(digits(a)[0] == digit(a));
        assert(digits(b)[0] == digit(b));
    } else if a >= 10 && b >= 10 {
        let da = digits(a / 10);
        let db = digits(b / 10);
        assert(digits(a).drop_last() =~= da);
        assert(digits(b).drop_last() =~= db);
        assert(digits(a).last() == digit(a % 10));
        assert(digits(b).last() == digit(b % 10));
        lemma_digits_injective(a / 10, b / 10);
        assert(a % 10 == b % 10);
    }
}

/// A name is read in one way only from the front of a text: where two texts
/// are the same and each starts with the segment of a name, the names are
/// the same, and so is what follows them.
pub proof fn lemma_segment_reads(a: Seq<char>, x: Seq<char>, b: Seq<char>, y: Seq<char>)
    requires
        segment(a) + x == segment(b) + y,
    ensures
        a == b,
        x == y,
{
    let s = segment(a) + x;
    let t = segment(b) + y;
    let da = digits(a.len());
    let db = digits(b.len());
    let na = da.len() as int;
    let nb = db.len() as int;
    lemma_digits(a.len());
    lemma_digits(b.len());
    // Where the digits stand, and the `_` after them.
    assert forall|i: int| 0 <= i < da.len() implies s[1 + i] == da[i] by {}
    assert forall|i: int| 0 <= i < db.len() implies t[1 + i] == db[i] by {}
    assert(s[1 + na] == '_');
    assert(t[1 + nb] == '_');
    if na < nb {
        assert(t[1 + na] == db[na]);
        assert(is_digit(db[na]));
        assert(false);
    }
    if nb < na {
        assert(s[1 + nb] == da[nb]);
        assert(is_digit(da[nb]));
        assert(false);
    }
    assert(da =~= db) by {
        assert forall|i: int| 0 <= i < da.len() implies da[i] == db[i] by {
            assert(s[1 + i] == da[i]);
            assert(t[1 + i] == db[i]);
        }
    }
    lemma_digits_injective(a.len(), b.len());
    let k = 2 + na;
    assert(a =~= b) by {
        assert forall|i: int| 0 <= i < a.len() implies a[i] == b[i] by {
            assert(s[k + i] == a[i]);
            assert(t[k + i] == b[i]);
        }
    }
    assert(segment(a).len() == k + a.len());
    assert(segment(b).len() == k + b.len());
    assert(s.len() == segment(a).len() + x.len());
    assert(t.len() == segment(b).len() + y.len());
    assert(s.len() == t.len());
    assert(a.len() == b.len());
    assert(x.len() == y.len());
    assert(x =~= y) by {
        assert forall|i: int| 0 <= i < x.len() implies x[i] == y[i] by {
            assert(s[k + a.len() + i] == x[i]);
            assert(t[k + b.len() + i] == y[i]);
        }
    }
}

/// What stands for the modules of a path, read from the front: the segment
/// of the first module, then what stands for the rest.
pub proof fn lemma_module_stem_front(first: Seq<char>, rest: Seq<Seq<char>>)
    ensures
        module_stem(seq![first] + rest) == segment(first) + module_stem(rest),
    decreases rest.len(),
{
    reveal_strlit("");
    let path = seq![first] + rest;
    if rest.len() == 0 {
        assert(""@.len() == 0);
        assert(path.drop_last() =~= Seq::<Seq<char>>::empty());
        assert(path.last() == first);
        assert(module_stem(path.drop_last()) == root_stem());
        assert(module_stem(rest) == root_stem());
        assert(module_stem(path) == root_stem() + segment(first));
        assert(root_stem() + segment(first) =~= segment(first) + root_stem());
        assert(module_stem(path) =~= segment(first) + module_stem(rest));
    } else {
        assert(path.drop_last() =~= seq![first] + rest.drop_last());
        assert(path.last() == rest.last());
        lemma_module_stem_front(first, rest.drop_last());
        assert(module_stem(path) =~= segment(first) + module_stem(rest));
    }
}

/// Two different paths never stand for the same module.
pub proof fn lemma_module_stem_injective(p: Seq<Seq<char>>, q: Seq<Seq<char>>)
    requires
        module_stem(p) == module_stem(q),
    ensures
        p == q,
    decreases p.len(),
{
    reveal_strlit("");
    if p.len() == 0 || q.len() == 0 {
        if p.len() > 0 {
            assert(p =~= seq![p[0]] + p.drop_first());
            lemma_module_stem_front(p[0], p.drop_first());
            assert(module_stem(p).len() > 0);
        }
        if q.len() > 0 {
            assert(q =~= seq![q[0]] + q.drop_first());
            lemma_module_stem_front(q[0], q.drop_first());
            assert(module_stem(q).len() > 0);
        }
        assert(p =~= q);
    } else {
        let p_rest = p.drop_first();
        let q_rest = q.drop_first();
        assert(p =~= seq![p[0]] + p_rest);
        assert(q =~= seq![q[0]] + q_rest);
        lemma_module_stem_front(p[0], p_rest);
        lemma_module_stem_front(q[0], q_rest);
        lemma_segment_reads(p[0], module_stem(p_rest), q[0], module_stem(q_rest));
        lemma_module_stem_injective(p_rest, q_rest);
        assert(p =~= q);
    }
}

/// The names of the dispatch types are unique: the modules at two different
/// paths never get the same type name, whatever characters the names of
/// the modules hold. A path holds the names of the modules on the way from
/// the root; the root's own path is empty, and its type is `Dict`.
pub proof fn theorem_type_names_unique(p: Seq<Seq<char>>, q: Seq<Seq<char>>)
    requires
        dispatch_type_name(module_stem(p)) == dispatch_type_name(module_stem(q)),
    ensures
        p == q,
{
    let a = module_stem(p);
    let b = module_stem(q);
    let head = "Dict"@;
    assert((head + a).skip(head.len() as int) =~= a);
    assert((head + b).skip(head.len() as int) =~= b);
    lemma_module_stem_injective(p, q);
}

/// The module `name` of the module at `path` stands at the path that is
/// one name longer: the generator, which goes from a module to its modules
/// with [`child_stem`], names the type of each module after its path.
pub proof fn lemma_child_of_path(path: Seq<Seq<char>>, name: Seq<char>)
    ensures
        child_stem(module_stem(path), name) == module_stem(path.push(name)),
{
    assert(path.push(name).drop_last() =~= path);
}

/// The type of the root is `Dict`.
pub proof fn theorem_root_type_is_dict()
    ensures
        dispatch_type_name(module_stem(Seq::empty())) == "Dict"@,
{
    reveal_strlit("");
    assert("Dict"@ + ""@ =~= "Dict"@);
}

/// The character for a digit.
fn digit_char(d: usize) -> (c: char)
    requires
        d < 10,
    ensures
        c == digit(d as nat),
{
    if d == 0 {
        '0'
    } else if d == 1 {
        '1'
    } else if d == 2 {
        '2'
    } else if d == 3 {
        '3'
    } else if d == 4 {
        '4'
    } else if d == 5 {
        '5'
    } else if d == 6 {
        '6'
    } else if d == 7 {
        '7'
    } else if d == 8 {
        '8'
    } else {
        '9'
    }
}

/// The number in decimal notation.
pub fn decimal(n: usize) -> (text: String)
    ensures
        text@ == digits(n as nat),
    decreases n,
{
    if n < 10 {
        let mut text = String::new();
        text.push(digit_char(n));
        proof {
            assert(text@ =~= seq![digit(n as nat)]);
        }
        text
    } else {
        let mut text = decimal(n / 10);
        text.push(digit_char(n % 10));
        text
    }
}

/// What stands for the module `name` below the module that `stem` stands
/// for, and the name of that module's dispatch type.
pub fn child_names(stem: &str, name: &str) -> (r: (String, String))
    ensures
        r.0@ == child_stem(stem@, name@),
        r.1@ == dispatch_type_name(child_stem(stem@, name@)),
{
    let mut child = String::from_str(stem);
    child.push('_');
    child.append(decimal(name.unicode_len()).as_str());
    child.push('_');
    child.append(name);
    proof {
        assert(child@ =~= child_stem(stem@, name@));
    }
    let mut ty = String::from_str("Dict");
    ty.append(child.as_str());
    (child, ty)
}

/// The name of the dispatch type of the module that `stem` stands for.
pub fn type_name_of(stem: &str) -> (name: String)
    ensures
        name@ == dispatch_type_name(stem@),
{
    let mut name = String::from_str("Dict");
    name.append(stem);
    name
}

} // verus!
