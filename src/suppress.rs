use vstd::prelude::*;
use crate::params::name_starts_with;
use crate::syntax::{Decorator, FunctionDef};
use crate::text::{chars_of, eq_ignore_ascii_case, equal_ignoring_ascii_case, equal_to};

verus! {

/// The decorators that exempt a function from the rules.
#[derive(Clone, Copy, Debug, PartialEq, Eq, Structural)]
pub enum Mark {
    Overload,
    Property,
    CachedProperty,
    Fixture,
}

/// Whether decorator `d` is one of kind `m`: by its final name, ASCII case ignored, except
/// for `typing.overload` and a called `x.fixture(...)`, which are matched exactly.
pub open spec fn marks(d: Decorator, m: Mark) -> bool {
    match m {
        Mark::Overload => match d {
            Decorator::Name(n) => eq_ignore_ascii_case(n@, "overload"@),
            Decorator::CallName(n) => eq_ignore_ascii_case(n@, "overload"@),
            Decorator::Attribute { base, attr } => base matches Some(b) && b@ == "typing"@
                && attr@ == "overload"@,
            _ => false,
        },
        Mark::Property => match d {
            Decorator::Name(n) => eq_ignore_ascii_case(n@, "property"@),
            Decorator::CallName(n) => eq_ignore_ascii_case(n@, "property"@),
            _ => false,
        },
        Mark::CachedProperty => match d {
            Decorator::Name(n) => eq_ignore_ascii_case(n@, "cached_property"@),
            Decorator::CallName(n) => eq_ignore_ascii_case(n@, "cached_property"@),
            Decorator::CallAttribute(a) => eq_ignore_ascii_case(a@, "cached_property"@),
            Decorator::Attribute { base, attr } => eq_ignore_ascii_case(attr@, "cached_property"@),
            _ => false,
        },
        Mark::Fixture => match d {
            Decorator::Name(n) => eq_ignore_ascii_case(n@, "fixture"@),
            Decorator::CallName(n) => eq_ignore_ascii_case(n@, "fixture"@),
            Decorator::CallAttribute(a) => a@ == "fixture"@,
            Decorator::Attribute { base, attr } => eq_ignore_ascii_case(attr@, "fixture"@),
            _ => false,
        },
    }
}

fn name_is(n: &String, word: &str) -> (r: bool)
    ensures
        r == eq_ignore_ascii_case(n@, word@),
{
    equal_ignoring_ascii_case(&chars_of(n.as_str()), word)
}

fn name_equals(n: &String, word: &str) -> (r: bool)
    ensures
        r == (n@ == word@),
{
    equal_to(&chars_of(n.as_str()), word)
}

/// Whether decorator `d` is one of kind `m` (see `marks`).
pub fn decorator_marks(d: &Decorator, m: Mark) -> (r: bool)
    ensures
        r == marks(*d, m),
{
    match m {
        Mark::Overload => match d {
            Decorator::Name(n) => name_is(n, "overload"),
            Decorator::CallName(n) => name_is(n, "overload"),
            Decorator::Attribute { base, attr } => match base {
                Some(b) => name_equals(b, "typing") && name_equals(attr, "overload"),
                None => false,
            },
            _ => false,
        },
        Mark::Property => match d {
            Decorator::Name(n) => name_is(n, "property"),
            Decorator::CallName(n) => name_is(n, "property"),
            _ => false,
        },
        Mark::CachedProperty => match d {
            Decorator::Name(n) => name_is(n, "cached_property"),
            Decorator::CallName(n) => name_is(n, "cached_property"),
            Decorator::CallAttribute(a) => name_is(a, "cached_property"),
            Decorator::Attribute { base: _, attr } => name_is(attr, "cached_property"),
            _ => false,
        },
        Mark::Fixture => match d {
            Decorator::Name(n) => name_is(n, "fixture"),
            Decorator::CallName(n) => name_is(n, "fixture"),
            Decorator::CallAttribute(a) => name_equals(a, "fixture"),
            Decorator::Attribute { base: _, attr } => name_is(attr, "fixture"),
            _ => false,
        },
    }
}

/// Some decorator of the list is of kind `m`.
pub open spec fn has_mark(decs: Seq<Decorator>, m: Mark) -> bool {
    exists|i: int| 0 <= i < decs.len() && marks(#[trigger] decs[i], m)
}

/// Whether some decorator of `decs` is of kind `m`.
pub fn any_mark(decs: &Vec<Decorator>, m: Mark) -> (r: bool)
    ensures
        r == has_mark(decs@, m),
{
    let mut i: usize = 0;
    while i < decs.len()
        invariant
            i <= decs@.len(),
            forall|j: int| 0 <= j < i ==> !marks(#[trigger] decs@[j], m),
        decreases decs@.len() - i,
    {
        if decorator_marks(&decs[i], m) {
            return true;
        }
        i = i + 1;
    }
    false
}

pub open spec fn has_prefix(s: Seq<char>, p: Seq<char>) -> bool {
    p.len() <= s.len() && s.subrange(0, p.len() as int) == p
}

/// The function is exempt from a rule: it is an overload, a property or a cached property; or,
/// in a test file, a test or a fixture; or, where `skip_private`, its name starts with `_`.
pub open spec fn suppressed(d: FunctionDef, is_test_file: bool, skip_private: bool) -> bool {
    has_mark(d.decorators@, Mark::Overload) || has_mark(d.decorators@, Mark::Property) || (
    is_test_file && has_prefix(d.name@, "test_"@)) || has_mark(d.decorators@, Mark::CachedProperty)
        || (is_test_file && has_mark(d.decorators@, Mark::Fixture)) || (skip_private
        && has_prefix(d.name@, "_"@))
}

/// Whether a rule that looks for something missing leaves the function alone; private
/// functions are exempt from such rules.
pub fn should_skip(d: &FunctionDef, is_test_file: bool) -> (r: bool)
    ensures
        r == suppressed(*d, is_test_file, true),
{
    should_skip_dont_skip_private(d, is_test_file) || name_starts_with(&d.name, "_")
}

/// Whether a rule that looks for something superfluous leaves the function alone; private
/// functions are still checked by such rules.
pub fn should_skip_dont_skip_private(d: &FunctionDef, is_test_file: bool) -> (r: bool)
    ensures
        r == suppressed(*d, is_test_file, false),
{
    any_mark(&d.decorators, Mark::Overload) || any_mark(&d.decorators, Mark::Property) || (
    is_test_file && name_starts_with(&d.name, "test_")) || any_mark(
        &d.decorators,
        Mark::CachedProperty,
    ) || (is_test_file && any_mark(&d.decorators, Mark::Fixture))
}

/// Whether a file is a test file: its base name starts with `test_` or equals `conftest.py`.
pub open spec fn test_file_spec(path: Seq<char>) -> bool {
    let base = base_name(path, path.len() as int);
    has_prefix(base, "test_"@) || base == "conftest.py"@
}

/// What follows the last `/` among the first `n` characters (all of them if there is none).
pub open spec fn base_name(path: Seq<char>, n: int) -> Seq<char>
    decreases n,
{
    if n <= 0 || n > path.len() {
        path
    } else if path[n - 1] == '/' {
        path.subrange(n, path.len() as int)
    } else {
        base_name(path, n - 1)
    }
}

/// Whether `file_name` names a test file: its base name starts with `test_` or equals
/// `conftest.py` (see `test_file_spec`). No name is no test file.
pub fn is_test_file(file_name: Option<&str>) -> (r: bool)
    ensures
        r == (file_name matches Some(f) && test_file_spec(f@)),
{
    match file_name {
        Some(f) => {
            let cs = chars_of(f);
            let mut n: usize = cs.len();
            while n > 0 && cs[n - 1] != '/'
                invariant
                    n <= cs@.len(),
                    cs@ == f@,
                    base_name(cs@, n as int) == base_name(cs@, cs@.len() as int),
                decreases n,
            {
                n = n - 1;
            }
            let base = crate::text::copy_range(&cs, n, cs.len());
            proof {
                if n == 0 {
                    assert(cs@.subrange(0, cs@.len() as int) =~= cs@);
                }
            }
            let s = crate::text::string_of(base.as_slice());
            name_starts_with(&s, "test_") || equal_to(&base, "conftest.py")
        },
        None => false,
    }
}

} // verus!
