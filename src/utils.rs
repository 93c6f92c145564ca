use vstd::prelude::*;
use vstd::string::StrSliceExecFns;
use vstd::string::StringExecFns;
use crate::errors::CliError;

verus! {

/// What `str::to_lowercase` makes of a string.
pub uninterp spec fn lower_of(s: Seq<char>) -> Seq<char>;

/// Whether a character has the Unicode White_Space property.
pub uninterp spec fn white_space(c: char) -> bool;

/// Relies on `str::to_lowercase`: the lowercase form depends on the characters alone.
#[verifier::external_body]
pub(crate) fn lowercase(s: &str) -> (r: String)
    ensures
        r@ == lower_of(s@),
{
    s.to_lowercase()
}

/// Relies on `char::is_whitespace`: true exactly for White_Space characters.
#[verifier::external_body]
fn is_white_space(c: char) -> (r: bool)
    ensures
        r == white_space(c),
{
    c.is_whitespace()
}

/// The characters of `s` that are not white space, in order.
pub open spec fn without_white_space(s: Seq<char>) -> Seq<char> {
    s.filter(|c: char| !white_space(c))
}

/// Removes every white-space character; the rest keeps its order.
pub fn remove_white_space(s: &str) -> (r: String)
    ensures
        r@ == without_white_space(s@),
{
    let n = s.unicode_len();
    let mut out = String::new();
    let mut i: usize = 0;
    while i < n
        invariant
            n == s@.len(),
            i <= n,
            out@ == without_white_space(s@.subrange(0, i as int)),
        decreases n - i,
    {
        let c = s.get_char(i);
        proof {
            reveal(Seq::filter);
            assert(s@.subrange(0, i + 1).drop_last() == s@.subrange(0, i as int));
        }
        if !is_white_space(c) {
            out.append(s.substring_char(i, i + 1));
            assert(s@.subrange(i as int, i + 1) == seq![c]);
        }
        i = i + 1;
    }
    assert(s@.subrange(0, n as int) == s@);
    out
}

/// The slug of a name: lowercased, with all white space taken out.
pub fn slugify(s: String) -> (r: String)
    ensures
        r@ == without_white_space(lower_of(s@)),
{
    let lowered = lowercase(s.as_str());
    remove_white_space(lowered.as_str())
}

/// Whether two strings hold the same characters.
pub fn str_eq(a: &str, b: &str) -> (r: bool)
    ensures
        r == (a@ == b@),
{
    let n = a.unicode_len();
    if n != b.unicode_len() {
        return false;
    }
    let mut i: usize = 0;
    while i < n
        invariant
            n == a@.len() == b@.len(),
            i <= n,
            a@.subrange(0, i as int) == b@.subrange(0, i as int),
        decreases n - i,
    {
        if a.get_char(i) != b.get_char(i) {
            return false;
        }
        assert(a@.subrange(0, i + 1) == a@.subrange(0, i as int).push(a@[i as int]));
        assert(b@.subrange(0, i + 1) == b@.subrange(0, i as int).push(b@[i as int]));
        i = i + 1;
    }
    assert(a@ == a@.subrange(0, n as int));
    assert(b@ == b@.subrange(0, n as int));
    true
}

/// `prefix` occurs in `s` at position `at`.
pub open spec fn occurs_at(s: Seq<char>, prefix: Seq<char>, at: int) -> bool {
    0 <= at && at + prefix.len() <= s.len() && s.subrange(at, at + prefix.len()) == prefix
}

/// Whether `prefix` occurs in `s` at position `at`.
fn matches_at(s: &str, prefix: &str, at: usize) -> (r: bool)
    requires
        at <= s@.len(),
    ensures
        r == occurs_at(s@, prefix@, at as int),
{
    let n = s.unicode_len();
    let m = prefix.unicode_len();
    if m > n - at {
        return false;
    }
    let mut i: usize = 0;
    while i < m
        invariant
            n == s@.len(),
            m == prefix@.len(),
            at + m <= n,
            i <= m,
            s@.subrange(at as int, at + i) == prefix@.subrange(0, i as int),
        decreases m - i,
    {
        if s.get_char(at + i) != prefix.get_char(i) {
            assert(s@.subrange(at as int, at + m)[i as int] == s@[at + i]);
            return false;
        }
        assert(s@.subrange(at as int, at + i + 1) == s@.subrange(at as int, at + i).push(
            s@[at + i],
        ));
        assert(prefix@.subrange(0, i + 1) == prefix@.subrange(0, i as int).push(prefix@[i as int]));
        i = i + 1;
    }
    assert(prefix@ == prefix@.subrange(0, m as int));
    true
}

/// Whether `s` begins with `prefix`.
pub fn starts_with(s: &str, prefix: &str) -> (r: bool)
    ensures
        r == occurs_at(s@, prefix@, 0),
{
    matches_at(s, prefix, 0)
}

/// Position of the first occurrence of `pat` in `s`, if any.
pub fn find_str(s: &str, pat: &str) -> (r: Option<usize>)
    ensures
        match r {
            Some(i) => occurs_at(s@, pat@, i as int) && forall|j: int|
                0 <= j < i ==> !occurs_at(s@, pat@, j),
            None => forall|j: int| 0 <= j <= s@.len() ==> !occurs_at(s@, pat@, j),
        },
{
    let n = s.unicode_len();
    let mut i: usize = 0;
    while i < n
        invariant
            n == s@.len(),
            i <= n,
            forall|j: int| 0 <= j < i ==> !occurs_at(s@, pat@, j),
        decreases n - i,
    {
        if matches_at(s, pat, i) {
            return Some(i);
        }
        i = i + 1;
    }
    if matches_at(s, pat, n) {
        Some(n)
    } else {
        None
    }
}

/// Whether `pat` occurs somewhere in `s`.
pub fn contains_str(s: &str, pat: &str) -> (r: bool)
    ensures
        r == exists|j: int| occurs_at(s@, pat@, j),
{
    match find_str(s, pat) {
        Some(_) => true,
        None => {
            proof {
                assert forall|j: int| !occurs_at(s@, pat@, j) by {
                    if occurs_at(s@, pat@, j) {
                        assert(0 <= j <= s@.len());
                    }
                }
            }
            false
        },
    }
}

/// The first position of `::` in `input`, when there is one.
pub open spec fn first_separator(input: Seq<char>) -> Option<int> {
    if exists|j: int| occurs_at(input, "::"@, j) {
        Some(
            choose|at: int|
                occurs_at(input, "::"@, at) && forall|j: int| 0 <= j < at ==> !occurs_at(input, "::"@, j),
        )
    } else {
        None
    }
}

/// A `<field>::<argument>` directive split at its first `::`.
pub open spec fn split_directive(input: Seq<char>) -> Option<(Seq<char>, Seq<char>)> {
    match first_separator(input) {
        Some(at) => Some((input.subrange(0, at), input.subrange(at + 2, input.len() as int))),
        None => None,
    }
}

/// Splits a `<field>::<argument>` directive at its first `::`; fails with
/// `Directive` when there is none.
pub fn partition_directive(input: &str) -> (r: Result<(String, String), CliError>)
    ensures
        r is Ok <==> split_directive(input@) is Some,
        r is Ok ==> split_directive(input@) == Some((r->Ok_0.0@, r->Ok_0.1@)),
        r is Err ==> r->Err_0 is Directive && r->Err_0->Directive_input@ == input@,
{
    proof {
        reveal_strlit("::");
    }
    match find_str(input, "::") {
        Some(at) => {
            proof {
                let c = choose|c: int|
                    occurs_at(input@, "::"@, c) && forall|j: int|
                        0 <= j < c ==> !occurs_at(input@, "::"@, j);
                assert(occurs_at(input@, "::"@, at as int));
                assert(first_separator(input@) == Some(c));
                if c < at {
                    assert(!occurs_at(input@, "::"@, c));
                } else if c > at {
                    assert(!occurs_at(input@, "::"@, at as int));
                }
            }
            let n = input.unicode_len();
            let field = input.substring_char(0, at).to_owned();
            let arg = input.substring_char(at + 2, n).to_owned();
            Ok((field, arg))
        },
        None => {
            proof {
                assert forall|j: int| !occurs_at(input@, "::"@, j) by {
                    if occurs_at(input@, "::"@, j) {
                        assert(0 <= j <= input@.len());
                    }
                }
            }
            Err(
                CliError::Directive {
                    input: input.to_owned(),
                    context: "directive incomplete (use <field>::<argument>)".to_owned(),
                },
            )
        },
    }
}

} // verus!
