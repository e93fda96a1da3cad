//! Character and string helpers: comparison, prefix stripping, dotted names
//! and snake case.

use vstd::prelude::*;

verus! {

/// Whether `prefix` is a prefix of `s`.
pub open spec fn has_prefix(s: Seq<char>, prefix: Seq<char>) -> bool {
    prefix.len() <= s.len() && s.subrange(0, prefix.len() as int) == prefix
}

/// Index of the last `'.'` in `s`, or `-1` when there is none.
pub open spec fn last_dot(s: Seq<char>) -> int
    decreases s.len(),
{
    if s.len() == 0 {
        -1
    } else if s.last() == '.' {
        s.len() - 1
    } else {
        last_dot(s.drop_last())
    }
}

/// The part of a dotted name after its last `'.'` (the whole name when it
/// has no dot): what `rsplit('.').next()` yields.
pub open spec fn last_segment(s: Seq<char>) -> Seq<char> {
    s.subrange(last_dot(s) + 1, s.len() as int)
}

/// What `char::to_ascii_lowercase` returns: `'A'..='Z'` become
/// `'a'..='z'`, every other character is unchanged.
pub open spec fn ascii_lowercase(c: char) -> char {
    if 'A' <= c && c <= 'Z' {
        ((c as u32) + 32) as char
    } else {
        c
    }
}

/// Whether a character outside ASCII has the Unicode `Uppercase`
/// property.
pub uninterp spec fn beyond_ascii_uppercase(c: char) -> bool;

/// Whether `char::is_uppercase` holds of `c`: whether `c` has the Unicode
/// `Uppercase` property. Among ASCII characters exactly `'A'..='Z'` have it;
/// beyond ASCII the property is named `beyond_ascii_uppercase`.
pub open spec fn char_is_uppercase(c: char) -> bool {
    if (c as u32) < 128 {
        'A' <= c && c <= 'Z'
    } else {
        beyond_ascii_uppercase(c)
    }
}

/// Snake case of `chars`, where `upper[i]` tells whether `chars[i]` counts
/// as uppercase: every character is ASCII-lowercased, and an uppercase
/// character other than the first is preceded by `'_'`.
pub open spec fn snake_case_with(chars: Seq<char>, upper: Seq<bool>) -> Seq<char>
    decreases chars.len(),
{
    if chars.len() == 0 {
        Seq::empty()
    } else {
        let n = chars.len() - 1;
        let sep: Seq<char> = if n > 0 && upper[n] {
            seq!['_']
        } else {
            Seq::empty()
        };
        snake_case_with(chars.drop_last(), upper) + sep + seq![ascii_lowercase(chars.last())]
    }
}

/// Snake case of `s`, with uppercase in the sense of `char::is_uppercase`.
pub open spec fn spec_to_snake_case(s: Seq<char>) -> Seq<char> {
    snake_case_with(s, Seq::new(s.len(), |i: int| char_is_uppercase(s[i])))
}

/// Calls `char::is_uppercase`, which tells whether `c` has the Unicode
/// `Uppercase` property (as the Unicode Character Database defines it):
/// for an ASCII character, whether it is in `'A'..='Z'`; beyond ASCII the
/// result is the named property `beyond_ascii_uppercase` of the argument,
/// of which nothing more is claimed.
#[verifier::external_body]
fn is_uppercase(c: char) -> (res: bool)
    ensures
        (c as u32) < 128 ==> res == ('A' <= c && c <= 'Z'),
        (c as u32) >= 128 ==> res == beyond_ascii_uppercase(c),
{
    c.is_uppercase()
}

/// `c` with `'A'..='Z'` mapped to `'a'..='z'`, as `char::to_ascii_lowercase`
/// does.
fn to_ascii_lowercase(c: char) -> (res: char)
    ensures
        res == ascii_lowercase(c),
{
    if 'A' <= c && c <= 'Z' {
        let code: u8 = c as u8;
        assert(code == c as u32);
        ((code + 32) as char)
    } else {
        c
    }
}

/// Calls `String::push`, which appends `c` to the end of `s`.
#[verifier::external_body]
pub(crate) fn push_char(s: &mut String, c: char)
    ensures
        final(s)@ == old(s)@.push(c),
{
    s.push(c)
}

/// Whether `a` and `b` hold the same characters.
pub fn str_eq(a: &str, b: &str) -> (res: bool)
    ensures
        res == (a@ == b@),
{
    let n = a.unicode_len();
    if n != b.unicode_len() {
        return false;
    }
    let mut i: usize = 0;
    while i < n
        invariant
            n == a@.len(),
            n == b@.len(),
            0 <= i <= n,
            forall|j: int| 0 <= j < i ==> a@[j] == b@[j],
        decreases n - i,
    {
        if a.get_char(i) != b.get_char(i) {
            return false;
        }
        i = i + 1;
    }
    assert(a@ =~= b@);
    true
}

/// `s` with `prefix` removed from its front, or `None` when `s` does not
/// start with `prefix`.
pub fn strip_prefix(s: &str, prefix: &str) -> (res: Option<String>)
    ensures
        match res {
            Some(rest) => has_prefix(s@, prefix@) && rest@ == s@.subrange(
                prefix@.len() as int,
                s@.len() as int,
            ),
            None => !has_prefix(s@, prefix@),
        },
{
    let n = s.unicode_len();
    let p = prefix.unicode_len();
    if p > n {
        return None;
    }
    let mut i: usize = 0;
    while i < p
        invariant
            n == s@.len(),
            p == prefix@.len(),
            p <= n,
            0 <= i <= p,
            forall|j: int| 0 <= j < i ==> s@[j] == prefix@[j],
        decreases p - i,
    {
        if s.get_char(i) != prefix.get_char(i) {
            assert(s@.subrange(0, p as int)[i as int] != prefix@[i as int]);
            return None;
        }
        i = i + 1;
    }
    assert(s@.subrange(0, p as int) =~= prefix@);
    let rest = s.substring_char(p, n);
    Some(String::from_str(rest))
}

/// The part of the dotted name `s` after its last `'.'`.
pub fn last_name_segment(s: &str) -> (res: String)
    ensures
        res@ == last_segment(s@),
{
    let n = s.unicode_len();
    let mut i: usize = n;
    assert(s@.subrange(0, n as int) =~= s@);
    while i > 0
        invariant
            n == s@.len(),
            0 <= i <= n,
            last_dot(s@) == last_dot(s@.subrange(0, i as int)),
        ensures
            0 <= i <= n,
            last_dot(s@) == last_dot(s@.subrange(0, i as int)),
            i == 0 || s@[i - 1] == '.',
        decreases i,
    {
        if s.get_char(i - 1) == '.' {
            break;
        }
        assert(s@.subrange(0, i as int).drop_last() =~= s@.subrange(0, i - 1));
        i = i - 1;
    }
    proof {
        if i > 0 {
            assert(s@.subrange(0, i as int).last() == '.');
        }
    }
    let rest = s.substring_char(i, n);
    String::from_str(rest)
}

/// Snake case of `s` given, for each character, whether it counts as
/// uppercase.
pub fn to_snake_case_with(s: &str, upper: &Vec<bool>) -> (res: String)
    requires
        upper@.len() == s@.len(),
    ensures
        res@ == snake_case_with(s@, upper@),
{
    let n = s.unicode_len();
    let mut snake = String::new();
    let mut i: usize = 0;
    while i < n
        invariant
            n == s@.len(),
            upper@.len() == n,
            0 <= i <= n,
            snake@ == snake_case_with(s@.subrange(0, i as int), upper@),
        decreases n - i,
    {
        let ch = s.get_char(i);
        if i > 0 && upper[i] {
            push_char(&mut snake, '_');
        }
        push_char(&mut snake, to_ascii_lowercase(ch));
        proof {
            let t = s@.subrange(0, i + 1);
            assert(t.drop_last() =~= s@.subrange(0, i as int));
            assert(t.last() == ch);
        }
        i = i + 1;
    }
    assert(s@.subrange(0, n as int) =~= s@);
    snake
}

/// Converts a name such as an operation id to snake case: every character
/// is ASCII-lowercased, and each uppercase character other than the first is
/// preceded by `'_'`.
pub fn to_snake_case(s: &str) -> (res: String)
    ensures
        res@ == spec_to_snake_case(s@),
{
    let n = s.unicode_len();
    let mut upper: Vec<bool> = Vec::new();
    let mut i: usize = 0;
    while i < n
        invariant
            n == s@.len(),
            0 <= i <= n,
            upper@.len() == i,
            forall|j: int| 0 <= j < i ==> upper@[j] == char_is_uppercase(s@[j]),
        decreases n - i,
    {
        upper.push(is_uppercase(s.get_char(i)));
        i = i + 1;
    }
    assert(upper@ =~= Seq::new(s@.len(), |j: int| char_is_uppercase(s@[j])));
    to_snake_case_with(s, &upper)
}

} // verus!
