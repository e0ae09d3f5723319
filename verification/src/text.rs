//! Character-level string helpers with exact specifications.

use vstd::prelude::*;

verus! {

/// A decimal digit `0`..`9`.
pub open spec fn is_digit(c: char) -> bool {
    '0' <= c && c <= '9'
}

/// Copies the characters of `s` into a vector.
pub fn chars_of(s: &str) -> (v: Vec<char>)
    ensures
        v@ == s@,
{
    let n = s.unicode_len();
    let mut v: Vec<char> = Vec::new();
    let mut i: usize = 0;
    while i < n
        invariant
            n == s@.len(),
            i <= n,
            v@ == s@.subrange(0, i as int),
        decreases n - i,
    {
        let c = s.get_char(i);
        v.push(c);
        i = i + 1;
    }
    assert(s@.subrange(0, n as int) =~= s@);
    v
}

/// Appends one character to a string (`String::push`).
#[verifier::external_body]
pub(crate) fn push_char(s: &mut String, c: char)
    ensures
        final(s)@ == old(s)@.push(c),
{
    s.push(c);
}

/// Builds a string from a sequence of characters.
pub fn string_of(v: &[char]) -> (s: String)
    ensures
        s@ == v@,
{
    let mut s = String::new();
    let mut i: usize = 0;
    while i < v.len()
        invariant
            i <= v@.len(),
            s@ == v@.subrange(0, i as int),
        decreases v@.len() - i,
    {
        push_char(&mut s, v[i]);
        i = i + 1;
    }
    assert(v@.subrange(0, v@.len() as int) =~= v@);
    s
}

/// Concatenates two strings.
pub fn concat(a: &str, b: &str) -> (s: String)
    ensures
        s@ == a@ + b@,
{
    let mut s = a.to_string();
    s.append(b);
    s
}


/// `sub` occurs in `s` starting at position `i`.
pub open spec fn occurs_at(s: Seq<char>, sub: Seq<char>, i: int) -> bool {
    0 <= i && i + sub.len() <= s.len() && s.subrange(i, i + sub.len()) == sub
}

/// `sub` occurs somewhere in `s` (the empty sequence occurs everywhere).
pub open spec fn has_substring(s: Seq<char>, sub: Seq<char>) -> bool {
    exists|i: int| occurs_at(s, sub, i)
}

/// `p` is a prefix of `s`.
pub open spec fn starts_with(s: Seq<char>, p: Seq<char>) -> bool {
    p.len() <= s.len() && s.subrange(0, p.len() as int) == p
}

/// `s` starts with `p` exactly when `s` is `p` followed by something.
pub proof fn lemma_starts_with_split(s: Seq<char>, p: Seq<char>)
    ensures
        starts_with(s, p) <==> exists|c: Seq<char>| s == p + c,
{
    if starts_with(s, p) {
        let c = s.subrange(p.len() as int, s.len() as int);
        assert(s =~= p + c);
    }
    if exists|c: Seq<char>| s == p + c {
        let c = choose|c: Seq<char>| s == p + c;
        assert(s.subrange(0, p.len() as int) =~= p);
    }
}

/// `sub` occurs in `s` exactly when `s` is something, then `sub`, then
/// something.
pub proof fn lemma_has_substring_split(s: Seq<char>, sub: Seq<char>)
    ensures
        has_substring(s, sub) <==> exists|a: Seq<char>, c: Seq<char>| s == a + sub + c,
{
    if has_substring(s, sub) {
        let i = choose|i: int| occurs_at(s, sub, i);
        let a = s.subrange(0, i);
        let c = s.subrange(i + sub.len(), s.len() as int);
        assert(s =~= a + sub + c);
    }
    if exists|a: Seq<char>, c: Seq<char>| s == a + sub + c {
        let (a, c) = choose|a: Seq<char>, c: Seq<char>| s == a + sub + c;
        assert(s.subrange(a.len() as int, a.len() + sub.len() as int) =~= sub);
        assert(occurs_at(s, sub, a.len() as int));
    }
}

/// `p` is a suffix of `s`.
pub open spec fn ends_with(s: Seq<char>, p: Seq<char>) -> bool {
    p.len() <= s.len() && s.subrange(s.len() - p.len(), s.len() as int) == p
}

/// Whether `sub` occurs in `s` at position `i`.
pub fn matches_at(s: &[char], sub: &[char], i: usize) -> (r: bool)
    ensures
        r == occurs_at(s@, sub@, i as int),
{
    if sub.len() > s.len() || i > s.len() - sub.len() {
        return false;
    }
    let mut j: usize = 0;
    while j < sub.len()
        invariant
            i + sub@.len() <= s@.len(),
            i + sub.len() <= s.len(),
            j <= sub@.len(),
            forall|k: int| 0 <= k < j ==> s@[i + k] == sub@[k],
        decreases sub@.len() - j,
    {
        if s[i + j] != sub[j] {
            assert(s@.subrange(i as int, i + sub@.len())[j as int] != sub@[j as int]);
            return false;
        }
        j = j + 1;
    }
    assert(s@.subrange(i as int, i + sub@.len()) =~= sub@);
    true
}

/// Whether `sub` occurs anywhere in `s`.
pub fn contains_chars(s: &[char], sub: &[char]) -> (r: bool)
    ensures
        r == has_substring(s@, sub@),
{
    if sub.len() > s.len() {
        return false;
    }
    let last = s.len() - sub.len();
    let mut i: usize = 0;
    while i <= last
        invariant
            last == s@.len() - sub@.len(),
            i <= last + 1,
            forall|k: int| 0 <= k < i ==> !occurs_at(s@, sub@, k),
        decreases last + 1 - i,
    {
        if matches_at(s, sub, i) {
            return true;
        }
        if i == last {
            return false;
        }
        i = i + 1;
    }
    false
}

/// `str::contains` on character sequences.
pub fn str_contains(s: &str, sub: &str) -> (r: bool)
    ensures
        r == has_substring(s@, sub@),
{
    let a = chars_of(s);
    let b = chars_of(sub);
    contains_chars(a.as_slice(), b.as_slice())
}

/// `str::starts_with`.
pub fn str_starts_with(s: &str, p: &str) -> (r: bool)
    ensures
        r == starts_with(s@, p@),
{
    let a = chars_of(s);
    let b = chars_of(p);
    matches_at(a.as_slice(), b.as_slice(), 0)
}

/// `str::ends_with`.
pub fn str_ends_with(s: &str, p: &str) -> (r: bool)
    ensures
        r == ends_with(s@, p@),
{
    let a = chars_of(s);
    let b = chars_of(p);
    if b.len() > a.len() {
        return false;
    }
    matches_at(a.as_slice(), b.as_slice(), a.len() - b.len())
}

/// Equality of two strings by their characters.
pub fn str_eq(a: &str, b: &str) -> (r: bool)
    ensures
        r == (a@ == b@),
{
    let x = chars_of(a);
    let y = chars_of(b);
    if x.len() != y.len() {
        assert(x@.len() != y@.len());
        return false;
    }
    let r = matches_at(x.as_slice(), y.as_slice(), 0);
    assert(x@.subrange(0, y@.len() as int) =~= x@);
    r
}

/// The characters of `s` from position `from` (inclusive) to `to` (exclusive).
pub fn substring(s: &[char], from: usize, to: usize) -> (r: String)
    requires
        from <= to <= s@.len(),
    ensures
        r@ == s@.subrange(from as int, to as int),
{
    let mut r = String::new();
    let mut i = from;
    while i < to
        invariant
            from <= i <= to <= s@.len(),
            r@ == s@.subrange(from as int, i as int),
        decreases to - i,
    {
        push_char(&mut r, s[i]);
        assert(s@.subrange(from as int, i + 1) =~= s@.subrange(from as int, i as int).push(s@[i as int]));
        i = i + 1;
    }
    r
}

/// Position of the first occurrence of `sub` in `s`, from position `i` on.
pub open spec fn first_at(s: Seq<char>, sub: Seq<char>, i: int) -> Option<int>
    decreases s.len() + 1 - i,
{
    if i < 0 || i > s.len() {
        None
    } else if occurs_at(s, sub, i) {
        Some(i)
    } else {
        first_at(s, sub, i + 1)
    }
}

/// Position of the last occurrence of `sub` in `s` starting at or before `i`.
pub open spec fn last_at(s: Seq<char>, sub: Seq<char>, i: int) -> Option<int>
    decreases i + 1,
{
    if i < 0 || i > s.len() {
        None
    } else if occurs_at(s, sub, i) {
        Some(i)
    } else {
        last_at(s, sub, i - 1)
    }
}

/// `str::find` with a string pattern, by character position.
pub fn find_chars(s: &[char], sub: &[char]) -> (r: Option<usize>)
    ensures
        r matches Some(i) ==> first_at(s@, sub@, 0) == Some(i as int) && i + sub@.len() <= s@.len(),
        r is None ==> first_at(s@, sub@, 0) is None,
{
    let mut i: usize = 0;
    while i < s.len()
        invariant
            i <= s@.len(),
            s@.len() == s.len(),
            first_at(s@, sub@, 0) == first_at(s@, sub@, i as int),
        decreases s@.len() - i,
    {
        if matches_at(s, sub, i) {
            return Some(i);
        }
        i = i + 1;
    }
    if matches_at(s, sub, i) {
        return Some(i);
    }
    assert(first_at(s@, sub@, i + 1) is None);
    None
}

/// `str::rfind` with a string pattern, by character position.
pub fn rfind_chars(s: &[char], sub: &[char]) -> (r: Option<usize>)
    ensures
        r matches Some(i) ==> last_at(s@, sub@, s@.len() as int) == Some(i as int) && i + sub@.len() <= s@.len(),
        r is None ==> last_at(s@, sub@, s@.len() as int) is None,
{
    let mut i: usize = s.len();
    loop
        invariant
            i <= s@.len(),
            s@.len() == s.len(),
            last_at(s@, sub@, s@.len() as int) == last_at(s@, sub@, i as int),
        decreases i,
    {
        if matches_at(s, sub, i) {
            return Some(i);
        }
        if i == 0 {
            assert(last_at(s@, sub@, -1) is None);
            return None;
        }
        i = i - 1;
    }
}

/// `s` with every occurrence of a non-empty `pat` replaced by `rep`,
/// scanning left to right (`str::replace`).
pub open spec fn replaced(s: Seq<char>, pat: Seq<char>, rep: Seq<char>) -> Seq<char>
    decreases s.len(),
{
    if s.len() == 0 || pat.len() == 0 {
        s
    } else if starts_with(s, pat) {
        rep + replaced(s.subrange(pat.len() as int, s.len() as int), pat, rep)
    } else {
        seq![s[0]] + replaced(s.subrange(1, s.len() as int), pat, rep)
    }
}

/// Replaces every occurrence of a non-empty pattern.
pub fn replace_all(s: &str, pat: &str, rep: &str) -> (r: String)
    requires
        pat@.len() > 0,
    ensures
        r@ == replaced(s@, pat@, rep@),
{
    let c = chars_of(s);
    let p = chars_of(pat);
    let mut out = String::new();
    let mut i: usize = 0;
    assert(c@.subrange(0, c@.len() as int) =~= c@);
    assert(out@ + replaced(c@, p@, rep@) =~= replaced(c@, p@, rep@));
    while i < c.len()
        invariant
            i <= c@.len(),
            c@ == s@,
            p@ == pat@,
            p@.len() > 0,
            out@ + replaced(c@.subrange(i as int, c@.len() as int), p@, rep@) == replaced(c@, p@, rep@),
        decreases c@.len() - i,
    {
        let ghost rest = c@.subrange(i as int, c@.len() as int);
        if matches_at(c.as_slice(), p.as_slice(), i) {
            assert(rest.subrange(0, p@.len() as int) =~= c@.subrange(i as int, i + p@.len()));
            assert(rest.subrange(p@.len() as int, rest.len() as int) =~= c@.subrange(i + p@.len(), c@.len() as int));
            let ghost before = out@;
            out.append(rep);
            assert(before + (rep@ + replaced(c@.subrange(i + p@.len(), c@.len() as int), p@, rep@))
                =~= out@ + replaced(c@.subrange(i + p@.len(), c@.len() as int), p@, rep@));
            i = i + p.len();
        } else {
            proof {
                if starts_with(rest, p@) {
                    assert(rest.subrange(0, p@.len() as int) =~= c@.subrange(i as int, i + p@.len()));
                }
            }
            assert(rest.subrange(1, rest.len() as int) =~= c@.subrange(i + 1, c@.len() as int));
            let ghost before = out@;
            push_char(&mut out, c[i]);
            assert(before + (seq![c@[i as int]] + replaced(c@.subrange(i + 1, c@.len() as int), p@, rep@))
                =~= out@ + replaced(c@.subrange(i + 1, c@.len() as int), p@, rep@));
            i = i + 1;
        }
    }
    assert(c@.subrange(i as int, c@.len() as int) =~= Seq::<char>::empty());
    assert(out@ + Seq::<char>::empty() =~= out@);
    out
}

} // verus!
