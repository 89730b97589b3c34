//! Character-level helpers: classification of characters, trimming and the
//! normal form under which passwords are compared.
use vstd::prelude::*;

verus! {

/// Whether `c` has the Unicode `White_Space` property.
pub uninterp spec fn is_space(c: char) -> bool;

/// Whether `c` has the Unicode `Uppercase` property.
pub uninterp spec fn is_upper(c: char) -> bool;

/// Whether `c` has the Unicode `Lowercase` property.
pub uninterp spec fn is_lower(c: char) -> bool;

/// The full Unicode lowercase mapping of a string.
pub uninterp spec fn lower_of(s: Seq<char>) -> Seq<char>;

/// Relies on `char::is_whitespace`: tests the `White_Space` property.
#[verifier::external_body]
pub(crate) fn whitespace(c: char) -> (r: bool)
    ensures
        r == is_space(c),
{
    c.is_whitespace()
}

/// Relies on `char::is_uppercase`: tests the `Uppercase` property.
#[verifier::external_body]
pub(crate) fn uppercase(c: char) -> (r: bool)
    ensures
        r == is_upper(c),
{
    c.is_uppercase()
}

/// Relies on `char::is_lowercase`: tests the `Lowercase` property.
#[verifier::external_body]
pub(crate) fn lowercase(c: char) -> (r: bool)
    ensures
        r == is_lower(c),
{
    c.is_lowercase()
}

/// Relies on `str::to_lowercase`: the lowercase mapping depends on the
/// characters of `s` alone.
#[verifier::external_body]
pub(crate) fn to_lower(s: &str) -> (r: String)
    ensures
        r@ == lower_of(s@),
{
    s.to_lowercase()
}

/// Relies on `String`'s `FromIterator<&char>`: the characters are appended in
/// order.
#[verifier::external_body]
pub(crate) fn string_from_chars(v: &[char]) -> (r: String)
    ensures
        r@ == v@,
{
    v.iter().collect()
}

/// Whether `c` is one of the ASCII decimal digits `0` to `9`.
pub open spec fn is_digit(c: char) -> bool {
    '0' <= c <= '9'
}

pub open spec fn has_upper(s: Seq<char>) -> bool {
    exists|i: int| 0 <= i < s.len() && is_upper(#[trigger] s[i])
}

/// `s` without its leading whitespace.
pub open spec fn trim_start(s: Seq<char>) -> Seq<char>
    decreases s.len(),
{
    if s.len() > 0 && is_space(s[0]) {
        trim_start(s.drop_first())
    } else {
        s
    }
}

/// `s` without its trailing whitespace.
pub open spec fn trim_end(s: Seq<char>) -> Seq<char>
    decreases s.len(),
{
    if s.len() > 0 && is_space(s.last()) {
        trim_end(s.drop_last())
    } else {
        s
    }
}

/// `s` without its leading and trailing whitespace.
pub open spec fn trim(s: Seq<char>) -> Seq<char> {
    trim_end(trim_start(s))
}

/// The form under which a candidate password is compared with the corpus:
/// trimmed, then lowercased when it holds an uppercase character.
pub open spec fn normal_form(s: Seq<char>) -> Seq<char> {
    let t = trim(s);
    if has_upper(t) {
        lower_of(t)
    } else {
        t
    }
}

/// The characters of `s`, in order.
pub fn chars_of(s: &str) -> (r: Vec<char>)
    ensures
        r@ == s@,
{
    let mut v: Vec<char> = Vec::new();
    for c in it: s.chars()
        invariant
            v@ == it.seq().take(it.index() as int),
    {
        v.push(c);
    }
    proof {
        vstd::string::axiom_spec_iter(s);
    }
    assert(v@ =~= s@);
    v
}

proof fn lemma_trim_start_step(s: Seq<char>, i: int)
    requires
        0 <= i < s.len(),
        is_space(s[i]),
    ensures
        trim_start(s.subrange(i, s.len() as int)) == trim_start(s.subrange(i + 1, s.len() as int)),
{
    assert(s.subrange(i, s.len() as int).drop_first() =~= s.subrange(i + 1, s.len() as int));
}

proof fn lemma_trim_end_step(s: Seq<char>, lo: int, j: int)
    requires
        0 <= lo < j <= s.len(),
        is_space(s[j - 1]),
    ensures
        trim_end(s.subrange(lo, j)) == trim_end(s.subrange(lo, j - 1)),
{
    assert(s.subrange(lo, j).drop_last() =~= s.subrange(lo, j - 1));
}

/// The characters of `s[lo..hi]` without leading and trailing whitespace.
pub fn trim_range(s: &[char], lo: usize, hi: usize) -> (r: Vec<char>)
    requires
        lo <= hi <= s@.len(),
    ensures
        r@ == trim(s@.subrange(lo as int, hi as int)),
{
    let ghost line = s@.subrange(lo as int, hi as int);
    let n: usize = hi - lo;
    let mut a: usize = 0;
    assert(line.subrange(0, n as int) =~= line);
    while a < n && whitespace(s[lo + a])
        invariant
            a <= n == line.len(),
            lo + n == hi <= s@.len(),
            line == s@.subrange(lo as int, lo + n),
            trim_start(line) == trim_start(line.subrange(a as int, n as int)),
        decreases n - a,
    {
        proof {
            lemma_trim_start_step(line, a as int);
        }
        a = a + 1;
    }
    let mut b: usize = n;
    assert(trim_start(line) == line.subrange(a as int, n as int));
    while b > a && whitespace(s[lo + b - 1])
        invariant
            a <= b <= n == line.len(),
            lo + n == hi <= s@.len(),
            line == s@.subrange(lo as int, lo + n),
            trim(line) == trim_end(line.subrange(a as int, b as int)),
        decreases b,
    {
        proof {
            lemma_trim_end_step(line, a as int, b as int);
        }
        b = b - 1;
    }
    assert(trim(line) == line.subrange(a as int, b as int)) by {
        if b > a {
            assert(line.subrange(a as int, b as int).last() == line[b - 1]);
        }
    }
    let mut r: Vec<char> = Vec::new();
    let mut k: usize = a;
    while k < b
        invariant
            a <= k <= b <= n == line.len(),
            lo + n == hi <= s@.len(),
            line == s@.subrange(lo as int, lo + n),
            r@ == line.subrange(a as int, k as int),
        decreases b - k,
    {
        r.push(s[lo + k]);
        assert(r@ =~= line.subrange(a as int, k + 1));
        k = k + 1;
    }
    r
}

/// Whether some character of `s` is uppercase.
pub fn any_upper(s: &[char]) -> (r: bool)
    ensures
        r == has_upper(s@),
{
    let mut k: usize = 0;
    while k < s.len()
        invariant
            k <= s@.len(),
            forall|i: int| 0 <= i < k ==> !is_upper(#[trigger] s@[i]),
        decreases s.len() - k,
    {
        if uppercase(s[k]) {
            return true;
        }
        k = k + 1;
    }
    false
}

/// The normal form of a candidate password: surrounding whitespace removed,
/// and lowercased when an uppercase character is present.
pub fn normalize(password: &str) -> (r: String)
    ensures
        r@ == normal_form(password@),
{
    let chars = chars_of(password);
    let trimmed = trim_range(chars.as_slice(), 0, chars.len());
    assert(chars@.subrange(0, chars@.len() as int) =~= password@);
    let t = string_from_chars(trimmed.as_slice());
    if any_upper(trimmed.as_slice()) {
        to_lower(t.as_str())
    } else {
        t
    }
}

} // verus!
