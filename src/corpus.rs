//! The index of known weak passwords, and the matcher that decides how close
//! a candidate comes to one of them.
use vstd::prelude::*;
use crate::distance::{capped_distance, levenshtein_with_cutoff};
use crate::text::{chars_of, lower_of, string_from_chars, to_lower, trim, trim_range};

verus! {

/// Candidates whose length differs from the input by more than this are
/// never compared.
pub const LENGTH_SLACK: usize = 3;

/// Distances above this are reported as `CUTOFF + 1`.
pub const CUTOFF: usize = 2;

/// A distance up to this counts as very close.
pub const CLOSE_BAND: usize = 2;

/// A distance up to this counts as moderately close.
pub const LOOSE_BAND: usize = 4;

pub open spec fn first_of(s: Seq<char>) -> Option<char> {
    if s.len() == 0 {
        None
    } else {
        Some(s[0])
    }
}

pub open spec fn last_of(s: Seq<char>) -> Option<char> {
    if s.len() == 0 {
        None
    } else {
        Some(s.last())
    }
}

/// The normalized form of one corpus line.
pub open spec fn entry_of(line: Seq<char>) -> Seq<char> {
    lower_of(trim(line))
}

/// Lines finished so far and the line being read, after reading `s`.
pub open spec fn split_state(s: Seq<char>) -> (Seq<Seq<char>>, Seq<char>)
    decreases s.len(),
{
    if s.len() == 0 {
        (Seq::empty(), Seq::empty())
    } else {
        let st = split_state(s.drop_last());
        if s.last() == '\n' {
            (st.0.push(st.1), Seq::empty())
        } else {
            (st.0, st.1.push(s.last()))
        }
    }
}

/// The lines of `s`, split at each `'\n'`; a newline at the very end opens
/// no further line.
pub open spec fn lines_of(s: Seq<char>) -> Seq<Seq<char>> {
    let st = split_state(s);
    if st.1.len() > 0 {
        st.0.push(st.1)
    } else {
        st.0
    }
}

/// The normalized entries of the given lines.
pub open spec fn entries_of(lines: Seq<Seq<char>>) -> Seq<Seq<char>> {
    lines.map_values(|l: Seq<char>| entry_of(l))
}

/// The corpus that a text holds: one normalized entry per line, in order.
pub open spec fn corpus_of(text: Seq<char>) -> Seq<Seq<char>> {
    entries_of(lines_of(text))
}

/// One normalized known-weak password, with its length and boundary
/// characters computed ahead of matching.
#[derive(Debug)]
pub struct PasswordEntry {
    pub password: String,
    pub len: usize,
    pub first: Option<char>,
    pub last: Option<char>,
}

impl PasswordEntry {
    /// The metadata agrees with `password`.
    pub open spec fn wf(&self) -> bool {
        &&& self.len == self.password@.len()
        &&& self.first == first_of(self.password@)
        &&& self.last == last_of(self.password@)
    }

    fn of_range(chars: &[char], lo: usize, hi: usize) -> (r: PasswordEntry)
        requires
            lo <= hi <= chars@.len(),
        ensures
            r.wf(),
            r.password@ == entry_of(chars@.subrange(lo as int, hi as int)),
    {
        let trimmed = trim_range(chars, lo, hi);
        let t = string_from_chars(trimmed.as_slice());
        let password = to_lower(t.as_str());
        let pc = chars_of(password.as_str());
        let n = pc.len();
        let first = if n == 0 {
            None
        } else {
            Some(pc[0])
        };
        let last = if n == 0 {
            None
        } else {
            Some(pc[n - 1])
        };
        PasswordEntry { password, len: n, first, last }
    }

    /// The entry for one corpus line: trimmed and lowercased.
    pub fn new(line: &str) -> (r: PasswordEntry)
        ensures
            r.wf(),
            r.password@ == entry_of(line@),
    {
        let chars = chars_of(line);
        let r = PasswordEntry::of_range(chars.as_slice(), 0, chars.len());
        assert(chars@.subrange(0, chars@.len() as int) =~= line@);
        r
    }
}

/// How close a normalized candidate comes to the corpus.
#[derive(Debug, Clone, Copy, PartialEq, Eq, Structural)]
pub enum Resemblance {
    /// The candidate is a corpus entry.
    Exact,
    /// A corpus entry lies within the given (capped) distance.
    Close(usize),
    /// No corpus entry is near.
    Distant,
}

/// Whether `entry` is compared with `s` at all: lengths within
/// `LENGTH_SLACK`, and the same first or the same last character.
pub open spec fn is_candidate(entry: Seq<char>, s: Seq<char>) -> bool {
    &&& entry.len() <= s.len() + LENGTH_SLACK
    &&& s.len() <= entry.len() + LENGTH_SLACK
    &&& (first_of(entry) == first_of(s) || last_of(entry) == last_of(s))
}

/// The verdict of the first candidate, from position `k` on, whose capped
/// distance to `s` falls within `LOOSE_BAND`.
pub open spec fn scan(corpus: Seq<Seq<char>>, s: Seq<char>, k: int) -> Resemblance
    decreases corpus.len() - k,
{
    if k < 0 || k >= corpus.len() {
        Resemblance::Distant
    } else if is_candidate(corpus[k], s) && capped_distance(s, corpus[k], CUTOFF as nat)
        <= LOOSE_BAND {
        Resemblance::Close(capped_distance(s, corpus[k], CUTOFF as nat) as usize)
    } else {
        scan(corpus, s, k + 1)
    }
}

/// How close the normalized candidate `s` comes to `corpus`.
pub open spec fn resemblance(corpus: Seq<Seq<char>>, s: Seq<char>) -> Resemblance {
    if corpus.contains(s) {
        Resemblance::Exact
    } else {
        scan(corpus, s, 0)
    }
}

/// The ordered, read-only collection of corpus entries.
pub struct CorpusIndex {
    entries: Vec<PasswordEntry>,
}

pub open spec fn entry_texts(v: Seq<PasswordEntry>) -> Seq<Seq<char>> {
    v.map_values(|e: PasswordEntry| e.password@)
}

impl View for CorpusIndex {
    type V = Seq<Seq<char>>;

    closed spec fn view(&self) -> Seq<Seq<char>> {
        entry_texts(self.entries@)
    }
}

fn same_char(a: Option<char>, b: Option<char>) -> (r: bool)
    ensures
        r == (a == b),
{
    match (a, b) {
        (Some(x), Some(y)) => x == y,
        (None, None) => true,
        _ => false,
    }
}

proof fn lemma_split_step(s: Seq<char>, i: int)
    requires
        0 <= i < s.len(),
    ensures
        split_state(s.take(i + 1)) == (if s[i] == '\n' {
            (split_state(s.take(i)).0.push(split_state(s.take(i)).1), Seq::<char>::empty())
        } else {
            (split_state(s.take(i)).0, split_state(s.take(i)).1.push(s[i]))
        }),
{
    assert(s.take(i + 1).drop_last() =~= s.take(i));
}

proof fn lemma_push_entry(v: Seq<PasswordEntry>, e: PasswordEntry, lines: Seq<Seq<char>>, line: Seq<char>)
    requires
        entry_texts(v) == entries_of(lines),
        e.password@ == entry_of(line),
    ensures
        entry_texts(v.push(e)) == entries_of(lines.push(line)),
{
    assert(entries_of(lines).len() == lines.len());
    assert(entry_texts(v).len() == v.len());
    assert forall|j: int| 0 <= j < v.len() implies #[trigger] entry_texts(v.push(e))[j] == entries_of(lines.push(line))[j] by {
        assert(entry_texts(v)[j] == entries_of(lines)[j]);
    }
    assert(entry_texts(v.push(e)) =~= entries_of(lines.push(line)));
}

impl CorpusIndex {
    /// Every entry's metadata agrees with its text.
    pub closed spec fn wf(&self) -> bool {
        forall|k: int| 0 <= k < self.entries@.len() ==> (#[trigger] self.entries@[k]).wf()
    }

    /// Builds the index from a text that holds one password per line.
    /// Every line gives an entry, in order, duplicates and empty lines
    /// included.
    pub fn from_text(text: &str) -> (r: CorpusIndex)
        ensures
            r.wf(),
            r@ == corpus_of(text@),
    {
        let chars = chars_of(text);
        let ghost s = text@;
        let n = chars.len();
        let mut entries: Vec<PasswordEntry> = Vec::new();
        let mut start: usize = 0;
        let mut i: usize = 0;
        while i < n
            invariant
                chars@ == s,
                n == s.len(),
                start <= i <= n,
                entry_texts(entries@) == entries_of(split_state(s.take(i as int)).0),
                split_state(s.take(i as int)).1 == s.subrange(start as int, i as int),
                forall|k: int| 0 <= k < entries@.len() ==> (#[trigger] entries@[k]).wf(),
            decreases n - i,
        {
            proof {
                lemma_split_step(s, i as int);
            }
            let ghost before = split_state(s.take(i as int));
            if chars[i] == '\n' {
                let e = PasswordEntry::of_range(chars.as_slice(), start, i);
                let ghost old_entries = entries;
                entries.push(e);
                start = i + 1;
                proof {
                    lemma_push_entry(old_entries@, e, before.0, before.1);
                }
                assert(s.subrange(start as int, i + 1) =~= Seq::<char>::empty());
            } else {
                assert(s.subrange(start as int, i + 1) =~= before.1.push(s[i as int]));
            }
            i = i + 1;
        }
        assert(s.take(n as int) =~= s);
        let ghost st = split_state(s);
        if start < n {
            let e = PasswordEntry::of_range(chars.as_slice(), start, n);
            let ghost old_entries = entries;
            entries.push(e);
            proof {
                lemma_push_entry(old_entries@, e, st.0, st.1);
            }
        } else {
            assert(st.1.len() == 0);
        }
        CorpusIndex { entries }
    }

    /// The index of the corpus that ships with this library.
    pub fn builtin() -> (r: CorpusIndex)
        ensures
            r.wf(),
            r@ == corpus_of(COMMON_PASSWORDS@),
    {
        CorpusIndex::from_text(COMMON_PASSWORDS)
    }

    /// The number of entries.
    pub fn len(&self) -> (r: usize)
        ensures
            r == self@.len(),
    {
        self.entries.len()
    }

    /// The entry at position `k`, in corpus order.
    pub fn entry(&self, k: usize) -> (r: &PasswordEntry)
        requires
            self.wf(),
            k < self@.len(),
        ensures
            r.wf(),
            r.password@ == self@[k as int],
    {
        &self.entries[k]
    }

    /// Decides how close `normalized` comes to the corpus: `Exact` when it is
    /// an entry; else `Close(d)` for the first candidate in corpus order
    /// (length within `LENGTH_SLACK`, same first or last character) whose
    /// distance capped at `CUTOFF + 1` is `d <= LOOSE_BAND`; else `Distant`.
    pub fn classify(&self, normalized: &String) -> (r: Resemblance)
        requires
            self.wf(),
        ensures
            r == resemblance(self@, normalized@),
    {
        let ghost corpus = self@;
        let ghost s = normalized@;
        let n = self.entries.len();
        assert(corpus.len() == n);
        let mut k: usize = 0;
        while k < n
            invariant
                n == corpus.len(),
                corpus == self@,
                corpus == entry_texts(self.entries@),
                s == normalized@,
                k <= n,
                forall|x: int| 0 <= x < k ==> corpus[x] != s,
            decreases n - k,
        {
            assert(corpus[k as int] == self.entries@[k as int].password@);
            if self.entries[k].password.eq(normalized) {
                assert(corpus[k as int] == s);
                return Resemblance::Exact;
            }
            k = k + 1;
        }
        assert(!corpus.contains(s));
        let sc = chars_of(normalized.as_str());
        let len = sc.len();
        let first = if len == 0 {
            None
        } else {
            Some(sc[0])
        };
        let last = if len == 0 {
            None
        } else {
            Some(sc[len - 1])
        };
        let mut k: usize = 0;
        while k < n
            invariant
                n == corpus.len(),
                corpus == entry_texts(self.entries@),
                corpus == self@,
                s == normalized@,
                !corpus.contains(s),
                self.wf(),
                sc@ == s,
                len == s.len(),
                first == first_of(s),
                last == last_of(s),
                k <= n,
                scan(corpus, s, 0) == scan(corpus, s, k as int),
            decreases n - k,
        {
            let entry = &self.entries[k];
            assert(corpus[k as int] == entry.password@);
            let near = if entry.len >= len {
                entry.len - len <= LENGTH_SLACK
            } else {
                len - entry.len <= LENGTH_SLACK
            };
            if near && (same_char(entry.first, first) || same_char(entry.last, last)) {
                let ec = chars_of(entry.password.as_str());
                let d = levenshtein_with_cutoff(sc.as_slice(), ec.as_slice(), CUTOFF);
                if d <= LOOSE_BAND {
                    return Resemblance::Close(d);
                }
            }
            k = k + 1;
        }
        Resemblance::Distant
    }
}

/// The built-in corpus: widely used passwords, most common first, one per
/// line.
pub const COMMON_PASSWORDS: &'static str = "123456
123456789
qwerty
password
111111
12345678
abc123
1234567
password1
12345
1234567890
123123
000000
iloveyou
1234
1q2w3e4r5t
qwertyuiop
123
monkey
dragon
123456a
654321
123321
666666
1qaz2wsx
myspace1
121212
homelesspa
123qwe
a123456
123abc
1q2w3e4r
qwe123
7777777
qwerty123
target123
tinkle
987654321
qwerty1
222222
zxcvbnm
1g2w3e4r
gwerty
zag12wsx
gwerty123
555555
fuckyou
112233
asdfghjkl
1q2w3e
123123123
qazwsx
computer
princess
12345a
ashley
159753
michael
football
sunshine
1234qwer
iloveyou1
aaaaaa
fuckyou1
789456123
daniel
777777
princess1
123654
11111
asdfgh
999999
11111111
passer2009
888888
love
abcd1234
shadow
football1
love123
superman
jordan23
jessica
monkey1
12qwaszx
a12345
baseball
123456789a
killer
asdf
samsung
master
azerty
charlie
asd123
soccer
88888888
jordan
michael1
letmein
welcome
admin
trustno1
hello
";

} // verus!
