//! The post-processor: a pure filter over candidate hostnames.
//!
//! A candidate is normalised (surrounding quotes and whitespace stripped,
//! ASCII-lowercased) and checked against the DNS alphabet; wildcards and any
//! other character outside `a..z`, `0..9`, `.` and `-` drop it.  The filter
//! then keeps the candidate only if it belongs to one of the configured
//! roots: in root mode any name equal to a root or below it, in sub mode
//! only names exactly one label below a root.

use vstd::prelude::*;

use crate::strutil::ends_with;
use crate::strutil::lower_char;
use crate::strutil::lower_seq;
use crate::strutil::push_char;
use crate::strutil::to_lower_char;

verus! {

/// Characters stripped from both ends of a candidate: whitespace and
/// quotation marks.
pub open spec fn is_trim_char(c: char) -> bool {
    c == ' ' || c == '\t' || c == '\n' || c == '\r' || c == '"'
}

/// The candidate with every leading and trailing whitespace or quote
/// character removed.
pub open spec fn trimmed(s: Seq<char>) -> Seq<char>
    decreases s.len(),
{
    if s.len() == 0 {
        s
    } else if is_trim_char(s[0]) {
        trimmed(s.drop_first())
    } else if is_trim_char(s.last()) {
        trimmed(s.drop_last())
    } else {
        s
    }
}

/// The DNS label alphabet after lowercasing, plus the separator `.` and `-`.
pub open spec fn allowed_char(c: char) -> bool {
    (97 <= c as u32 <= 122) || (48 <= c as u32 <= 57) || c == '.' || c == '-'
}

pub open spec fn all_allowed(s: Seq<char>) -> bool {
    forall|i: int| 0 <= i < s.len() ==> allowed_char(#[trigger] s[i])
}

/// Normalisation: trim, lowercase, and validate the alphabet.  A wildcard
/// `*` is outside the alphabet, so a candidate holding one is dropped here.
pub open spec fn normalized(s: Seq<char>) -> Option<Seq<char>> {
    let t = lower_seq(trimmed(s));
    if all_allowed(t) {
        Some(t)
    } else {
        None
    }
}

/// The candidate equals the root or has it as a dot-preceded suffix.
pub open spec fn root_match(c: Seq<char>, r: Seq<char>) -> bool {
    c == r || ends_with(c, seq!['.'] + r)
}

/// A single DNS label: non-empty and without a separator.
pub open spec fn one_label(s: Seq<char>) -> bool {
    s.len() > 0 && forall|i: int| 0 <= i < s.len() ==> #[trigger] s[i] != '.'
}

/// The candidate is exactly one label below the root.
pub open spec fn sub_match(c: Seq<char>, r: Seq<char>) -> bool {
    ends_with(c, seq!['.'] + r) && one_label(c.subrange(0, c.len() - r.len() - 1))
}

/// Which of the two filtering rules the post-processor applies.
#[derive(Clone, Copy, PartialEq, Eq, Structural, Debug)]
pub enum FilterMode {
    Root,
    Sub,
}

/// The stateless filter, configured with the user's roots and a mode.
pub struct PostProcessor {
    roots: Vec<String>,
    mode: FilterMode,
}

impl Default for PostProcessor {
    /// An empty post-processor in root mode; it keeps nothing until roots
    /// are supplied.
    fn default() -> (r: Self)
        ensures
            r.spec_roots() == Seq::<Seq<char>>::empty(),
            r.spec_mode() == FilterMode::Root,
    {
        PostProcessor { roots: Vec::new(), mode: FilterMode::Root }
    }
}

impl PostProcessor {
    pub closed spec fn spec_roots(&self) -> Seq<Seq<char>> {
        self.roots.deep_view()
    }

    pub closed spec fn spec_mode(&self) -> FilterMode {
        self.mode
    }

    /// The filtering rule: some root accepts the (already normalised)
    /// candidate under the configured mode.
    pub open spec fn keeps(&self, c: Seq<char>) -> bool {
        match self.spec_mode() {
            FilterMode::Root => exists|i: int|
                0 <= i < self.spec_roots().len() && root_match(c, #[trigger] self.spec_roots()[i]),
            FilterMode::Sub => exists|i: int|
                0 <= i < self.spec_roots().len() && sub_match(c, #[trigger] self.spec_roots()[i]),
        }
    }

    /// The whole cleaning function: normalise, then filter.
    pub open spec fn clean_spec(&self, s: Seq<char>) -> Option<Seq<char>> {
        match normalized(s) {
            Some(t) => if self.keeps(t) {
                Some(t)
            } else {
                None
            },
            None => None,
        }
    }

    /// Configure root-mode filtering against the given roots.
    pub fn any_root(&mut self, roots: Vec<String>)
        ensures
            final(self).spec_roots() == roots.deep_view(),
            final(self).spec_mode() == FilterMode::Root,
    {
        self.roots = roots;
        self.mode = FilterMode::Root;
    }

    /// Configure sub-mode filtering against the given roots.
    pub fn any_subdomain(&mut self, roots: Vec<String>)
        ensures
            final(self).spec_roots() == roots.deep_view(),
            final(self).spec_mode() == FilterMode::Sub,
    {
        self.roots = roots;
        self.mode = FilterMode::Sub;
    }

    /// Cleans one candidate: returns the normalised name when it passes the
    /// filter, and nothing otherwise.
    pub fn clean(&self, candidate: &str) -> (r: Option<String>)
        ensures
            match r {
                Some(out) => self.clean_spec(candidate@) == Some(out@),
                None => self.clean_spec(candidate@) is None,
            },
    {
        let n = candidate.unicode_len();
        let mut start: usize = 0;
        while start < n && is_trim(candidate.get_char(start))
            invariant
                n == candidate@.len(),
                start <= n,
                forall|k: int| 0 <= k < start ==> is_trim_char(#[trigger] candidate@[k]),
            decreases n - start,
        {
            start = start + 1;
        }
        let mut end: usize = n;
        while end > start && is_trim(candidate.get_char(end - 1))
            invariant
                n == candidate@.len(),
                start <= end <= n,
                start == n || !is_trim_char(candidate@[start as int]),
                forall|k: int| 0 <= k < start ==> is_trim_char(#[trigger] candidate@[k]),
                forall|k: int| end <= k < n ==> is_trim_char(#[trigger] candidate@[k]),
            decreases end,
        {
            end = end - 1;
        }
        proof {
            lemma_trimmed_is_core(candidate@, start as int, end as int);
        }
        let ghost core = candidate@.subrange(start as int, end as int);
        let mut out = String::new();
        proof {
            assert(lower_seq(candidate@.subrange(start as int, start as int)) =~= Seq::<
                char,
            >::empty());
        }
        let mut i: usize = start;
        while i < end
            invariant
                n == candidate@.len(),
                start <= i <= end <= n,
                core == candidate@.subrange(start as int, end as int),
                trimmed(candidate@) == core,
                out@ == lower_seq(candidate@.subrange(start as int, i as int)),
                all_allowed(out@),
            decreases end - i,
        {
            let c = to_lower_char(candidate.get_char(i));
            if !is_allowed(c) {
                proof {
                    assert(core[i - start] == candidate@[i as int]);
                    assert(lower_seq(core)[i - start] == c);
                    assert(!all_allowed(lower_seq(core)));
                }
                return None;
            }
            push_char(&mut out, c);
            proof {
                lemma_lower_push(candidate@, start as int, i as int);
            }
            i = i + 1;
        }
        proof {
            assert(out@ == lower_seq(core));
            assert(normalized(candidate@) == Some(out@));
        }
        if self.matches_any(&out) {
            Some(out)
        } else {
            None
        }
    }

    /// Tests an already-normalised candidate against every root under the
    /// configured mode.
    fn matches_any(&self, c: &String) -> (r: bool)
        ensures
            r == self.keeps(c@),
    {
        let mut j: usize = 0;
        while j < self.roots.len()
            invariant
                forall|k: int|
                    0 <= k < j ==> match self.spec_mode() {
                        FilterMode::Root => !root_match(c@, #[trigger] self.spec_roots()[k]),
                        FilterMode::Sub => !sub_match(c@, #[trigger] self.spec_roots()[k]),
                    },
                j <= self.roots.len(),
            decreases self.roots.len() - j,
        {
            proof {
                assert(self.spec_roots()[j as int] == self.roots@[j as int]@);
            }
            let hit = match self.mode {
                FilterMode::Root => root_matches(c.as_str(), self.roots[j].as_str()),
                FilterMode::Sub => sub_matches(c.as_str(), self.roots[j].as_str()),
            };
            if hit {
                return true;
            }
            j = j + 1;
        }
        false
    }
}

/// Executable form of `is_trim_char`.
fn is_trim(c: char) -> (b: bool)
    ensures
        b == is_trim_char(c),
{
    c == ' ' || c == '\t' || c == '\n' || c == '\r' || c == '"'
}

/// Executable form of `allowed_char`.
fn is_allowed(c: char) -> (b: bool)
    ensures
        b == allowed_char(c),
{
    let u = c as u32;
    (97 <= u && u <= 122) || (48 <= u && u <= 57) || c == '.' || c == '-'
}

/// Executable suffix test over two strings.
pub fn str_ends_with(s: &str, suffix: &str) -> (b: bool)
    ensures
        b == ends_with(s@, suffix@),
{
    let n = s.unicode_len();
    let m = suffix.unicode_len();
    if m > n {
        return false;
    }
    let mut i: usize = 0;
    while i < m
        invariant
            n == s@.len(),
            m == suffix@.len(),
            m <= n,
            i <= m,
            forall|k: int| 0 <= k < i ==> s@[n - m + k] == #[trigger] suffix@[k],
        decreases m - i,
    {
        if s.get_char(n - m + i) != suffix.get_char(i) {
            proof {
                assert(s@.subrange(n - m, n as int)[i as int] != suffix@[i as int]);
            }
            return false;
        }
        i = i + 1;
    }
    proof {
        assert(s@.subrange(n - m, n as int) =~= suffix@);
    }
    true
}

/// Executable string equality by characters.
pub fn str_equal(a: &str, b: &str) -> (r: bool)
    ensures
        r == (a@ == b@),
{
    let na = a.unicode_len();
    let nb = b.unicode_len();
    if na != nb {
        proof {
            assert(a@ != b@);
        }
        return false;
    }
    let e = str_ends_with(a, b);
    proof {
        assert(a@.subrange(0, na as int) =~= a@);
        assert(a@.len() - b@.len() == 0);
    }
    e
}

/// `root_match`, executably: equality, or a dot-preceded suffix.
pub fn root_matches(c: &str, r: &str) -> (b: bool)
    ensures
        b == root_match(c@, r@),
{
    if str_equal(c, r) {
        return true;
    }
    let b = dot_suffix_matches(c, r);
    b
}

/// Tests for the suffix `"." + r` of `c`.
fn dot_suffix_matches(c: &str, r: &str) -> (b: bool)
    ensures
        b == ends_with(c@, seq!['.'] + r@),
{
    let n = c.unicode_len();
    let m = r.unicode_len();
    if n <= m {
        proof {
            assert((seq!['.'] + r@).len() == r@.len() + 1);
        }
        return false;
    }
    let b = str_ends_with(c, r) && c.get_char(n - m - 1) == '.';
    proof {
        lemma_dot_suffix(c@, r@);
    }
    b
}

/// `sub_match`, executably: a dot-preceded suffix with a single label above.
pub fn sub_matches(c: &str, r: &str) -> (b: bool)
    ensures
        b == sub_match(c@, r@),
{
    let n = c.unicode_len();
    let m = r.unicode_len();
    if !dot_suffix_matches(c, r) {
        return false;
    }
    let head_len = n - m - 1;
    if head_len == 0 {
        return false;
    }
    let ghost head = c@.subrange(0, c@.len() - r@.len() - 1);
    let mut i: usize = 0;
    while i < head_len
        invariant
            n == c@.len(),
            m == r@.len(),
            head_len == n - m - 1,
            head == c@.subrange(0, head_len as int),
            i <= head_len,
            forall|k: int| 0 <= k < i ==> #[trigger] head[k] != '.',
        decreases head_len - i,
    {
        if c.get_char(i) == '.' {
            proof {
                assert(head[i as int] == '.');
                assert(!one_label(head));
            }
            return false;
        }
        i = i + 1;
    }
    proof {
        assert(head.len() > 0);
        assert(one_label(head));
    }
    true
}

/// The dot-preceded-suffix test can be split into a suffix test for the
/// root and one character test before it.
proof fn lemma_dot_suffix(c: Seq<char>, r: Seq<char>)
    ensures
        ends_with(c, seq!['.'] + r) == (c.len() >= r.len() + 1 && ends_with(c, r) && c[c.len()
            - r.len() - 1] == '.'),
{
    let d = seq!['.'] + r;
    assert(d.len() == r.len() + 1);
    if c.len() >= r.len() + 1 {
        let tail = c.subrange(c.len() - d.len(), c.len() as int);
        if ends_with(c, d) {
            assert(tail == d);
            assert(c[c.len() - r.len() - 1] == tail[0]);
            assert(tail[0] == d[0]);
            assert(c.subrange(c.len() - r.len(), c.len() as int) =~= tail.subrange(
                1,
                tail.len() as int,
            ));
            assert(tail.subrange(1, tail.len() as int) =~= r);
        }
        if ends_with(c, r) && c[c.len() - r.len() - 1] == '.' {
            assert(tail =~= d);
        }
    }
}

/// Lowercasing a subrange extended by one character appends that
/// character's lowercase form.
proof fn lemma_lower_push(s: Seq<char>, a: int, i: int)
    requires
        0 <= a <= i < s.len(),
    ensures
        lower_seq(s.subrange(a, i + 1)) == lower_seq(s.subrange(a, i)).push(lower_char(s[i])),
{
    assert(lower_seq(s.subrange(a, i + 1)) =~= lower_seq(s.subrange(a, i)).push(
        lower_char(s[i]),
    ));
}

/// What the two trimming scans compute is exactly `trimmed`.
proof fn lemma_trimmed_is_core(s: Seq<char>, start: int, end: int)
    requires
        0 <= start <= end <= s.len(),
        forall|k: int| 0 <= k < start ==> is_trim_char(#[trigger] s[k]),
        forall|k: int| end <= k < s.len() ==> is_trim_char(#[trigger] s[k]),
        start < end ==> !is_trim_char(s[start]),
        start < end ==> !is_trim_char(s[end - 1]),
    ensures
        trimmed(s) == s.subrange(start, end),
    decreases s.len(),
{
    if s.len() == 0 {
        assert(trimmed(s) =~= s.subrange(start, end));
    } else if start == end {
        assert(forall|k: int| 0 <= k < s.len() ==> is_trim_char(#[trigger] s[k]));
        let t = s.drop_first();
        assert(forall|k: int| 0 <= k < t.len() ==> is_trim_char(#[trigger] t[k]));
        lemma_trimmed_is_core(t, 0, 0);
        assert(trimmed(s) == trimmed(t));
        assert(trimmed(s) =~= s.subrange(start, end));
    } else if is_trim_char(s[0]) {
        assert(start > 0);
        let t = s.drop_first();
        lemma_trimmed_is_core(t, start - 1, end - 1);
        assert(t.subrange(start - 1, end - 1) =~= s.subrange(start, end));
    } else if is_trim_char(s.last()) {
        assert(start == 0);
        assert(end < s.len());
        let t = s.drop_last();
        lemma_trimmed_is_core(t, start, end);
        assert(t.subrange(start, end) =~= s.subrange(start, end));
    } else {
        assert(start == 0);
        assert(end == s.len());
        assert(trimmed(s) == s);
        assert(s.subrange(0, s.len() as int) =~= s);
    }
}

} // verus!
