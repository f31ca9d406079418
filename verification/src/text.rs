//! Operations on strings that the rest of the library states its contracts over.

use vstd::prelude::*;

verus! {

/// `s` without the occurrences of `pattern`, found from left to right, none
/// of them overlapping another. An empty pattern occurs nowhere.
pub open spec fn spec_remove_all(s: Seq<char>, pattern: Seq<char>) -> Seq<char>
    decreases s.len(),
{
    if pattern.len() == 0 || s.len() == 0 {
        s
    } else if pattern.is_prefix_of(s) {
        spec_remove_all(s.skip(pattern.len() as int), pattern)
    } else {
        seq![s[0]] + spec_remove_all(s.skip(1), pattern)
    }
}

/// The texts in `parts` in their order, with `separator` between each two.
pub open spec fn spec_join(parts: Seq<Seq<char>>, separator: Seq<char>) -> Seq<char>
    decreases parts.len(),
{
    if parts.len() == 0 {
        Seq::empty()
    } else if parts.len() == 1 {
        parts[0]
    } else {
        spec_join(parts.drop_last(), separator) + separator + parts.last()
    }
}

/// A joined text begins with the first of its parts.
pub proof fn lemma_join_begins_with_first(parts: Seq<Seq<char>>, separator: Seq<char>)
    requires
        parts.len() > 0,
    ensures
        parts[0].is_prefix_of(spec_join(parts, separator)),
    decreases parts.len(),
{
    if parts.len() > 1 {
        lemma_join_begins_with_first(parts.drop_last(), separator);
        let front = spec_join(parts.drop_last(), separator);
        let all = spec_join(parts, separator);
        assert(all.subrange(0, parts[0].len() as int) =~= front.subrange(
            0,
            parts[0].len() as int,
        ));
    }
}

/// Whether `c` is white space, as Unicode has it.
pub open spec fn spec_is_whitespace(c: char) -> bool {
    let u = c as u32;
    ||| 0x09 <= u <= 0x0D
    ||| u == 0x20
    ||| u == 0x85
    ||| u == 0xA0
    ||| u == 0x1680
    ||| 0x2000 <= u <= 0x200A
    ||| u == 0x2028
    ||| u == 0x2029
    ||| u == 0x202F
    ||| u == 0x205F
    ||| u == 0x3000
}

/// Whether `s` holds nothing but white space.
pub open spec fn spec_is_blank(s: Seq<char>) -> bool {
    forall|i: int| 0 <= i < s.len() ==> spec_is_whitespace(#[trigger] s[i])
}

/// The views of a sequence of strings.
pub open spec fn texts(strings: Seq<String>) -> Seq<Seq<char>> {
    Seq::new(strings.len(), |i: int| strings[i]@)
}

/// `a` followed by `b`.
pub fn followed_by(a: &str, b: &str) -> (joined: String)
    ensures
        joined@ == a@ + b@,
{
    let mut joined = a.to_owned();
    joined.append(b);
    joined
}

/// Whether `c` is white space, as Unicode has it.
pub fn is_whitespace(c: char) -> (b: bool)
    ensures
        b == spec_is_whitespace(c),
{
    let u: u32 = c as u32;
    (0x09 <= u && u <= 0x0D) || u == 0x20 || u == 0x85 || u == 0xA0 || u == 0x1680 || (0x2000 <= u
        && u <= 0x200A) || u == 0x2028 || u == 0x2029 || u == 0x202F || u == 0x205F || u == 0x3000
}

/// Whether `s` holds nothing but white space.
pub fn is_blank(s: &str) -> (b: bool)
    ensures
        b == spec_is_blank(s@),
{
    let n: usize = s.unicode_len();
    let mut i: usize = 0;
    while i < n
        invariant
            n == s@.len(),
            i <= n,
            forall|j: int| 0 <= j < i ==> spec_is_whitespace(#[trigger] s@[j]),
        decreases n - i,
    {
        if !is_whitespace(s.get_char(i)) {
            return false;
        }
        i += 1;
    }
    true
}

/// Whether `s` is the one character `c`.
pub fn is_char(s: &str, c: char) -> (b: bool)
    ensures
        b == (s@ == seq![c]),
{
    if s.unicode_len() == 1 {
        let same = s.get_char(0) == c;
        assert(same ==> s@ =~= seq![c]);
        same
    } else {
        false
    }
}

/// Whether `pattern` stands in `s` at the position `at`.
pub fn occurs_at(s: &str, at: usize, pattern: &str) -> (b: bool)
    ensures
        b == (at <= s@.len() && pattern@.is_prefix_of(s@.skip(at as int))),
{
    let n: usize = s.unicode_len();
    let m: usize = pattern.unicode_len();
    if at > n || m > n - at {
        return false;
    }
    let ghost tail = s@.skip(at as int);
    let mut j: usize = 0;
    while j < m
        invariant
            n == s@.len(),
            m == pattern@.len(),
            at <= n,
            m <= n - at,
            j <= m,
            tail == s@.skip(at as int),
            forall|k: int| 0 <= k < j ==> tail[k] == pattern@[k],
        decreases m - j,
    {
        if s.get_char(at + j) != pattern.get_char(j) {
            return false;
        }
        j += 1;
    }
    true
}

/// Whether `s` begins with `prefix`.
pub fn starts_with(s: &str, prefix: &str) -> (b: bool)
    ensures
        b == prefix@.is_prefix_of(s@),
{
    occurs_at(s, 0, prefix)
}

/// `s` without the occurrences of `pattern`.
pub fn remove_all(s: &str, pattern: &str) -> (cleaned: String)
    ensures
        cleaned@ == spec_remove_all(s@, pattern@),
{
    let n: usize = s.unicode_len();
    let m: usize = pattern.unicode_len();
    if m == 0 {
        return s.to_owned();
    }
    let mut cleaned = String::new();
    let mut i: usize = 0;
    assert(s@.skip(0) =~= s@);
    while i < n
        invariant
            n == s@.len(),
            m == pattern@.len(),
            m > 0,
            i <= n,
            cleaned@ + spec_remove_all(s@.skip(i as int), pattern@) == spec_remove_all(
                s@,
                pattern@,
            ),
        decreases n - i,
    {
        let ghost tail = s@.skip(i as int);
        if occurs_at(s, i, pattern) {
            assert(tail.skip(m as int) =~= s@.skip(i + m));
            i += m;
        } else {
            let one = s.substring_char(i, i + 1);
            assert(tail.skip(1) =~= s@.skip(i + 1));
            let ghost before = cleaned@;
            cleaned.append(one);
            assert(cleaned@ + spec_remove_all(s@.skip(i + 1), pattern@) =~= before + (seq![tail[0]]
                + spec_remove_all(tail.skip(1), pattern@)));
            i += 1;
        }
    }
    cleaned
}

/// The strings in `parts` in their order, with `separator` between each two.
pub fn join(parts: &Vec<String>, separator: &str) -> (joined: String)
    ensures
        joined@ == spec_join(texts(parts@), separator@),
{
    let mut joined = String::new();
    let mut i: usize = 0;
    while i < parts.len()
        invariant
            i <= parts@.len(),
            joined@ == spec_join(texts(parts@).take(i as int), separator@),
        decreases parts@.len() - i,
    {
        let ghost done = texts(parts@).take(i as int);
        let ghost more = texts(parts@).take(i + 1);
        assert(more.drop_last() =~= done);
        if i > 0 {
            joined.append(separator);
        }
        joined.append(parts[i].as_str());
        i += 1;
    }
    assert(texts(parts@).take(parts@.len() as int) =~= texts(parts@));
    joined
}

} // verus!
