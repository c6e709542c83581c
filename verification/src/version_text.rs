//! Recognition of version text inside a git tag: three runs of decimal
//! digits separated by two dots, such as `1.20.3`.
use vstd::prelude::*;

verus! {

/// An ASCII decimal digit.
pub open spec fn is_digit(c: char) -> bool {
    '0' <= c <= '9'
}

/// `s[start..end)` reads digits, a dot at `a`, digits, a dot at `b`, digits,
/// with no run of digits empty.
pub open spec fn version_parts(s: Seq<char>, start: int, a: int, b: int, end: int) -> bool {
    &&& 0 <= start < a
    &&& a + 1 < b
    &&& b + 1 < end <= s.len()
    &&& s[a] == '.'
    &&& s[b] == '.'
    &&& forall|k: int| start <= k < end && k != a && k != b ==> is_digit(#[trigger] s[k])
}

/// `s[start..end)` is version text.
pub open spec fn version_at(s: Seq<char>, start: int, end: int) -> bool {
    exists|a: int, b: int| version_parts(s, start, a, b, end)
}

/// `s` holds version text somewhere.
pub open spec fn has_version(s: Seq<char>) -> bool {
    exists|start: int, end: int| version_at(s, start, end)
}

/// `s[start..end)` is the version text that a search from the left finds:
/// no version text starts before `start`, and none that starts at `start`
/// reaches beyond `end`.
pub open spec fn is_first_version(s: Seq<char>, start: int, end: int) -> bool {
    &&& version_at(s, start, end)
    &&& forall|p: int, q: int| #[trigger] version_at(s, p, q) ==> start < p || (start == p && q <= end)
}

/// The version text that a search from the left finds in `s`, if `s` holds any.
pub open spec fn first_version(s: Seq<char>) -> Option<Seq<char>> {
    if has_version(s) {
        let (start, end) = choose|start: int, end: int| is_first_version(s, start, end);
        Some(s.subrange(start, end))
    } else {
        None
    }
}

/// At most one stretch of `s` is its first version text.
pub proof fn lemma_first_version_unique(s: Seq<char>, start: int, end: int, p: int, q: int)
    requires
        is_first_version(s, start, end),
        is_first_version(s, p, q),
    ensures
        start == p,
        end == q,
{
}

/// Once the stretch that a search from the left finds is known, so is `first_version`.
pub proof fn lemma_first_version_is(s: Seq<char>, start: int, end: int)
    requires
        is_first_version(s, start, end),
    ensures
        first_version(s) == Some(s.subrange(start, end)),
{
    assert(has_version(s));
    let (p, q) = choose|p: int, q: int| is_first_version(s, p, q);
    lemma_first_version_unique(s, start, end, p, q);
}

/// Among the version texts of `s` one starts first.
proof fn lemma_leftmost_version(s: Seq<char>, p: int, q: int) -> (first: (int, int))
    requires
        version_at(s, p, q),
    ensures
        version_at(s, first.0, first.1),
        forall|i: int, j: int| #[trigger] version_at(s, i, j) ==> first.0 <= i,
    decreases p,
{
    if exists|i: int, j: int| version_at(s, i, j) && i < p {
        let (i, j) = choose|i: int, j: int| version_at(s, i, j) && i < p;
        let (a, b) = choose|a: int, b: int| version_parts(s, i, a, b, j);
        assert(0 <= i);
        lemma_leftmost_version(s, i, j)
    } else {
        (p, q)
    }
}

/// Among the version texts of `s` that start at `p` one reaches furthest.
proof fn lemma_longest_version(s: Seq<char>, p: int, q: int) -> (end: int)
    requires
        version_at(s, p, q),
    ensures
        version_at(s, p, end),
        forall|j: int| #[trigger] version_at(s, p, j) ==> j <= end,
    decreases s.len() - q,
{
    if exists|j: int| version_at(s, p, j) && q < j {
        let j = choose|j: int| version_at(s, p, j) && q < j;
        let (a, b) = choose|a: int, b: int| version_parts(s, p, a, b, j);
        assert(j <= s.len());
        lemma_longest_version(s, p, j)
    } else {
        q
    }
}

/// Where `s` holds version text, a search from the left finds some.
pub proof fn lemma_first_version_exists(s: Seq<char>)
    requires
        has_version(s),
    ensures
        exists|start: int, end: int| is_first_version(s, start, end),
        first_version(s) is Some,
{
    let (p, q) = choose|p: int, q: int| version_at(s, p, q);
    let (start, q0) = lemma_leftmost_version(s, p, q);
    let end = lemma_longest_version(s, start, q0);
    assert(is_first_version(s, start, end));
}

/// Version text that starts right after a digit also starts at that digit.
proof fn lemma_version_extends_left(s: Seq<char>, start: int, end: int)
    requires
        version_at(s, start, end),
        0 < start,
        is_digit(s[start - 1]),
    ensures
        version_at(s, start - 1, end),
{
    let (a, b) = choose|a: int, b: int| version_parts(s, start, a, b, end);
    assert(version_parts(s, start - 1, a, b, end));
}

fn is_digit_char(c: char) -> (d: bool)
    ensures
        d == is_digit(c),
{
    '0' <= c && c <= '9'
}

/// `s[from..end)` is the longest run of digits that starts at `from`.
spec fn is_digit_run(s: Seq<char>, from: int, end: int) -> bool {
    &&& from <= end <= s.len()
    &&& forall|k: int| from <= k < end ==> is_digit(#[trigger] s[k])
    &&& end < s.len() ==> !is_digit(s[end])
}

/// The end of the longest run of digits that starts at `from`.
fn digit_run_end(chars: &Vec<char>, from: usize) -> (end: usize)
    requires
        from <= chars.len(),
    ensures
        is_digit_run(chars@, from as int, end as int),
{
    let mut end = from;
    while end < chars.len() && is_digit_char(chars[end])
        invariant
            from <= end <= chars.len(),
            forall|k: int| from <= k < end ==> is_digit(#[trigger] chars@[k]),
        decreases chars.len() - end,
    {
        end += 1;
    }
    end
}

/// A dot that follows digits from `from` on stands where the run of digits
/// from `from` ends.
proof fn lemma_dot_ends_run(s: Seq<char>, from: int, end: int, dot: int)
    requires
        is_digit_run(s, from, end),
        from <= dot < s.len(),
        s[dot] == '.',
        forall|k: int| from <= k < dot ==> is_digit(#[trigger] s[k]),
    ensures
        dot == end,
{
    if dot < end {
        assert(is_digit(s[dot]));
    } else if end < dot {
        assert(is_digit(s[end]));
    }
}

/// Where the version text that starts at `start` ends, its third run of
/// digits taken as far as it goes; `None` where no version text starts there.
fn version_end(chars: &Vec<char>, start: usize) -> (end: Option<usize>)
    requires
        start <= chars.len(),
    ensures
        match end {
            Some(e) => version_at(chars@, start as int, e as int) && forall|q: int| #[trigger]
                version_at(chars@, start as int, q) ==> q <= e,
            None => forall|q: int| !#[trigger] version_at(chars@, start as int, q),
        },
{
    let ghost s = chars@;
    let n = chars.len();
    let a = digit_run_end(chars, start);
    if a >= n || chars[a] != '.' {
        proof {
            assert forall|q: int| !#[trigger] version_at(s, start as int, q) by {
                if version_at(s, start as int, q) {
                    let (a2, b2) = choose|a2: int, b2: int| version_parts(s, start as int, a2, b2, q);
                    lemma_dot_ends_run(s, start as int, a as int, a2);
                }
            }
        }
        return None;
    }
    let b = digit_run_end(chars, a + 1);
    if b >= n || chars[b] != '.' {
        proof {
            assert forall|q: int| !#[trigger] version_at(s, start as int, q) by {
                if version_at(s, start as int, q) {
                    let (a2, b2) = choose|a2: int, b2: int| version_parts(s, start as int, a2, b2, q);
                    lemma_dot_ends_run(s, start as int, a as int, a2);
                    lemma_dot_ends_run(s, a + 1, b as int, b2);
                }
            }
        }
        return None;
    }
    let e = digit_run_end(chars, b + 1);
    proof {
        assert forall|q: int| #[trigger] version_at(s, start as int, q) implies q <= e && start < a && a + 1
            < b && b + 1 < e by {
            let (a2, b2) = choose|a2: int, b2: int| version_parts(s, start as int, a2, b2, q);
            lemma_dot_ends_run(s, start as int, a as int, a2);
            lemma_dot_ends_run(s, a + 1, b as int, b2);
            if e < q {
                assert(is_digit(s[e as int]));
            }
        }
    }
    if a == start || b == a + 1 || e == b + 1 {
        return None;
    }
    proof {
        assert(version_parts(s, start as int, a as int, b as int, e as int));
    }
    Some(e)
}

/// Searches `chars` from the left for version text and returns where the
/// first one starts and ends, its third run of digits taken as far as it goes.
pub fn find_version(chars: &Vec<char>) -> (found: Option<(usize, usize)>)
    ensures
        match found {
            Some((start, end)) => is_first_version(chars@, start as int, end as int),
            None => !has_version(chars@),
        },
{
    let n = chars.len();
    let mut i: usize = 0;
    while i < n
        invariant
            i <= n,
            n == chars.len(),
            forall|p: int, q: int| p < i ==> !#[trigger] version_at(chars@, p, q),
        decreases n - i,
    {
        // Version text starts with a digit, and not in the middle of a run
        // of digits: there it would start at the run's first digit as well.
        if is_digit_char(chars[i]) && (i == 0 || !is_digit_char(chars[i - 1])) {
            if let Some(end) = version_end(chars, i) {
                return Some((i, end));
            }
        } else {
            proof {
                assert forall|q: int| !#[trigger] version_at(chars@, i as int, q) by {
                    if version_at(chars@, i as int, q) {
                        let (a, b) = choose|a: int, b: int| version_parts(chars@, i as int, a, b, q);
                        assert(is_digit(chars@[i as int]));
                        lemma_version_extends_left(chars@, i as int, q);
                    }
                }
            }
        }
        i += 1;
    }
    proof {
        assert forall|p: int, q: int| !#[trigger] version_at(chars@, p, q) by {
            if version_at(chars@, p, q) {
                let (a, b) = choose|a: int, b: int| version_parts(chars@, p, a, b, q);
            }
        }
    }
    None
}

/// The characters of `text`, one by one.
pub fn to_chars(text: &str) -> (chars: Vec<char>)
    ensures
        chars@ == text@,
{
    let mut chars: Vec<char> = Vec::new();
    for c in it: text.chars()
        invariant
            it.seq() == text@,
            chars@ == it.seq().take(it.index()),
    {
        chars.push(c);
    }
    chars
}

/// The version text that a search of `tag` from the left finds, if `tag` holds any.
pub fn extract_version(tag: &str) -> (version: Option<String>)
    ensures
        match version {
            Some(v) => first_version(tag@) == Some(v@),
            None => first_version(tag@) is None,
        },
{
    let chars = to_chars(tag);
    match find_version(&chars) {
        Some((start, end)) => {
            proof {
                lemma_first_version_is(tag@, start as int, end as int);
            }
            Some(tag.substring_char(start, end).to_owned())
        },
        None => None,
    }
}

} // verus!
