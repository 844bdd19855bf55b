//! Delimiter search over text: the building block of both parsers, which
//! read a line as delimiter-bounded segments.

use vstd::prelude::*;
use vstd::string::StrSliceExecFns;

verus! {

/// The characters that separate the top-level segments of an entry line.
pub open spec fn entry_delims() -> Set<char> {
    set!['|', ':']
}

/// The characters that separate the numeric fields of a version string.
pub open spec fn version_delims() -> Set<char> {
    set!['.', '-']
}

/// The character that separates the tokens of the values list.
pub open spec fn comma_delims() -> Set<char> {
    set![',']
}

/// The index of the first character of `s` at or after `from` that `delims`
/// contains, or the length of `s` when there is none.
pub open spec fn find_from(s: Seq<char>, from: int, delims: Set<char>) -> int
    decreases s.len() - from,
{
    if from < 0 || from >= s.len() {
        s.len() as int
    } else if delims.contains(s[from]) {
        from
    } else {
        find_from(s, from + 1, delims)
    }
}

/// `find_from` lands between `from` and the end, on a delimiter if on
/// anything, and skips no delimiter on the way.
pub proof fn lemma_find_from(s: Seq<char>, from: int, delims: Set<char>)
    requires
        0 <= from <= s.len(),
    ensures
        from <= find_from(s, from, delims) <= s.len(),
        forall|j: int| from <= j < find_from(s, from, delims) ==> !delims.contains(s[j]),
        find_from(s, from, delims) < s.len() ==> delims.contains(s[find_from(s, from, delims)]),
    decreases s.len() - from,
{
    if from < s.len() && !delims.contains(s[from]) {
        lemma_find_from(s, from + 1, delims);
    }
}

/// Conversely, an index with no delimiter before it that sits on a delimiter
/// or at the end is what `find_from` returns.
pub proof fn lemma_find_from_is(s: Seq<char>, from: int, i: int, delims: Set<char>)
    requires
        0 <= from <= i <= s.len(),
        forall|j: int| from <= j < i ==> !delims.contains(s[j]),
        i < s.len() ==> delims.contains(s[i]),
    ensures
        find_from(s, from, delims) == i,
    decreases i - from,
{
    if from < i {
        assert(!delims.contains(s[from]));
        lemma_find_from_is(s, from + 1, i, delims);
    }
}

/// The first `|` or `:` of `s` at or after `from`, or the length of `s`.
pub fn find_entry_delim(s: &str, from: usize) -> (r: usize)
    requires
        from <= s@.len(),
    ensures
        r == find_from(s@, from as int, entry_delims()),
        from <= r <= s@.len(),
        r < s@.len() ==> entry_delims().contains(s@[r as int]),
{
    let n = s.unicode_len();
    let mut i = from;
    while i < n
        invariant
            from <= i <= n,
            n == s@.len(),
            forall|j: int| from <= j < i ==> !entry_delims().contains(s@[j]),
        decreases n - i,
    {
        let c = s.get_char(i);
        if c == '|' || c == ':' {
            proof {
                assert(entry_delims().contains(s@[i as int]));
                lemma_find_from_is(s@, from as int, i as int, entry_delims());
            }
            return i;
        }
        proof {
            assert(!entry_delims().contains(s@[i as int]));
        }
        i = i + 1;
    }
    proof {
        lemma_find_from_is(s@, from as int, i as int, entry_delims());
    }
    i
}

/// The first `.` or `-` of `s` at or after `from`, or the length of `s`.
pub fn find_version_delim(s: &str, from: usize) -> (r: usize)
    requires
        from <= s@.len(),
    ensures
        r == find_from(s@, from as int, version_delims()),
        from <= r <= s@.len(),
        r < s@.len() ==> version_delims().contains(s@[r as int]),
{
    let n = s.unicode_len();
    let mut i = from;
    while i < n
        invariant
            from <= i <= n,
            n == s@.len(),
            forall|j: int| from <= j < i ==> !version_delims().contains(s@[j]),
        decreases n - i,
    {
        let c = s.get_char(i);
        if c == '.' || c == '-' {
            proof {
                assert(version_delims().contains(s@[i as int]));
                lemma_find_from_is(s@, from as int, i as int, version_delims());
            }
            return i;
        }
        proof {
            assert(!version_delims().contains(s@[i as int]));
        }
        i = i + 1;
    }
    proof {
        lemma_find_from_is(s@, from as int, i as int, version_delims());
    }
    i
}

/// The first `,` of `s` at or after `from`, or the length of `s`.
pub fn find_comma(s: &str, from: usize) -> (r: usize)
    requires
        from <= s@.len(),
    ensures
        r == find_from(s@, from as int, comma_delims()),
        from <= r <= s@.len(),
        r < s@.len() ==> comma_delims().contains(s@[r as int]),
{
    let n = s.unicode_len();
    let mut i = from;
    while i < n
        invariant
            from <= i <= n,
            n == s@.len(),
            forall|j: int| from <= j < i ==> !comma_delims().contains(s@[j]),
        decreases n - i,
    {
        let c = s.get_char(i);
        if c == ',' {
            proof {
                assert(comma_delims().contains(s@[i as int]));
                lemma_find_from_is(s@, from as int, i as int, comma_delims());
            }
            return i;
        }
        proof {
            assert(!comma_delims().contains(s@[i as int]));
        }
        i = i + 1;
    }
    proof {
        lemma_find_from_is(s@, from as int, i as int, comma_delims());
    }
    i
}

} // verus!
