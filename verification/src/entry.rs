//! Entry lines: one delimited text line parsed into a timestamp, a version,
//! a maximum value and a list of integer values.

use vstd::prelude::*;
use vstd::string::{StrSliceExecFns, StringExecFns};
use crate::error::{EntryErrorKind, EntryField, IntError, ParseEntryError, ParseVersionError};
use crate::num::{parse_i32, spec_parse_i32};
use crate::text::{comma_delims, entry_delims, find_comma, find_entry_delim, find_from,
    lemma_find_from, lemma_find_from_is};
use crate::timestamp::{parse_timestamp_text, spec_parse_timestamp, Timestamp};
use crate::version::{spec_parse_version, Version, VersionView};

verus! {

/// One parsed line: timestamp, version, max and values.
#[derive(Debug)]
pub struct Entry {
    pub timestamp: Timestamp,
    pub version: Version,
    pub max: i32,
    pub values: Vec<i32>,
}

/// The mathematical value of an [`Entry`].
#[verifier::ext_equal]
pub struct EntryView {
    pub timestamp: Timestamp,
    pub version: VersionView,
    pub max: i32,
    pub values: Seq<i32>,
}

impl View for Entry {
    type V = EntryView;

    open spec fn view(&self) -> EntryView {
        EntryView {
            timestamp: self.timestamp,
            version: self.version@,
            max: self.max,
            values: self.values@,
        }
    }
}

/// What the values text parses to from position `pos` on: comma-separated
/// 32-bit signed integers, one token at least (an empty text is one empty
/// token, which fails as an integer).
pub open spec fn spec_parse_values_from(s: Seq<char>, pos: int) -> Result<Seq<i32>, IntError>
    decreases s.len() - pos
        when 0 <= pos <= s.len()
        via spec_parse_values_from_decreases
{
    let j = find_from(s, pos, comma_delims());
    match spec_parse_i32(s.subrange(pos, j)) {
        Err(e) => Err(e),
        Ok(v) => if j == s.len() {
            Ok(seq![v])
        } else {
            match spec_parse_values_from(s, j + 1) {
                Err(e) => Err(e),
                Ok(rest) => Ok(seq![v] + rest),
            }
        },
    }
}

#[via_fn]
proof fn spec_parse_values_from_decreases(s: Seq<char>, pos: int) {
    lemma_find_from(s, pos, comma_delims());
}

/// What the whole values text parses to.
pub open spec fn spec_parse_values(s: Seq<char>) -> Result<Seq<i32>, IntError> {
    spec_parse_values_from(s, 0)
}

/// What a line parses to as an entry. The `|` and `:` characters both
/// separate the top-level segments; the timestamp spans the first two
/// segments, its own text holding a `:`; then come the version and max
/// segments, and everything after the fourth delimiter is the
/// comma-separated values list. Parsing is sequential and stops at the
/// first failing stage.
pub open spec fn spec_parse_entry(s: Seq<char>) -> Result<EntryView, EntryErrorKind> {
    let n = s.len() as int;
    let i0 = find_from(s, 0, entry_delims());
    if i0 == n {
        Err(EntryErrorKind::MissingField(EntryField::Timestamp))
    } else {
        let i1 = find_from(s, i0 + 1, entry_delims());
        let ts_text = s.subrange(0, i0) + seq![':'] + s.subrange(i0 + 1, i1);
        match spec_parse_timestamp(ts_text) {
            None => Err(EntryErrorKind::InvalidTimestamp),
            Some(t) => if i1 == n {
                Err(EntryErrorKind::MissingField(EntryField::Version))
            } else {
                let i2 = find_from(s, i1 + 1, entry_delims());
                match spec_parse_version(s.subrange(i1 + 1, i2)) {
                    Err(e) => Err(EntryErrorKind::InvalidVersion(e)),
                    Ok(v) => if i2 == n {
                        Err(EntryErrorKind::MissingField(EntryField::Max))
                    } else {
                        let i3 = find_from(s, i2 + 1, entry_delims());
                        match spec_parse_i32(s.subrange(i2 + 1, i3)) {
                            Err(e) => Err(EntryErrorKind::InvalidInteger(e)),
                            Ok(m) => if i3 == n {
                                Err(EntryErrorKind::MissingField(EntryField::Values))
                            } else {
                                match spec_parse_values(s.subrange(i3 + 1, n)) {
                                    Err(e) => Err(EntryErrorKind::InvalidInteger(e)),
                                    Ok(vals) => Ok(EntryView {
                                        timestamp: t,
                                        version: v,
                                        max: m,
                                        values: vals,
                                    }),
                                }
                            },
                        }
                    },
                }
            },
        }
    }
}

/// Parses the comma-separated values list.
fn parse_values(s: &str) -> (r: Result<Vec<i32>, IntError>)
    ensures
        (match r {
            Ok(vs) => spec_parse_values(s@) == Ok::<Seq<i32>, IntError>(vs@),
            Err(e) => spec_parse_values(s@) == Err::<Seq<i32>, IntError>(e),
        }),
{
    let n = s.unicode_len();
    let mut acc: Vec<i32> = Vec::new();
    let mut pos: usize = 0;
    proof {
        if spec_parse_values_from(s@, 0) is Ok {
            assert(acc@ + spec_parse_values_from(s@, 0)->Ok_0 =~= spec_parse_values_from(
                s@,
                0,
            )->Ok_0);
        }
    }
    loop
        invariant
            pos <= n,
            n == s@.len(),
            (match spec_parse_values_from(s@, pos as int) {
                Ok(rest) => spec_parse_values(s@) == Ok::<Seq<i32>, IntError>(acc@ + rest),
                Err(e) => spec_parse_values(s@) == Err::<Seq<i32>, IntError>(e),
            }),
        decreases n - pos,
    {
        let j = find_comma(s, pos);
        let ghost old_acc = acc@;
        match parse_i32(s.substring_char(pos, j)) {
            Err(e) => {
                return Err(e);
            },
            Ok(v) => {
                acc.push(v);
                if j == n {
                    proof {
                        assert(acc@ =~= old_acc + seq![v]);
                    }
                    return Ok(acc);
                }
                proof {
                    assert(acc@ =~= old_acc + seq![v]);
                    if spec_parse_values_from(s@, j + 1) is Ok {
                        let rest = spec_parse_values_from(s@, j + 1)->Ok_0;
                        assert(old_acc + (seq![v] + rest) =~= acc@ + rest);
                    }
                }
                pos = j + 1;
            },
        }
    }
}

impl Entry {
    /// Parses one entry line, reporting the first failing stage: segment
    /// presence and the timestamp, then the version, then max, then the
    /// values, each stage seeing the text between consecutive delimiters.
    pub fn from_str(s: &str) -> (r: Result<Entry, ParseEntryError>)
        ensures
            (match r {
                Ok(e) => spec_parse_entry(s@) == Ok::<EntryView, EntryErrorKind>(e@),
                Err(err) => spec_parse_entry(s@) == Err::<EntryView, EntryErrorKind>(err.kind()),
            }),
    {
        let n = s.unicode_len();
        let i0 = find_entry_delim(s, 0);
        if i0 == n {
            return Err(ParseEntryError::MissingField(EntryField::Timestamp));
        }
        let i1 = find_entry_delim(s, i0 + 1);
        let mut ts_text = String::from_str(s.substring_char(0, i0));
        ts_text.append(":");
        let ts_tail = s.substring_char(i0 + 1, i1);
        ts_text.append(ts_tail);
        proof {
            reveal_strlit(":");
            assert(":"@ =~= seq![':']);
        }
        let timestamp = match parse_timestamp_text(ts_text.as_str()) {
            Ok(t) => t,
            Err(m) => {
                return Err(ParseEntryError::InvalidTimestamp(m));
            },
        };
        if i1 == n {
            return Err(ParseEntryError::MissingField(EntryField::Version));
        }
        let i2 = find_entry_delim(s, i1 + 1);
        let version = match Version::from_str(s.substring_char(i1 + 1, i2)) {
            Ok(v) => v,
            Err(e) => {
                return Err(ParseEntryError::InvalidVersion(e));
            },
        };
        if i2 == n {
            return Err(ParseEntryError::MissingField(EntryField::Max));
        }
        let i3 = find_entry_delim(s, i2 + 1);
        let max = match parse_i32(s.substring_char(i2 + 1, i3)) {
            Ok(v) => v,
            Err(e) => {
                return Err(ParseEntryError::InvalidInteger(e));
            },
        };
        if i3 == n {
            return Err(ParseEntryError::MissingField(EntryField::Values));
        }
        let values = match parse_values(s.substring_char(i3 + 1, n)) {
            Ok(vs) => vs,
            Err(e) => {
                return Err(ParseEntryError::InvalidInteger(e));
            },
        };
        let entry = Entry { timestamp, version, max, values };
        proof {
            assert(spec_parse_entry(s@) == Ok::<EntryView, EntryErrorKind>(entry@));
        }
        Ok(entry)
    }
}

/// A successfully parsed values list is never empty.
pub proof fn lemma_values_nonempty(s: Seq<char>, pos: int)
    requires
        0 <= pos <= s.len(),
    ensures
        spec_parse_values_from(s, pos) matches Ok(vs) ==> vs.len() >= 1,
{
}

/// A parsed entry holds at least one value.
pub proof fn lemma_entry_values_nonempty(s: Seq<char>)
    ensures
        spec_parse_entry(s) matches Ok(e) ==> e.values.len() >= 1,
{
    if spec_parse_entry(s) is Ok {
        let n = s.len() as int;
        lemma_find_from(s, 0, entry_delims());
        let i0 = find_from(s, 0, entry_delims());
        lemma_find_from(s, i0 + 1, entry_delims());
        let i1 = find_from(s, i0 + 1, entry_delims());
        lemma_find_from(s, i1 + 1, entry_delims());
        let i2 = find_from(s, i1 + 1, entry_delims());
        lemma_find_from(s, i2 + 1, entry_delims());
        let i3 = find_from(s, i2 + 1, entry_delims());
        lemma_values_nonempty(s.subrange(i3 + 1, n), 0);
    }
}

/// Missing any of the four top-level segments is reported as exactly that
/// missing segment, each earlier stage having succeeded.
pub proof fn lemma_missing_segment(s: Seq<char>)
    ensures
        ({
            let n = s.len() as int;
            let i0 = find_from(s, 0, entry_delims());
            &&& (i0 == n ==> spec_parse_entry(s) == Err::<EntryView, EntryErrorKind>(
                EntryErrorKind::MissingField(EntryField::Timestamp),
            ))
            &&& (i0 < n ==> ({
                let i1 = find_from(s, i0 + 1, entry_delims());
                let ts_text = s.subrange(0, i0) + seq![':'] + s.subrange(i0 + 1, i1);
                spec_parse_timestamp(ts_text) is Some ==> ({
                    &&& (i1 == n ==> spec_parse_entry(s) == Err::<EntryView, EntryErrorKind>(
                        EntryErrorKind::MissingField(EntryField::Version),
                    ))
                    &&& (i1 < n ==> ({
                        let i2 = find_from(s, i1 + 1, entry_delims());
                        spec_parse_version(s.subrange(i1 + 1, i2)) is Ok ==> ({
                            &&& (i2 == n ==> spec_parse_entry(s) == Err::<
                                EntryView,
                                EntryErrorKind,
                            >(EntryErrorKind::MissingField(EntryField::Max)))
                            &&& (i2 < n ==> ({
                                let i3 = find_from(s, i2 + 1, entry_delims());
                                (spec_parse_i32(s.subrange(i2 + 1, i3)) is Ok && i3 == n)
                                    ==> spec_parse_entry(s) == Err::<EntryView, EntryErrorKind>(
                                    EntryErrorKind::MissingField(EntryField::Values),
                                )
                            }))
                        })
                    }))
                })
            }))
        }),
{
    lemma_find_from(s, 0, entry_delims());
}

/// A max or values token that fails to parse as an integer is reported as
/// an invalid integer, and no partial entry comes back.
pub proof fn lemma_invalid_integer(s: Seq<char>)
    ensures
        ({
            let n = s.len() as int;
            let i0 = find_from(s, 0, entry_delims());
            i0 < n ==> ({
                let i1 = find_from(s, i0 + 1, entry_delims());
                let ts_text = s.subrange(0, i0) + seq![':'] + s.subrange(i0 + 1, i1);
                (spec_parse_timestamp(ts_text) is Some && i1 < n) ==> ({
                    let i2 = find_from(s, i1 + 1, entry_delims());
                    (spec_parse_version(s.subrange(i1 + 1, i2)) is Ok && i2 < n) ==> ({
                        let i3 = find_from(s, i2 + 1, entry_delims());
                        &&& (spec_parse_i32(s.subrange(i2 + 1, i3)) matches Err(e)
                            ==> spec_parse_entry(s) == Err::<EntryView, EntryErrorKind>(
                            EntryErrorKind::InvalidInteger(e),
                        ))
                        &&& ((spec_parse_i32(s.subrange(i2 + 1, i3)) is Ok && i3 < n) ==> (
                        spec_parse_values(s.subrange(i3 + 1, n)) matches Err(e)
                            ==> spec_parse_entry(s) == Err::<EntryView, EntryErrorKind>(
                            EntryErrorKind::InvalidInteger(e),
                        )))
                    })
                })
            })
        }),
{
}

/// A well-formed line parses successfully and reconstructs exactly the
/// fields present in the input: the timestamp text spans the first two
/// segments, then come the version and max segments, and the rest is the
/// values list.
pub proof fn lemma_well_formed_line(
    a: Seq<char>,
    b: Seq<char>,
    vs: Seq<char>,
    ms: Seq<char>,
    ls: Seq<char>,
    v: VersionView,
    m: i32,
    ns: Seq<i32>,
)
    requires
        forall|j: int| 0 <= j < a.len() ==> !entry_delims().contains(#[trigger] a[j]),
        forall|j: int| 0 <= j < b.len() ==> !entry_delims().contains(#[trigger] b[j]),
        forall|j: int| 0 <= j < vs.len() ==> !entry_delims().contains(#[trigger] vs[j]),
        forall|j: int| 0 <= j < ms.len() ==> !entry_delims().contains(#[trigger] ms[j]),
        spec_parse_version(vs) == Ok::<VersionView, ParseVersionError>(v),
        spec_parse_i32(ms) == Ok::<i32, IntError>(m),
        spec_parse_values(ls) == Ok::<Seq<i32>, IntError>(ns),
    ensures
        ({
            let line = a + seq![':'] + b + seq!['|'] + vs + seq!['|'] + ms + seq![':'] + ls;
            spec_parse_timestamp(a + seq![':'] + b) matches Some(t) ==> spec_parse_entry(line)
                == Ok::<EntryView, EntryErrorKind>(
                EntryView { timestamp: t, version: v, max: m, values: ns },
            )
        }),
{
    let line = a + seq![':'] + b + seq!['|'] + vs + seq!['|'] + ms + seq![':'] + ls;
    let n = line.len() as int;
    let q0 = a.len() as int;
    let q1 = q0 + 1 + b.len() as int;
    let q2 = q1 + 1 + vs.len() as int;
    let q3 = q2 + 1 + ms.len() as int;
    assert(line[q0] == ':');
    assert(line[q1] == '|');
    assert(line[q2] == '|');
    assert(line[q3] == ':');
    assert forall|j: int| 0 <= j < q0 implies !entry_delims().contains(line[j]) by {
        assert(line[j] == a[j]);
    }
    assert forall|j: int| q0 + 1 <= j < q1 implies !entry_delims().contains(line[j]) by {
        assert(line[j] == b[j - (q0 + 1)]);
    }
    assert forall|j: int| q1 + 1 <= j < q2 implies !entry_delims().contains(line[j]) by {
        assert(line[j] == vs[j - (q1 + 1)]);
    }
    assert forall|j: int| q2 + 1 <= j < q3 implies !entry_delims().contains(line[j]) by {
        assert(line[j] == ms[j - (q2 + 1)]);
    }
    lemma_find_from_is(line, 0, q0, entry_delims());
    lemma_find_from_is(line, q0 + 1, q1, entry_delims());
    lemma_find_from_is(line, q1 + 1, q2, entry_delims());
    lemma_find_from_is(line, q2 + 1, q3, entry_delims());
    assert(line.subrange(0, q0) =~= a);
    assert(line.subrange(q0 + 1, q1) =~= b);
    assert(line.subrange(0, q0) + seq![':'] + line.subrange(q0 + 1, q1) =~= a + seq![':'] + b);
    assert(line.subrange(q1 + 1, q2) =~= vs);
    assert(line.subrange(q2 + 1, q3) =~= ms);
    assert(line.subrange(q3 + 1, n) =~= ls);
    if spec_parse_timestamp(a + seq![':'] + b) is Some {
        let t = spec_parse_timestamp(a + seq![':'] + b)->Some_0;
        assert(spec_parse_entry(line) is Ok);
        assert(spec_parse_entry(line)->Ok_0 =~= EntryView {
            timestamp: t,
            version: v,
            max: m,
            values: ns,
        });
    }
}

} // verus!
