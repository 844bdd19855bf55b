//! Semantic versions: parsing, normalized formatting, and structural
//! equality for grouping.

use vstd::prelude::*;
use vstd::string::{StrSliceExecFns, StringExecFns};
use crate::error::{IntError, ParseVersionError, VersionField};
use vstd::std_specs::cmp::PartialEqSpec;
use crate::num::{format_u16, is_digit_char, lemma_decimal_digits, lemma_parse_decimal_u16,
    parse_u16, spec_decimal, spec_parse_u16};
use crate::text::{find_from, find_version_delim, lemma_find_from_is, version_delims};

verus! {

/// A semantic version: three 16-bit numeric fields and an optional
/// extension, the extension being the verbatim text after the third
/// delimiter of the source string.
#[derive(Clone, Debug, Hash)]
pub struct Version {
    major: u16,
    minor: u16,
    patch: u16,
    extension: Option<String>,
}

/// The mathematical value of a [`Version`].
#[verifier::ext_equal]
pub struct VersionView {
    pub major: u16,
    pub minor: u16,
    pub patch: u16,
    pub extension: Option<Seq<char>>,
}

impl View for Version {
    type V = VersionView;

    closed spec fn view(&self) -> VersionView {
        VersionView {
            major: self.major,
            minor: self.minor,
            patch: self.patch,
            extension: match self.extension {
                Some(e) => Some(e@),
                None => None,
            },
        }
    }
}

/// What a text parses to as a version: numeric fields separated by `.` or
/// `-`, in order major, minor and patch, then everything after the third
/// delimiter, verbatim, as the extension.
pub open spec fn spec_parse_version(s: Seq<char>) -> Result<VersionView, ParseVersionError> {
    let n = s.len() as int;
    let i1 = find_from(s, 0, version_delims());
    match spec_parse_u16(s.subrange(0, i1)) {
        Err(e) => Err(ParseVersionError::InvalidInteger(e)),
        Ok(major) => if i1 == n {
            Err(ParseVersionError::MissingField(VersionField::Minor))
        } else {
            let i2 = find_from(s, i1 + 1, version_delims());
            match spec_parse_u16(s.subrange(i1 + 1, i2)) {
                Err(e) => Err(ParseVersionError::InvalidInteger(e)),
                Ok(minor) => if i2 == n {
                    Err(ParseVersionError::MissingField(VersionField::Patch))
                } else {
                    let i3 = find_from(s, i2 + 1, version_delims());
                    match spec_parse_u16(s.subrange(i2 + 1, i3)) {
                        Err(e) => Err(ParseVersionError::InvalidInteger(e)),
                        Ok(patch) => Ok(VersionView {
                            major,
                            minor,
                            patch,
                            extension: if i3 == n {
                                None
                            } else {
                                Some(s.subrange(i3 + 1, n))
                            },
                        }),
                    }
                },
            }
        },
    }
}

/// The normalized text of a version: `MAJOR.MINOR.PATCH`, with
/// `-EXTENSION` appended when an extension is present.
pub open spec fn spec_version_text(v: VersionView) -> Seq<char> {
    let base = spec_decimal(v.major as int) + seq!['.'] + spec_decimal(v.minor as int)
        + seq!['.'] + spec_decimal(v.patch as int);
    match v.extension {
        Some(e) => base + seq!['-'] + e,
        None => base,
    }
}

impl Version {
    /// Parses a version string. The first three `.`/`-`-separated tokens
    /// are read as major, minor and patch; everything after the third
    /// delimiter is kept verbatim as the extension.
    pub fn from_str(s: &str) -> (r: Result<Version, ParseVersionError>)
        ensures
            (match r {
                Ok(v) => spec_parse_version(s@) == Ok::<VersionView, ParseVersionError>(v@),
                Err(e) => spec_parse_version(s@) == Err::<VersionView, ParseVersionError>(e),
            }),
    {
        let n = s.unicode_len();
        let i1 = find_version_delim(s, 0);
        let major = match parse_u16(s.substring_char(0, i1)) {
            Ok(v) => v,
            Err(e) => {
                return Err(ParseVersionError::InvalidInteger(e));
            },
        };
        if i1 == n {
            return Err(ParseVersionError::MissingField(VersionField::Minor));
        }
        let i2 = find_version_delim(s, i1 + 1);
        let minor = match parse_u16(s.substring_char(i1 + 1, i2)) {
            Ok(v) => v,
            Err(e) => {
                return Err(ParseVersionError::InvalidInteger(e));
            },
        };
        if i2 == n {
            return Err(ParseVersionError::MissingField(VersionField::Patch));
        }
        let i3 = find_version_delim(s, i2 + 1);
        let patch = match parse_u16(s.substring_char(i2 + 1, i3)) {
            Ok(v) => v,
            Err(e) => {
                return Err(ParseVersionError::InvalidInteger(e));
            },
        };
        let extension = if i3 == n {
            None
        } else {
            Some(String::from_str(s.substring_char(i3 + 1, n)))
        };
        let v = Version { major, minor, patch, extension };
        proof {
            assert(spec_parse_version(s@) == Ok::<VersionView, ParseVersionError>(v@));
        }
        Ok(v)
    }

    /// Formats the version as `MAJOR.MINOR.PATCH` or
    /// `MAJOR.MINOR.PATCH-EXTENSION`.
    pub fn to_text(&self) -> (r: String)
        ensures
            r@ == spec_version_text(self@),
    {
        let mut s = format_u16(self.major);
        s.append(".");
        let minor_text = format_u16(self.minor);
        s.append(minor_text.as_str());
        s.append(".");
        let patch_text = format_u16(self.patch);
        s.append(patch_text.as_str());
        match &self.extension {
            Some(e) => {
                s.append("-");
                s.append(e.as_str());
            },
            None => {},
        }
        proof {
            reveal_strlit(".");
            reveal_strlit("-");
            assert("."@ =~= seq!['.']);
            assert("-"@ =~= seq!['-']);
            assert(s@ =~= spec_version_text(self@));
        }
        s
    }

    /// Builds a version directly from its four fields.
    pub fn new(major: u16, minor: u16, patch: u16, extension: Option<String>) -> (r: Version)
        ensures
            r@.major == major,
            r@.minor == minor,
            r@.patch == patch,
            (match extension {
                Some(e) => r@.extension == Some(e@),
                None => r@.extension == None::<Seq<char>>,
            }),
    {
        Version { major, minor, patch, extension }
    }

    /// The major field.
    pub fn major(&self) -> (r: u16)
        ensures
            r == self@.major,
    {
        self.major
    }

    /// The minor field.
    pub fn minor(&self) -> (r: u16)
        ensures
            r == self@.minor,
    {
        self.minor
    }

    /// The patch field.
    pub fn patch(&self) -> (r: u16)
        ensures
            r == self@.patch,
    {
        self.patch
    }

    /// The extension, verbatim, when one is present.
    pub fn extension(&self) -> (r: &Option<String>)
        ensures
            (match r {
                Some(e) => self@.extension == Some(e@),
                None => self@.extension == None::<Seq<char>>,
            }),
    {
        &self.extension
    }
}

impl PartialEq for Version {
    /// Structural equality: all four fields, the extension compared as
    /// text, an absent extension differing from an empty one.
    fn eq(&self, other: &Version) -> (r: bool) {
        let numbers_eq = self.major == other.major && self.minor == other.minor && self.patch
            == other.patch;
        let extension_eq = match (&self.extension, &other.extension) {
            (None, None) => true,
            (Some(a), Some(b)) => *a == *b,
            _ => false,
        };
        let r = numbers_eq && extension_eq;
        proof {
            if r {
                assert(self@ =~= other@);
            }
        }
        r
    }
}

impl vstd::std_specs::cmp::PartialEqSpecImpl for Version {
    open spec fn obeys_eq_spec() -> bool {
        true
    }

    open spec fn eq_spec(&self, other: &Version) -> bool {
        self@ == other@
    }
}

impl Eq for Version {

}

/// Round trip at the level of version values: re-parsing the normalized
/// text of any version value yields that value again.
pub proof fn lemma_view_round_trip(v: VersionView)
    ensures
        spec_parse_version(spec_version_text(v)) == Ok::<VersionView, ParseVersionError>(v),
{
    let d1 = spec_decimal(v.major as int);
    let d2 = spec_decimal(v.minor as int);
    let d3 = spec_decimal(v.patch as int);
    lemma_decimal_digits(v.major as int);
    lemma_decimal_digits(v.minor as int);
    lemma_decimal_digits(v.patch as int);
    lemma_parse_decimal_u16(v.major);
    lemma_parse_decimal_u16(v.minor);
    lemma_parse_decimal_u16(v.patch);
    let s = spec_version_text(v);
    let n = s.len() as int;
    let p1 = d1.len() as int;
    let p2 = p1 + 1 + d2.len() as int;
    let p3 = p2 + 1 + d3.len() as int;
    assert(s[p1] == '.');
    assert(s[p2] == '.');
    assert forall|j: int| 0 <= j < p1 implies !version_delims().contains(s[j]) by {
        assert(s[j] == d1[j]);
        assert(is_digit_char(d1[j]));
    }
    assert forall|j: int| p1 + 1 <= j < p2 implies !version_delims().contains(s[j]) by {
        assert(s[j] == d2[j - (p1 + 1)]);
        assert(is_digit_char(d2[j - (p1 + 1)]));
    }
    assert forall|j: int| p2 + 1 <= j < p3 implies !version_delims().contains(s[j]) by {
        assert(s[j] == d3[j - (p2 + 1)]);
        assert(is_digit_char(d3[j - (p2 + 1)]));
    }
    lemma_find_from_is(s, 0, p1, version_delims());
    assert(s.subrange(0, p1) =~= d1);
    lemma_find_from_is(s, p1 + 1, p2, version_delims());
    assert(s.subrange(p1 + 1, p2) =~= d2);
    match v.extension {
        None => {
            assert(n == p3);
            lemma_find_from_is(s, p2 + 1, p3, version_delims());
            assert(s.subrange(p2 + 1, p3) =~= d3);
            assert(spec_parse_version(s)->Ok_0 =~= v);
        },
        Some(e) => {
            assert(n == p3 + 1 + e.len());
            assert(s[p3] == '-');
            lemma_find_from_is(s, p2 + 1, p3, version_delims());
            assert(s.subrange(p2 + 1, p3) =~= d3);
            assert(s.subrange(p3 + 1, n) =~= e);
            assert(spec_parse_version(s)->Ok_0 =~= v);
        },
    }
}

/// Round trip: formatting a parsed version and re-parsing the text yields
/// an equal version, and an extension-less version never gains a spurious
/// extension.
pub proof fn lemma_version_round_trip(v: Version)
    ensures
        spec_parse_version(spec_version_text(v@)) == Ok::<VersionView, ParseVersionError>(v@),
{
    lemma_view_round_trip(v@);
}

/// Grouping is driven by the structural fields alone: two versions parsed
/// from textually different strings compare equal exactly when their
/// structured values agree.
pub proof fn lemma_version_grouping(s1: Seq<char>, s2: Seq<char>, v1: Version, v2: Version)
    requires
        s1 != s2,
        spec_parse_version(s1) == Ok::<VersionView, ParseVersionError>(v1@),
        spec_parse_version(s2) == Ok::<VersionView, ParseVersionError>(v2@),
        v1@ == v2@,
    ensures
        v1.eq_spec(&v2),
{
}

/// A version text of exactly two numeric segments fails with a missing
/// patch field.
pub proof fn lemma_two_segments_missing_patch(s: Seq<char>)
    requires
        ({
            let i1 = find_from(s, 0, version_delims());
            &&& i1 < s.len()
            &&& find_from(s, i1 + 1, version_delims()) == s.len()
            &&& spec_parse_u16(s.subrange(0, i1)) is Ok
            &&& spec_parse_u16(s.subrange(i1 + 1, s.len() as int)) is Ok
        }),
    ensures
        spec_parse_version(s) == Err::<VersionView, ParseVersionError>(
            ParseVersionError::MissingField(VersionField::Patch),
        ),
{
}

} // verus!
