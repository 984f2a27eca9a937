//! Semantic versions, read and compared by the `semver` crate.

use vstd::prelude::*;

use crate::text::{decimal, push_char};

verus! {

/// A semantic version: `major.minor.patch`, with an optional pre-release
/// and optional build metadata, each kept as its text (empty when absent).
#[derive(Debug, Clone, PartialEq, Eq)]
pub struct Version {
    pub major: u64,
    pub minor: u64,
    pub patch: u64,
    pub pre: String,
    pub build: String,
}

/// The parts of a version as plain values: the three numbers, the
/// pre-release and the build metadata.
pub type VersionParts = (u64, u64, u64, Seq<char>, Seq<char>);

/// What `semver::Version::parse` makes of `text`: the parts of the version,
/// or the text of the error.
pub uninterp spec fn semver_parse(text: Seq<char>) -> Result<VersionParts, Seq<char>>;

/// Whether, by `semver`'s order of `Version`, a version with pre-release
/// `pre_a` and build metadata `build_a` comes at most as late as one with
/// the same three numbers and `pre_b` and `build_b`; `None` when one of
/// the texts is no valid pre-release or build metadata.
pub uninterp spec fn semver_suffix_at_most(
    pre_a: Seq<char>,
    build_a: Seq<char>,
    pre_b: Seq<char>,
    build_b: Seq<char>,
) -> Option<bool>;

/// The text of a version, as `semver` displays it: the three numbers
/// joined by `.`, then `-` and the pre-release and `+` and the build
/// metadata, each only when it is not empty.
pub open spec fn version_text(parts: VersionParts) -> Seq<char> {
    let (major, minor, patch, pre, build) = parts;
    decimal(major as nat) + seq!['.'] + decimal(minor as nat) + seq!['.'] + decimal(patch as nat)
        + (if pre.len() > 0 {
        seq!['-'] + pre
    } else {
        Seq::empty()
    }) + (if build.len() > 0 {
        seq!['+'] + build
    } else {
        Seq::empty()
    })
}

/// A character that `semver` takes in a pre-release or in build metadata:
/// an ASCII letter or digit, `-`, or the `.` between identifiers.
pub open spec fn identifier_char(c: char) -> bool {
    ||| '0' <= c <= '9'
    ||| 'A' <= c <= 'Z'
    ||| 'a' <= c <= 'z'
    ||| c == '-'
    ||| c == '.'
}

/// `parts` are those of a version that `semver` reads: its pre-release and
/// build metadata are made of identifier characters, and its own text reads
/// back as the same parts.
pub open spec fn is_semver(parts: VersionParts) -> bool {
    &&& forall|i: int| 0 <= i < parts.3.len() ==> identifier_char(#[trigger] parts.3[i])
    &&& forall|i: int| 0 <= i < parts.4.len() ==> identifier_char(#[trigger] parts.4[i])
    &&& semver_parse(version_text(parts)) == Ok::<VersionParts, Seq<char>>(parts)
}

/// The decimal digits of `n` are digits, and there is at least one.
pub proof fn lemma_decimal_digits(n: nat)
    ensures
        decimal(n).len() > 0,
        forall|i: int| 0 <= i < decimal(n).len() ==> '0' <= #[trigger] decimal(n)[i] <= '9',
    decreases n,
{
    if n >= 10 {
        lemma_decimal_digits(n / 10);
    }
}

/// The text of a version that `semver` reads starts with a digit and holds
/// only digits, letters, `-`, `.` and `+`.
pub proof fn lemma_version_text_chars(parts: VersionParts)
    requires
        is_semver(parts),
    ensures
        version_text(parts).len() > 0,
        '0' <= version_text(parts)[0] <= '9',
        forall|i: int|
            0 <= i < version_text(parts).len() ==> identifier_char(#[trigger] version_text(parts)[i])
                || version_text(parts)[i] == '+',
{
    let (major, minor, patch, pre, build) = parts;
    lemma_decimal_digits(major as nat);
    lemma_decimal_digits(minor as nat);
    lemma_decimal_digits(patch as nat);
    let a = decimal(major as nat);
    let b = decimal(minor as nat);
    let c = decimal(patch as nat);
    let p = if pre.len() > 0 {
        seq!['-'] + pre
    } else {
        Seq::empty()
    };
    let q = if build.len() > 0 {
        seq!['+'] + build
    } else {
        Seq::empty()
    };
    let t = a + seq!['.'] + b + seq!['.'] + c + p + q;
    assert(t == version_text(parts));
    assert forall|i: int| 0 <= i < p.len() implies identifier_char(#[trigger] p[i]) by {
        if i > 0 {
            assert(p[i] == pre[i - 1]);
        }
    }
    assert forall|i: int| 0 <= i < q.len() implies identifier_char(#[trigger] q[i]) || q[i] == '+' by {
        if i > 0 {
            assert(q[i] == build[i - 1]);
        }
    }
    assert forall|i: int| 0 <= i < t.len() implies identifier_char(#[trigger] t[i]) || t[i] == '+' by {
        let l1 = a.len() as int;
        let l2 = l1 + 1 + b.len();
        let l3 = l2 + 1 + c.len();
        let l4 = l3 + p.len();
        if i < l1 {
            assert(t[i] == a[i]);
        } else if i == l1 {
            assert(t[i] == '.');
        } else if i < l2 {
            assert(t[i] == b[i - l1 - 1]);
        } else if i == l2 {
            assert(t[i] == '.');
        } else if i < l3 {
            assert(t[i] == c[i - l2 - 1]);
        } else if i < l4 {
            assert(t[i] == p[i - l3]);
        } else {
            assert(t[i] == q[i - l4]);
        }
    }
    assert(t[0] == a[0]);
}

/// `a` comes before `b` in lexicographic order of the three numbers.
pub open spec fn numbers_before(a: VersionParts, b: VersionParts) -> bool {
    ||| a.0 < b.0
    ||| a.0 == b.0 && a.1 < b.1
    ||| a.0 == b.0 && a.1 == b.1 && a.2 < b.2
}

/// Whether `a` comes at most as late as `b` by `semver`'s order: by the
/// three numbers first, and for equal numbers by pre-release and build
/// metadata.
pub open spec fn at_most(a: VersionParts, b: VersionParts) -> Option<bool> {
    if numbers_before(a, b) {
        Some(true)
    } else if numbers_before(b, a) {
        Some(false)
    } else {
        semver_suffix_at_most(a.3, a.4, b.3, b.4)
    }
}

/// `semver`'s order goes by the major number first, then the minor, then
/// the patch: a version with a greater number in the first place where
/// the three differ comes later, one with a smaller number earlier. Only
/// for three equal numbers do the pre-release and build metadata decide.
pub proof fn law_at_most_orders_by_numbers(a: VersionParts, b: VersionParts)
    ensures
        a.0 > b.0 ==> at_most(a, b) == Some(false),
        a.0 < b.0 ==> at_most(a, b) == Some(true),
        a.0 == b.0 && a.1 > b.1 ==> at_most(a, b) == Some(false),
        a.0 == b.0 && a.1 < b.1 ==> at_most(a, b) == Some(true),
        a.0 == b.0 && a.1 == b.1 && a.2 > b.2 ==> at_most(a, b) == Some(false),
        a.0 == b.0 && a.1 == b.1 && a.2 < b.2 ==> at_most(a, b) == Some(true),
        a.0 == b.0 && a.1 == b.1 && a.2 == b.2 ==> at_most(a, b) == semver_suffix_at_most(
            a.3,
            a.4,
            b.3,
            b.4,
        ),
{
}

/// A version never comes strictly before itself, and of two versions with
/// different numbers exactly one comes at most as late as the other.
pub proof fn law_at_most_is_total_on_numbers(a: VersionParts, b: VersionParts)
    requires
        (a.0, a.1, a.2) != (b.0, b.1, b.2),
    ensures
        at_most(a, b) is Some,
        at_most(b, a) is Some,
        at_most(a, b)->0 != at_most(b, a)->0,
{
}

/// Read `text` as a version, through `semver::Version::parse`; an error
/// is turned into its text. Claims too that a version read has a
/// pre-release and build metadata of identifier characters only, and that
/// its text as `semver` displays it (`version_text`) reads back as the
/// same version: the parser keeps the identifiers as written and refuses
/// leading zeros in the numbers, and the display writes the parts back.
#[verifier::external_body]
pub fn parse_version(text: &str) -> (parsed: Result<Version, String>)
    ensures
        match (parsed, semver_parse(text@)) {
            (Ok(v), Ok(parts)) => v.parts() == parts,
            (Err(e), Err(message)) => e@ == message,
            _ => false,
        },
        parsed matches Ok(v) ==> is_semver(v.parts()),
{
    match semver::Version::parse(text) {
        Ok(v) => Ok(
            Version {
                major: v.major,
                minor: v.minor,
                patch: v.patch,
                pre: v.pre.as_str().to_string(),
                build: v.build.as_str().to_string(),
            },
        ),
        Err(e) => Err(e.to_string()),
    }
}

/// Compare the pre-releases and build metadata of `a` and `b` by
/// `semver::Version`'s order, through `Prerelease::new`,
/// `BuildMetadata::new` and `Ord::cmp`; `None` when one of the texts is not
/// valid.
#[verifier::external_body]
fn suffix_at_most(a: &Version, b: &Version) -> (r: Option<bool>)
    ensures
        r == semver_suffix_at_most(a.pre@, a.build@, b.pre@, b.build@),
{
    let pre_a = semver::Prerelease::new(&a.pre).ok()?;
    let build_a = semver::BuildMetadata::new(&a.build).ok()?;
    let pre_b = semver::Prerelease::new(&b.pre).ok()?;
    let build_b = semver::BuildMetadata::new(&b.build).ok()?;
    let left = semver::Version { major: 0, minor: 0, patch: 0, pre: pre_a, build: build_a };
    let right = semver::Version { major: 0, minor: 0, patch: 0, pre: pre_b, build: build_b };
    Some(left <= right)
}

/// Append the decimal digits of `n` to `text`.
pub fn push_decimal(text: &mut String, n: u64)
    ensures
        final(text)@ == old(text)@ + decimal(n as nat),
    decreases n,
{
    if n < 10 {
        push_char(text, digit_char(n));
    } else {
        push_decimal(text, n / 10);
        push_char(text, digit_char(n % 10));
    }
}

/// The ASCII digit of `d`.
fn digit_char(d: u64) -> (c: char)
    requires
        d < 10,
    ensures
        c == ('0' as u32 + d) as char,
{
    if d == 0 {
        '0'
    } else if d == 1 {
        '1'
    } else if d == 2 {
        '2'
    } else if d == 3 {
        '3'
    } else if d == 4 {
        '4'
    } else if d == 5 {
        '5'
    } else if d == 6 {
        '6'
    } else if d == 7 {
        '7'
    } else if d == 8 {
        '8'
    } else {
        '9'
    }
}

impl Version {
    /// The parts of the version as plain values.
    pub open spec fn parts(&self) -> VersionParts {
        (self.major, self.minor, self.patch, self.pre@, self.build@)
    }

    /// The text of the version, as `semver` displays it.
    pub fn render(&self) -> (text: String)
        ensures
            text@ == version_text(self.parts()),
    {
        let mut text = String::new();
        self.push_to(&mut text);
        assert(text@ =~= version_text(self.parts()));
        text
    }

    /// Append the text of the version to `text`.
    pub fn push_to(&self, text: &mut String)
        ensures
            final(text)@ == old(text)@ + version_text(self.parts()),
    {
        push_decimal(text, self.major);
        push_char(text, '.');
        push_decimal(text, self.minor);
        push_char(text, '.');
        push_decimal(text, self.patch);
        let ghost numbers = decimal(self.major as nat) + seq!['.'] + decimal(self.minor as nat)
            + seq!['.'] + decimal(self.patch as nat);
        assert(text@ =~= old(text)@ + numbers);
        let ghost after_numbers = text@;
        if !self.pre.as_str().is_empty() {
            push_char(text, '-');
            text.append(self.pre.as_str());
        }
        let ghost after_pre = text@;
        if !self.build.as_str().is_empty() {
            push_char(text, '+');
            text.append(self.build.as_str());
        }
        assert(text@ =~= old(text)@ + version_text(self.parts()));
    }

    /// The two versions are equal, field by field, as `semver::Version`'s
    /// derived `==` compares them.
    pub fn same(&self, other: &Version) -> (r: bool)
        ensures
            r == (self.parts() == other.parts()),
    {
        self.major == other.major && self.minor == other.minor && self.patch == other.patch
            && self.pre == other.pre && self.build == other.build
    }

    /// Whether this version comes at most as late as `other` by `semver`'s
    /// order; `None` when a pre-release or build metadata is not valid.
    pub fn at_most(&self, other: &Version) -> (r: Option<bool>)
        ensures
            r == at_most(self.parts(), other.parts()),
    {
        if self.major != other.major {
            Some(self.major < other.major)
        } else if self.minor != other.minor {
            Some(self.minor < other.minor)
        } else if self.patch != other.patch {
            Some(self.patch < other.patch)
        } else {
            suffix_at_most(self, other)
        }
    }
}

} // verus!
