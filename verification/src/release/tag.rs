//! Checks of the version that a release names: the pushed tag, the new
//! version of a bump, and the registry's list of published versions.

use vstd::prelude::*;

use crate::text::{chars_of, find, find_chars, occurs_at, starts_with};
use crate::version::{at_most, parse_version, semver_parse, version_text, Version, VersionParts};

verus! {

/// The version that the tag `ref_name` names: `v` and then a semantic
/// version, or the error that explains why the tag is not of that form.
pub open spec fn tag_version_of(ref_name: Seq<char>) -> Result<VersionParts, Seq<char>> {
    if !starts_with(ref_name, "v"@) {
        Err("tag `"@ + ref_name + "` does not start with `v`"@)
    } else {
        match semver_parse(ref_name.drop_first()) {
            Err(_) => Err("tag `"@ + ref_name + "` is not `v<semver>`"@),
            Ok(parts) => Ok(parts),
        }
    }
}

/// What the check of the tag `ref_name` against the workspace version
/// `manifest` says: the tag is `v` and then the manifest's version, or the
/// error that explains why not.
pub open spec fn tag_check(ref_name: Seq<char>, manifest: VersionParts) -> Result<
    Seq<char>,
    Seq<char>,
> {
    match tag_version_of(ref_name) {
        Err(e) => Err(e),
        Ok(parts) => if parts != manifest {
            Err(
                "tag `"@ + ref_name + "` does not match workspace version `"@ + version_text(
                    manifest,
                ) + "` — refusing to publish"@,
            )
        } else {
            Ok(
                "Tag `"@ + ref_name + "` matches workspace version `"@ + version_text(manifest)
                    + "`."@,
            )
        },
    }
}

/// What the check of a bump from `current` to `new` says: nothing when
/// `new` comes strictly after `current`; otherwise the error.
pub open spec fn bump_check(new: VersionParts, current: VersionParts) -> Result<(), Seq<char>> {
    match at_most(new, current) {
        Some(false) => Ok(()),
        Some(true) => Err(
            "new version "@ + version_text(new) + " must be strictly greater than current "@
                + version_text(current),
        ),
        None => Err(
            "new version "@ + version_text(new) + " cannot be compared with current "@
                + version_text(current),
        ),
    }
}

/// A bump goes through when the new version's numbers come later than the
/// current one's, compared by major, then minor, then patch, and is
/// refused when they come earlier: a patch release such as `0.1.0` to
/// `0.1.1` is accepted.
pub proof fn law_bump_follows_numbers(new: VersionParts, current: VersionParts)
    ensures
        ({
            ||| new.0 > current.0
            ||| new.0 == current.0 && new.1 > current.1
            ||| new.0 == current.0 && new.1 == current.1 && new.2 > current.2
        }) ==> bump_check(new, current) is Ok,
        ({
            ||| new.0 < current.0
            ||| new.0 == current.0 && new.1 < current.1
            ||| new.0 == current.0 && new.1 == current.1 && new.2 < current.2
        }) ==> bump_check(new, current) is Err,
{
    crate::version::law_at_most_orders_by_numbers(new, current);
}

/// The text that marks `version` in the registry's list of a crate's
/// versions.
pub open spec fn listing_needle(version: VersionParts) -> Seq<char> {
    "\"num\":\""@ + version_text(version) + "\""@
}

/// Read the version that the tag `ref_name` names: it must be `v`
/// followed by a semantic version.
pub fn tag_version(ref_name: &str) -> (result: Result<Version, String>)
    ensures
        match (result, tag_version_of(ref_name@)) {
            (Ok(v), Ok(parts)) => v.parts() == parts,
            (Err(e), Err(expected)) => e@ == expected,
            _ => false,
        },
{
    let chars = chars_of(ref_name);
    let v = chars_of("v");
    if !crate::text::has_prefix(chars.as_slice(), v.as_slice()) {
        let mut message = String::new();
        message.append("tag `");
        message.append(ref_name);
        message.append("` does not start with `v`");
        return Err(message);
    }
    proof {
        reveal_strlit("v");
    }
    let rest = crate::text::copy_range(chars.as_slice(), 1, chars.len());
    assert(rest@ =~= ref_name@.drop_first());
    let rest_text = crate::text::string_of(rest.as_slice());
    match parse_version(rest_text.as_str()) {
        Err(_) => {
            let mut message = String::new();
            message.append("tag `");
            message.append(ref_name);
            message.append("` is not `v<semver>`");
            Err(message)
        },
        Ok(tag) => Ok(tag),
    }
}

/// The text that opens the registry's entry for `version`: `"num":"` and
/// the version's text, without the closing quote.
pub open spec fn entry_opening(version: VersionParts) -> Seq<char> {
    "\"num\":\""@ + version_text(version)
}

/// A version counts as listed exactly where its full text stands between
/// the quotes of a `"num":"..."` entry: the listing holds `"num":"` and
/// the version's text with a closing `"` right after it. So a listing of
/// `1.0.0-rc.1` alone does not list `1.0.0`, nor one of `0.1.10` list
/// `0.1.1`.
pub proof fn law_listed_needs_whole_version(body: Seq<char>, version: VersionParts)
    ensures
        find(body, listing_needle(version)) is Some <==> exists|i: int|
            #[trigger] occurs_at(body, entry_opening(version), i) && i + entry_opening(version).len()
                < body.len() && body[i + entry_opening(version).len()] == '"',
{
    let open = entry_opening(version);
    let needle = listing_needle(version);
    reveal_strlit("\"");
    assert(needle =~= open.push('"'));
    crate::text::lemma_find_from(body, needle, 0);
    if find(body, needle) is Some {
        let i = find(body, needle)->0;
        assert(occurs_at(body, needle, i));
        assert(body.subrange(i, i + needle.len())[open.len() as int] == '"');
        assert(body.subrange(i, i + open.len()) =~= body.subrange(i, i + needle.len()).take(
            open.len() as int,
        ));
        assert(body.subrange(i, i + needle.len()) == needle);
        assert(needle.take(open.len() as int) =~= open);
        assert(occurs_at(body, open, i));
    }
    if exists|i: int|
        #[trigger] occurs_at(body, open, i) && i + open.len() < body.len() && body[i + open.len()]
            == '"' {
        let i = choose|i: int|
            #[trigger] occurs_at(body, open, i) && i + open.len() < body.len() && body[i
                + open.len()] == '"';
        assert(body.subrange(i, i + needle.len()) =~= needle);
        assert(occurs_at(body, needle, i));
    }
}

/// Check the tag `ref_name` that a release was pushed with against the
/// workspace version `manifest`: it must be `v` followed by that version.
/// Returns the message that confirms it, or the error.
pub fn check_tag(ref_name: &str, manifest: &Version) -> (result: Result<String, String>)
    ensures
        match (result, tag_check(ref_name@, manifest.parts())) {
            (Ok(m), Ok(expected)) => m@ == expected,
            (Err(e), Err(expected)) => e@ == expected,
            _ => false,
        },
{
    let tag = tag_version(ref_name)?;
    if !tag.same(manifest) {
        let mut message = String::new();
        message.append("tag `");
        message.append(ref_name);
        message.append("` does not match workspace version `");
        manifest.push_to(&mut message);
        message.append("` — refusing to publish");
        Err(message)
    } else {
        let mut message = String::new();
        message.append("Tag `");
        message.append(ref_name);
        message.append("` matches workspace version `");
        manifest.push_to(&mut message);
        message.append("`.");
        Ok(message)
    }
}

/// Check that `new` comes strictly after `current`, as a version bump
/// must.
pub fn check_new_version(new: &Version, current: &Version) -> (result: Result<(), String>)
    ensures
        match (result, bump_check(new.parts(), current.parts())) {
            (Ok(()), Ok(())) => true,
            (Err(e), Err(expected)) => e@ == expected,
            _ => false,
        },
{
    match new.at_most(current) {
        Some(false) => Ok(()),
        Some(true) => {
            let mut message = String::new();
            message.append("new version ");
            new.push_to(&mut message);
            message.append(" must be strictly greater than current ");
            current.push_to(&mut message);
            Err(message)
        },
        None => {
            let mut message = String::new();
            message.append("new version ");
            new.push_to(&mut message);
            message.append(" cannot be compared with current ");
            current.push_to(&mut message);
            Err(message)
        },
    }
}

/// The registry's list of a crate's versions, `body`, shows `version`.
pub fn version_listed(body: &str, version: &Version) -> (listed: bool)
    ensures
        listed == find(body@, listing_needle(version.parts())) is Some,
{
    let mut needle = String::new();
    needle.append("\"num\":\"");
    version.push_to(&mut needle);
    needle.append("\"");
    let needle_chars = chars_of(needle.as_str());
    let chars = chars_of(body);
    find_chars(chars.as_slice(), needle_chars.as_slice()).is_some()
}

/// What one round of waiting for crates.io to list a new release
/// decides.
#[derive(Clone, Copy, Debug, PartialEq, Eq, Structural)]
pub enum PollStep {
    /// The listing names the version: the wait is over.
    Indexed,
    /// Not listed yet, or the probe failed: probe again after a pause.
    Retry,
    /// Not listed, and the time allowed has run out.
    TimedOut,
}

/// Decide one round of the wait for the registry to list `version`, from
/// the listing that the probe fetched (none when the probe failed), the
/// milliseconds since the wait began and the milliseconds it may take.
/// A failed probe is retried like a listing that lacks the version.
pub fn poll_step(listing: Option<&str>, version: &Version, elapsed_ms: u64, timeout_ms: u64) -> (step:
    PollStep)
    ensures
        step == (if listing is Some && find(listing->0@, listing_needle(version.parts())) is Some {
            PollStep::Indexed
        } else if elapsed_ms > timeout_ms {
            PollStep::TimedOut
        } else {
            PollStep::Retry
        }),
{
    let listed = match listing {
        Some(body) => version_listed(body, version),
        None => false,
    };
    if listed {
        PollStep::Indexed
    } else if elapsed_ms > timeout_ms {
        PollStep::TimedOut
    } else {
        PollStep::Retry
    }
}

} // verus!
