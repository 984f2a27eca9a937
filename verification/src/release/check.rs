//! The checks before tagging a release: a clean tree, a permitted branch,
//! green CI, and a changelog that agrees with the manifest.

use vstd::prelude::*;

use crate::text::{
    all_digits, chars_of, decimal, digits_value, find_from, has_prefix, index_of, join, lacks,
    lemma_find_char_after_prefix, lemma_find_from, lines_of, occurs_at, parse_decimal, parse_u64,
    push_chars, same_chars, split_at_char, split_char, split_lines, starts_with, strip_plus, trim,
    trim_ws,
};
use crate::version::{version_text, Version};

verus! {

/// `branch` is one a release of a version with numbers `major` and `minor`
/// may be cut from: `main` always; after 1.0 also `release/<major>.<minor>`.
pub open spec fn permitted_branch(branch: Seq<char>, major: u64, minor: u64) -> bool {
    if branch == "main"@ {
        true
    } else if major == 0 {
        false
    } else if !starts_with(branch, "release/"@) {
        false
    } else {
        let parts = split_at_char(branch.skip("release/"@.len() as int), '.');
        &&& parts.len() == 2
        &&& parse_u64(parts[0]) == Some(major)
        &&& parse_u64(parts[1]) == Some(minor)
    }
}

/// The decimal digits of `n` read back as `n`.
proof fn lemma_decimal_reads_back(n: u64)
    ensures
        parse_u64(decimal(n as nat)) == Some(n),
        lacks(decimal(n as nat), '.'),
{
    crate::version::lemma_decimal_digits(n as nat);
    lemma_decimal_value(n as nat);
    let d = decimal(n as nat);
    assert(d[0] != '+');
    assert(strip_plus(d) == d);
    assert(all_digits(d));
}

/// The value of the decimal digits of `n` is `n`.
proof fn lemma_decimal_value(n: nat)
    ensures
        digits_value(decimal(n)) == n,
    decreases n,
{
    if n >= 10 {
        lemma_decimal_value(n / 10);
        let d = decimal(n);
        assert(d.drop_last() =~= decimal(n / 10));
        assert(d.last() == ('0' as u32 + n % 10) as char);
        assert((('0' as u32 + n % 10) as char) as nat - '0' as nat == n % 10);
        assert(d.len() > 0);
        assert(digits_value(d) == digits_value(d.drop_last()) * 10 + (d.last() as nat
            - '0' as nat) as nat);
        assert(digits_value(d) == (n / 10) * 10 + n % 10);
        assert(n == (n / 10) * 10 + n % 10);
    } else {
        let d = decimal(n);
        assert(d.len() == 1);
        assert(d.drop_last() =~= Seq::<char>::empty());
        assert(digits_value(d.drop_last()) == 0);
        assert((('0' as u32 + n) as char) as nat - '0' as nat == n);
        assert(digits_value(d) == digits_value(d.drop_last()) * 10 + (d.last() as nat
            - '0' as nat) as nat);
    }
}

/// Text that lacks `c`, then `c`, then text that lacks `c`, splits at `c`
/// into those two pieces.
proof fn lemma_split_two(a: Seq<char>, b: Seq<char>, c: char)
    requires
        lacks(a, c),
        lacks(b, c),
    ensures
        split_at_char(a + seq![c] + b, c) == seq![a, b],
{
    let s = a + seq![c] + b;
    assert(s =~= a + (seq![c] + b));
    lemma_find_char_after_prefix(a, seq![c] + b, c, 0);
    assert(occurs_at(seq![c] + b, seq![c], 0)) by {
        assert((seq![c] + b).subrange(0, 1) =~= seq![c]);
    }
    assert(find_from(seq![c] + b, seq![c], 0) == Some(0int));
    assert(index_of(s, c) == Some(a.len() as int));
    assert(s.take(a.len() as int) =~= a);
    assert(s.skip(a.len() + 1int) =~= b);
    lemma_find_from(b, seq![c], 0);
    if index_of(b, c) is Some {
        let j = index_of(b, c)->0;
        assert(occurs_at(b, seq![c], j));
        assert(b.subrange(j, j + 1)[0] == b[j]);
    }
    assert(split_at_char(b, c) == seq![b]);
    assert(split_at_char(s, c) =~= seq![a] + seq![b]);
}

/// After 1.0, a branch `release/X.Y` is permitted for a version exactly
/// when `X` is the version's major number and `Y` its minor number: a
/// branch for another major or another minor is refused.
pub proof fn law_release_branch_names_major_and_minor(a: u64, b: u64, major: u64, minor: u64)
    requires
        major > 0,
    ensures
        permitted_branch("release/"@ + decimal(a as nat) + "."@ + decimal(b as nat), major, minor)
            == (a == major && b == minor),
{
    let da = decimal(a as nat);
    let db = decimal(b as nat);
    let prefix = "release/"@;
    let branch = prefix + da + "."@ + db;
    reveal_strlit("release/");
    reveal_strlit(".");
    reveal_strlit("main");
    lemma_decimal_reads_back(a);
    lemma_decimal_reads_back(b);
    assert(branch.len() != "main"@.len()) by {
        crate::version::lemma_decimal_digits(a as nat);
        crate::version::lemma_decimal_digits(b as nat);
    }
    assert(branch.take(prefix.len() as int) =~= prefix);
    assert(starts_with(branch, prefix));
    assert(branch.skip(prefix.len() as int) =~= da + seq!['.'] + db);
    lemma_split_two(da, db, '.');
}

/// The lines of `s`, each indented by seven spaces, joined by newlines.
pub open spec fn indented(s: Seq<char>) -> Seq<char> {
    join(lines_of(s).map_values(|line: Seq<char>| "       "@ + line), "\n"@)
}

/// The conclusion of the latest CI run from the output of the query:
/// the output without surrounding white space, or none when that is empty.
pub open spec fn conclusion_of(output: Seq<char>) -> Option<Seq<char>> {
    if trim_ws(output).len() == 0 {
        None
    } else {
        Some(trim_ws(output))
    }
}

/// The issue of a dirty working tree, given the porcelain status.
pub open spec fn dirty_issues(porcelain: Seq<char>) -> Seq<Seq<char>> {
    if trim_ws(porcelain).len() > 0 {
        seq!["working tree is dirty:\n"@ + indented(trim_ws(porcelain))]
    } else {
        Seq::empty()
    }
}

/// The issue of a branch that no release of `version` may be cut from.
pub open spec fn branch_issues(branch: Seq<char>, version: Version) -> Seq<Seq<char>> {
    if permitted_branch(branch, version.major, version.minor) {
        Seq::empty()
    } else {
        seq![
            "on branch `"@ + branch
                + "`; release branches are `main` (pre-1.0) or `release/x.y` (post-1.0)"@,
        ]
    }
}

/// The issue of CI that is not green on `branch`, given the conclusion
/// of its latest run, or the error of the query.
pub open spec fn ci_issues(branch: Seq<char>, ci: Result<Option<Seq<char>>, Seq<char>>) -> Seq<
    Seq<char>,
> {
    match ci {
        Ok(Some(conclusion)) => if conclusion == "success"@ {
            Seq::empty()
        } else {
            seq!["latest CI run on `"@ + branch + "` was `"@ + conclusion + "`"@]
        },
        Ok(None) => seq!["no CI runs found on branch `"@ + branch + "`"@],
        Err(e) => seq!["could not query CI status: "@ + e],
    }
}

/// The issue of a changelog whose latest released section is not the
/// manifest's version.
pub open spec fn changelog_issues(manifest: Version, latest: Option<Version>) -> Seq<Seq<char>> {
    match latest {
        Some(ch) => if ch.parts() == manifest.parts() {
            Seq::empty()
        } else {
            seq![
                "manifest version is "@ + version_text(manifest.parts())
                    + " but the latest CHANGELOG section is ["@ + version_text(ch.parts())
                    + "] — did you forget to rename `[Unreleased]`?"@,
            ]
        },
        None => seq![
            "manifest version is "@ + version_text(manifest.parts())
                + " but CHANGELOG has no released sections — did you run `cargo xtask release prepare`?"@,
        ],
    }
}

/// All the issues, in the order in which they are checked.
pub open spec fn all_issues(
    manifest: Version,
    porcelain: Seq<char>,
    branch: Seq<char>,
    ci: Result<Option<Seq<char>>, Seq<char>>,
    latest: Option<Version>,
) -> Seq<Seq<char>> {
    dirty_issues(porcelain) + branch_issues(branch, manifest) + ci_issues(branch, ci)
        + changelog_issues(manifest, latest)
}

/// A branch a release of `version` may be cut from: `main` always (pre-1.0
/// releases come from `main`); after 1.0 also `release/x.y` for the
/// version's own major and minor numbers.
pub fn is_permitted_branch(branch: &str, version: &Version) -> (permitted: bool)
    ensures
        permitted == permitted_branch(branch@, version.major, version.minor),
{
    let chars = chars_of(branch);
    let main = chars_of("main");
    if same_chars(chars.as_slice(), main.as_slice()) {
        return true;
    }
    if version.major == 0 {
        return false;
    }
    let prefix = chars_of("release/");
    if !has_prefix(chars.as_slice(), prefix.as_slice()) {
        return false;
    }
    let rest = crate::text::copy_range(chars.as_slice(), prefix.len(), chars.len());
    assert(rest@ =~= branch@.skip("release/"@.len() as int));
    let parts = split_char(rest.as_slice(), '.');
    if parts.len() != 2 {
        return false;
    }
    let major = parse_decimal(parts[0].as_slice());
    let minor = parse_decimal(parts[1].as_slice());
    match (major, minor) {
        (Some(major), Some(minor)) => major == version.major && minor == version.minor,
        _ => false,
    }
}

/// Append `piece` to `text`.
fn push_str_chars(text: &mut String, piece: &Vec<char>)
    ensures
        final(text)@ == old(text)@ + piece@,
{
    push_chars(text, piece.as_slice());
}

/// The lines of `s`, each indented by seven spaces, joined by newlines.
pub fn indent(s: &str) -> (text: String)
    ensures
        text@ == indented(s@),
{
    let chars = chars_of(s);
    let lines = split_lines(chars.as_slice());
    let ghost all = lines_of(s@).map_values(|line: Seq<char>| "       "@ + line);
    let mut text = String::new();
    let mut i: usize = 0;
    while i < lines.len()
        invariant
            0 <= i <= lines@.len(),
            lines@.len() == all.len(),
            forall|k: int| 0 <= k < lines@.len() ==> "       "@ + #[trigger] lines@[k]@ == all[k],
            text@ == join(all.take(i as int), "\n"@),
        decreases lines@.len() - i,
    {
        let ghost before = text@;
        if i > 0 {
            text.append("\n");
        }
        text.append("       ");
        push_str_chars(&mut text, &lines[i]);
        proof {
            let taken = all.take(i + 1);
            assert(taken.drop_last() =~= all.take(i as int));
            assert(taken.last() == all[i as int]);
            if i == 0 {
                assert(taken.len() == 1);
                assert(before =~= Seq::<char>::empty());
                assert(text@ =~= all[0]);
            } else {
                assert(text@ =~= before + "\n"@ + all[i as int]);
            }
        }
        i = i + 1;
    }
    assert(all.take(lines@.len() as int) =~= all);
    text
}

/// The conclusion of the latest CI run, from the output of the query:
/// none when the output is blank.
pub fn ci_conclusion(output: &str) -> (conclusion: Option<String>)
    ensures
        match (conclusion, conclusion_of(output@)) {
            (Some(c), Some(expected)) => c@ == expected,
            (None, None) => true,
            _ => false,
        },
{
    let chars = chars_of(output);
    let trimmed = trim(chars.as_slice());
    if trimmed.len() == 0 {
        None
    } else {
        Some(crate::text::string_of(trimmed.as_slice()))
    }
}

/// `s` without the white space at either end.
pub fn trimmed(s: &str) -> (text: String)
    ensures
        text@ == trim_ws(s@),
{
    let chars = chars_of(s);
    let t = trim(chars.as_slice());
    crate::text::string_of(t.as_slice())
}

/// The issues that stand in the way of tagging a release of `manifest`:
/// the working tree's `porcelain` status is not clean, `branch` is not one
/// a release may be cut from, CI on the branch is not green, or the
/// changelog's `latest` released section is not the manifest's version.
/// Each check is made on its own, so that all the issues show at once.
pub fn release_issues(
    manifest: &Version,
    porcelain: &str,
    branch: &str,
    ci: &Result<Option<String>, String>,
    latest: &Option<Version>,
) -> (issues: Vec<String>)
    ensures
        issues@.len() == all_issues(
            *manifest,
            porcelain@,
            branch@,
            match ci {
                Ok(Some(c)) => Ok(Some(c@)),
                Ok(None) => Ok(None),
                Err(e) => Err(e@),
            },
            *latest,
        ).len(),
        forall|i: int|
            0 <= i < issues@.len() ==> #[trigger] issues@[i]@ == all_issues(
                *manifest,
                porcelain@,
                branch@,
                match ci {
                    Ok(Some(c)) => Ok(Some(c@)),
                    Ok(None) => Ok(None),
                    Err(e) => Err(e@),
                },
                *latest,
            )[i],
{
    let ghost ci_view: Result<Option<Seq<char>>, Seq<char>> = match ci {
        Ok(Some(c)) => Ok(Some(c@)),
        Ok(None) => Ok(None),
        Err(e) => Err(e@),
    };
    let mut issues: Vec<String> = Vec::new();
    let ghost expected: Seq<Seq<char>> = Seq::empty();

    let tree = trimmed(porcelain);
    if tree.as_str().unicode_len() > 0 {
        let mut issue = String::new();
        issue.append("working tree is dirty:\n");
        let body = indent(tree.as_str());
        issue.append(body.as_str());
        issues.push(issue);
    }
    proof {
        expected = dirty_issues(porcelain@);
    }
    assert(issues@.map_values(|s: String| s@) =~= expected);

    if !is_permitted_branch(branch, manifest) {
        let mut issue = String::new();
        issue.append("on branch `");
        issue.append(branch);
        issue.append("`; release branches are `main` (pre-1.0) or `release/x.y` (post-1.0)");
        issues.push(issue);
    }
    proof {
        expected = expected + branch_issues(branch@, *manifest);
    }
    assert(issues@.map_values(|s: String| s@) =~= expected);

    match ci {
        Ok(Some(conclusion)) => {
            let success = chars_of("success");
            let got = chars_of(conclusion.as_str());
            if !same_chars(got.as_slice(), success.as_slice()) {
                let mut issue = String::new();
                issue.append("latest CI run on `");
                issue.append(branch);
                issue.append("` was `");
                issue.append(conclusion.as_str());
                issue.append("`");
                issues.push(issue);
            }
        },
        Ok(None) => {
            let mut issue = String::new();
            issue.append("no CI runs found on branch `");
            issue.append(branch);
            issue.append("`");
            issues.push(issue);
        },
        Err(e) => {
            let mut issue = String::new();
            issue.append("could not query CI status: ");
            issue.append(e.as_str());
            issues.push(issue);
        },
    }
    proof {
        expected = expected + ci_issues(branch@, ci_view);
    }
    assert(issues@.map_values(|s: String| s@) =~= expected);

    match latest {
        Some(ch) => {
            if !ch.same(manifest) {
                let mut issue = String::new();
                issue.append("manifest version is ");
                manifest.push_to(&mut issue);
                issue.append(" but the latest CHANGELOG section is [");
                ch.push_to(&mut issue);
                issue.append("] — did you forget to rename `[Unreleased]`?");
                issues.push(issue);
            }
        },
        None => {
            let mut issue = String::new();
            issue.append("manifest version is ");
            manifest.push_to(&mut issue);
            issue.append(
                " but CHANGELOG has no released sections — did you run `cargo xtask release prepare`?",
            );
            issues.push(issue);
        },
    }
    proof {
        expected = expected + changelog_issues(*manifest, *latest);
    }
    assert(issues@.map_values(|s: String| s@) =~= expected);
    assert(expected =~= all_issues(*manifest, porcelain@, branch@, ci_view, *latest));
    assert forall|i: int| 0 <= i < issues@.len() implies #[trigger] issues@[i]@ == all_issues(
        *manifest,
        porcelain@,
        branch@,
        ci_view,
        *latest,
    )[i] by {
        assert(issues@.map_values(|s: String| s@)[i] == issues@[i]@);
    }
    issues
}

} // verus!
