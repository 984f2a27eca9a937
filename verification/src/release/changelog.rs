//! `CHANGELOG.md` edits and queries.
//!
//! The format is Keep a Changelog, taken as a small fixed grammar: section
//! headings are exactly `## [<TAG>]` (the `[Unreleased]` section) or
//! `## [<VERSION>] - <DATE>` (a released section). The body of a section is
//! everything between two consecutive section headings.

use vstd::prelude::*;

use crate::text::{
    chars_of, find, find_chars, has_prefix, index_of, index_of_char, lacks, lines_of,
    push_chars, same_chars, split_lines, starts_with, string_of, strip_cr, trim_char,
    trim_matches_char,
};
use crate::version::{
    identifier_char, is_semver, lemma_version_text_chars, parse_version, semver_parse, version_text,
    Version, VersionParts,
};

verus! {

/// The heading of the section of changes not yet released.
pub open spec fn unreleased_heading() -> Seq<char> {
    "## [Unreleased]"@
}

/// The start of every section heading.
pub open spec fn heading_start() -> Seq<char> {
    "## ["@
}

/// The changelog `content` with its `## [Unreleased]` heading renamed to
/// `## [<version>] - <date>` and a fresh, empty `## [Unreleased]` section
/// above it; an error when the heading is missing or does not start a line.
pub open spec fn renamed(content: Seq<char>, version: Seq<char>, date: Seq<char>) -> Result<
    Seq<char>,
    Seq<char>,
> {
    match find(content, unreleased_heading()) {
        None => Err("CHANGELOG.md is missing a `## [Unreleased]` section"@),
        Some(at) => if at != 0 && content[at - 1] != '\n' {
            Err("`## [Unreleased]` is not at the start of a line"@)
        } else {
            let line_end = match index_of(content.skip(at), '\n') {
                Some(n) => at + n,
                None => content.len() as int,
            };
            Ok(
                content.take(at) + unreleased_heading() + "\n\n"@ + heading_start() + version
                    + "] - "@ + date + content.skip(line_end),
            )
        },
    }
}

/// The index of the first of `lines` from `from` on that starts with
/// `prefix`.
pub open spec fn first_line_with(lines: Seq<Seq<char>>, prefix: Seq<char>, from: int) -> Option<
    int,
>
    decreases lines.len() - from,
{
    if from < 0 || from >= lines.len() {
        None
    } else if starts_with(lines[from], prefix) {
        Some(from)
    } else {
        first_line_with(lines, prefix, from + 1)
    }
}

/// The lines from `from` up to the next section heading, each followed by
/// a newline.
pub open spec fn body_from(lines: Seq<Seq<char>>, from: int) -> Seq<char>
    decreases lines.len() - from,
{
    if from < 0 || from >= lines.len() || starts_with(lines[from], heading_start()) {
        Seq::empty()
    } else {
        lines[from] + "\n"@ + body_from(lines, from + 1)
    }
}

/// The body of the section `## [<version>]` of `content`: the lines after
/// its heading up to the next heading, without blank lines at either end,
/// and ending in one newline; an error when there is no such section.
pub open spec fn section(content: Seq<char>, version: Seq<char>) -> Result<Seq<char>, Seq<char>> {
    let lines = lines_of(content);
    match first_line_with(lines, heading_start() + version + "]"@, 0) {
        None => Err("CHANGELOG.md has no section for version "@ + version),
        Some(i) => Ok(trim_matches_char(body_from(lines, i + 1), '\n') + "\n"@),
    }
}

/// The tag of a section heading `## [<tag>]...`, if `line` is one.
pub open spec fn heading_tag(line: Seq<char>) -> Option<Seq<char>> {
    if starts_with(line, heading_start()) {
        let rest = line.skip(heading_start().len() as int);
        match index_of(rest, ']') {
            Some(end) => Some(rest.take(end)),
            None => None,
        }
    } else {
        None
    }
}

/// The tag of the first heading of a released section among `lines` from
/// `from` on: a heading whose tag is not `Unreleased`.
pub open spec fn first_release_tag(lines: Seq<Seq<char>>, from: int) -> Option<Seq<char>>
    decreases lines.len() - from,
{
    if from < 0 || from >= lines.len() {
        None
    } else {
        match heading_tag(lines[from]) {
            Some(tag) => if tag != "Unreleased"@ {
                Some(tag)
            } else {
                first_release_tag(lines, from + 1)
            },
            None => first_release_tag(lines, from + 1),
        }
    }
}

/// The version of the latest released section of `content`, the first
/// one in the file; `None` when there is none; an error when its tag is no
/// semantic version.
pub open spec fn latest_release(content: Seq<char>) -> Result<Option<VersionParts>, Seq<char>> {
    match first_release_tag(lines_of(content), 0) {
        None => Ok(None),
        Some(tag) => match semver_parse(tag) {
            Ok(parts) => Ok(Some(parts)),
            Err(_) => Err("changelog heading `## ["@ + tag + "]` is not a semver"@),
        },
    }
}

/// Rename the `## [Unreleased]` section to a versioned heading and insert a
/// fresh empty `## [Unreleased]` above it. Returns the new file content.
pub fn rename_unreleased(content: &str, version: &Version, date: &str) -> (result: Result<
    String,
    String,
>)
    ensures
        match (result, renamed(content@, version_text(version.parts()), date@)) {
            (Ok(out), Ok(expected)) => out@ == expected,
            (Err(e), Err(expected)) => e@ == expected,
            _ => false,
        },
{
    let chars = chars_of(content);
    let heading = chars_of("## [Unreleased]");
    let at = match find_chars(&chars, &heading) {
        Some(at) => at,
        None => {
            let mut message = String::new();
            message.append("CHANGELOG.md is missing a `## [Unreleased]` section");
            return Err(message);
        },
    };
    proof {
        crate::text::lemma_find_from(chars@, heading@, 0);
    }
    if at != 0 && chars[at - 1] != '\n' {
        let mut message = String::new();
        message.append("`## [Unreleased]` is not at the start of a line");
        return Err(message);
    }
    let rest = crate::text::copy_range(&chars, at, chars.len());
    assert(rest@ =~= chars@.skip(at as int));
    let line_end = match index_of_char(&rest, '\n') {
        Some(n) => {
            proof {
                crate::text::lemma_find_from(rest@, seq!['\n'], 0);
            }
            at + n
        },
        None => chars.len(),
    };
    let mut out = String::new();
    push_chars(&mut out, crate::text::copy_range(&chars, 0, at).as_slice());
    out.append("## [Unreleased]");
    out.append("\n\n");
    out.append("## [");
    version.push_to(&mut out);
    out.append("] - ");
    out.append(date);
    push_chars(&mut out, crate::text::copy_range(&chars, line_end, chars.len()).as_slice());
    proof {
        assert(chars@.subrange(0, at as int) =~= chars@.take(at as int));
        assert(chars@.subrange(line_end as int, chars@.len() as int) =~= chars@.skip(
            line_end as int,
        ));
        assert(out@ =~= renamed(content@, version_text(version.parts()), date@)->Ok_0);
    }
    Ok(out)
}

/// `first_line_with` finds only a line that starts with `prefix`, and none
/// before it.
proof fn lemma_first_line_with(lines: Seq<Seq<char>>, prefix: Seq<char>, from: int)
    requires
        0 <= from,
    ensures
        first_line_with(lines, prefix, from) matches Some(i) ==> from <= i < lines.len()
            && starts_with(lines[i], prefix) && forall|k: int|
            from <= k < i ==> !starts_with(#[trigger] lines[k], prefix),
        first_line_with(lines, prefix, from) is None ==> forall|k: int|
            from <= k < lines.len() ==> !starts_with(#[trigger] lines[k], prefix),
    decreases lines.len() - from,
{
    if from < lines.len() && !starts_with(lines[from], prefix) {
        lemma_first_line_with(lines, prefix, from + 1);
    }
}

/// The index of the first of `lines` from `from` on that starts with
/// `prefix`; `all` is what the lines hold.
fn first_line_index(
    lines: &Vec<Vec<char>>,
    Ghost(all): Ghost<Seq<Seq<char>>>,
    prefix: &[char],
    from: usize,
) -> (found: Option<usize>)
    requires
        lines@.len() == all.len(),
        forall|k: int| 0 <= k < lines@.len() ==> #[trigger] lines@[k]@ == all[k],
    ensures
        found matches Some(i) ==> first_line_with(all, prefix@, from as int) == Some(i as int),
        found is None ==> first_line_with(all, prefix@, from as int) is None,
{
    let mut i = from;
    while i < lines.len()
        invariant
            from <= i,
            lines@.len() == all.len(),
            forall|k: int| 0 <= k < lines@.len() ==> #[trigger] lines@[k]@ == all[k],
            first_line_with(all, prefix@, from as int) == first_line_with(all, prefix@, i as int),
        decreases lines@.len() - i,
    {
        if has_prefix(lines[i].as_slice(), prefix) {
            return Some(i);
        }
        i = i + 1;
    }
    None
}

/// Extract the body of the `## [<version>] - <date>` section.
///
/// Returns the lines between the section's heading and the next `## [`
/// heading (or end of file). The heading itself is not included. Blank
/// lines at either end are stripped so the release body doesn't render
/// with extra padding.
pub fn extract_section(content: &str, version: &Version) -> (result: Result<String, String>)
    ensures
        match (result, section(content@, version_text(version.parts()))) {
            (Ok(out), Ok(expected)) => out@ == expected,
            (Err(e), Err(expected)) => e@ == expected,
            _ => false,
        },
{
    let mut needle_text = String::new();
    needle_text.append("## [");
    version.push_to(&mut needle_text);
    needle_text.append("]");
    let needle = chars_of(needle_text.as_str());
    let heading = chars_of("## [");
    let chars = chars_of(content);
    let lines = split_lines(&chars);
    let ghost all = lines_of(content@);
    let i = match first_line_index(&lines, Ghost(all), needle.as_slice(), 0) {
        Some(i) => i,
        None => {
            let mut message = String::new();
            message.append("CHANGELOG.md has no section for version ");
            version.push_to(&mut message);
            return Err(message);
        },
    };
    proof {
        lemma_first_line_with(all, needle@, 0);
    }
    let n = lines.len();
    assert(i < n);
    let start = i + 1;
    let end = match first_line_index(&lines, Ghost(all), heading.as_slice(), start) {
        Some(end) => end,
        None => lines.len(),
    };
    proof {
        lemma_first_line_with(all, heading@, start as int);
    }
    let mut body: Vec<char> = Vec::new();
    let mut j = start;
    while j < end
        invariant
            start <= j <= end <= lines@.len(),
            lines@.len() == all.len(),
            forall|k: int| 0 <= k < lines@.len() ==> #[trigger] lines@[k]@ == all[k],
            forall|k: int| start <= k < end ==> !starts_with(#[trigger] all[k], heading_start()),
            heading@ == heading_start(),
            body@ + body_from(all, j as int) == body_from(all, start as int),
        decreases end - j,
    {
        let ghost before = body@;
        let line = &lines[j];
        let mut k: usize = 0;
        while k < line.len()
            invariant
                0 <= k <= line@.len(),
                body@ == before + line@.take(k as int),
            decreases line@.len() - k,
        {
            body.push(line[k]);
            assert(line@.take(k + 1) =~= line@.take(k as int).push(line@[k as int]));
            k = k + 1;
        }
        body.push('\n');
        assert(line@.take(k as int) =~= all[j as int]);
        assert(body@ =~= before + all[j as int] + "\n"@) by {
            reveal_strlit("\n");
        }
        assert(body_from(all, j as int) == all[j as int] + "\n"@ + body_from(all, j + 1));
        assert(body@ + body_from(all, j + 1) =~= before + body_from(all, j as int));
        j = j + 1;
    }
    assert(body_from(all, end as int) =~= Seq::<char>::empty());
    assert(body@ =~= body_from(all, start as int));
    let trimmed = trim_char(body.as_slice(), '\n');
    let mut out = string_of(trimmed.as_slice());
    out.append("\n");
    Ok(out)
}

/// The tag of `line` if it is the heading of a released section.
fn release_tag(line: &[char], heading: &[char], unreleased: &[char]) -> (tag: Option<Vec<char>>)
    requires
        heading@ == heading_start(),
        unreleased@ == "Unreleased"@,
    ensures
        match (tag, heading_tag(line@)) {
            (Some(t), Some(h)) => t@ == h && h != "Unreleased"@,
            (None, Some(h)) => h == "Unreleased"@,
            (None, None) => true,
            _ => false,
        },
{
    if !has_prefix(line, heading) {
        return None;
    }
    let rest = crate::text::copy_range(line, heading.len(), line.len());
    assert(rest@ =~= line@.skip(heading_start().len() as int));
    match index_of_char(&rest, ']') {
        None => None,
        Some(end) => {
            proof {
                crate::text::lemma_find_from(rest@, seq![']'], 0);
            }
            let tag = crate::text::copy_range(&rest, 0, end);
            assert(tag@ =~= rest@.take(end as int));
            if same_chars(tag.as_slice(), unreleased) {
                None
            } else {
                Some(tag)
            }
        },
    }
}

/// Read the latest released-version heading (i.e. the most recent
/// `## [X.Y.Z] - DATE` section, ignoring `## [Unreleased]`).
pub fn latest_released_version(content: &str) -> (result: Result<Option<Version>, String>)
    ensures
        match (result, latest_release(content@)) {
            (Ok(None), Ok(None)) => true,
            (Ok(Some(v)), Ok(Some(parts))) => v.parts() == parts,
            (Err(e), Err(expected)) => e@ == expected,
            _ => false,
        },
{
    let chars = chars_of(content);
    let lines = split_lines(&chars);
    let heading = chars_of("## [");
    let unreleased = chars_of("Unreleased");
    let ghost all = lines_of(content@);
    let mut i: usize = 0;
    while i < lines.len()
        invariant
            0 <= i <= lines@.len(),
            lines@.len() == all.len(),
            forall|k: int| 0 <= k < lines@.len() ==> #[trigger] lines@[k]@ == all[k],
            heading@ == heading_start(),
            unreleased@ == "Unreleased"@,
            all == lines_of(content@),
            first_release_tag(all, 0) == first_release_tag(all, i as int),
        decreases lines@.len() - i,
    {
        if let Some(tag) = release_tag(lines[i].as_slice(), heading.as_slice(), unreleased.as_slice()) {
            assert(first_release_tag(all, i as int) == Some(tag@));
            let tag_text = string_of(tag.as_slice());
            assert(latest_release(content@) == (match semver_parse(tag_text@) {
                Ok(parts) => Ok(Some(parts)),
                Err(_) => Err("changelog heading `## ["@ + tag_text@ + "]` is not a semver"@),
            }));
            return match parse_version(tag_text.as_str()) {
                Ok(v) => Ok(Some(v)),
                Err(_) => {
                    let mut message = String::new();
                    message.append("changelog heading `## [");
                    message.append(tag_text.as_str());
                    message.append("]` is not a semver");
                    assert(message@ =~= "changelog heading `## ["@ + tag_text@
                        + "]` is not a semver"@);
                    Err(message)
                },
            };
        }
        i = i + 1;
    }
    Ok(None)
}

/// The first released tag among the lines `a + b` is the first among `a`,
/// or, when `a` has none, the first among `b`.
proof fn lemma_first_release_tag_concat(a: Seq<Seq<char>>, b: Seq<Seq<char>>, from: int)
    requires
        0 <= from <= a.len(),
    ensures
        first_release_tag(a + b, from) == match first_release_tag(a, from) {
            Some(tag) => Some(tag),
            None => first_release_tag(b, 0),
        },
    decreases a.len() - from,
{
    if from < a.len() {
        assert((a + b)[from] == a[from]);
        lemma_first_release_tag_concat(a, b, from + 1);
    } else {
        lemma_first_release_tag_shifted(a, b, 0);
    }
}

/// Looking for a released tag in `a + b` past `a` looks in `b`.
proof fn lemma_first_release_tag_shifted(a: Seq<Seq<char>>, b: Seq<Seq<char>>, j: int)
    requires
        0 <= j,
    ensures
        first_release_tag(a + b, a.len() + j) == first_release_tag(b, j),
    decreases b.len() - j,
{
    if j < b.len() {
        assert((a + b)[a.len() + j] == b[j]);
        lemma_first_release_tag_shifted(a, b, j + 1);
    }
}

/// The heading `## [<tag>]<tail>` has the tag `tag` when `tag` has no `]`.
proof fn lemma_heading_tag(tag: Seq<char>, tail: Seq<char>)
    requires
        lacks(tag, ']'),
    ensures
        heading_tag(heading_start() + tag + seq![']'] + tail) == Some(tag),
{
    reveal_strlit("## [");
    let line = heading_start() + tag + seq![']'] + tail;
    assert(line.take(heading_start().len() as int) =~= heading_start());
    let rest = line.skip(heading_start().len() as int);
    assert(rest =~= tag + (seq![']'] + tail));
    crate::text::lemma_find_char_after_prefix(tag, seq![']'] + tail, ']', 0);
    assert((seq![']'] + tail).subrange(0, 1) =~= seq![']']);
    assert(find(seq![']'] + tail, seq![']']) == Some(0int));
    assert(rest.take(tag.len() as int) =~= tag);
}

/// Where the renamed heading's line ends in `content`: at the first newline
/// after `## [Unreleased]` found at `at`, or at the end.
pub open spec fn heading_line_end(content: Seq<char>, at: int) -> int {
    match index_of(content.skip(at), '\n') {
        Some(n) => at + n,
        None => content.len() as int,
    }
}

/// The pieces of a renamed changelog: what came before `## [Unreleased]`,
/// which is empty or ends a line, and what came after its line, which is
/// empty or starts with a newline.
proof fn lemma_renamed_pieces(content: Seq<char>, version: Seq<char>, date: Seq<char>)
    requires
        renamed(content, version, date) is Ok,
    ensures
        ({
            let at = find(content, unreleased_heading())->0;
            let prefix = content.take(at);
            let suffix = content.skip(heading_line_end(content, at));
            let line = heading_start() + version + "] - "@ + date;
            &&& 0 <= at <= content.len()
            &&& renamed(content, version, date)->Ok_0 =~= prefix + (unreleased_heading().push('\n')
                + (seq!['\n'] + (line + suffix)))
            &&& prefix.len() == 0 || prefix.last() == '\n'
            &&& suffix.len() == 0 || suffix[0] == '\n'
        }),
{
    reveal_strlit("\n\n");
    let at = find(content, unreleased_heading())->0;
    crate::text::lemma_find_from(content, unreleased_heading(), 0);
    let rest_at = content.skip(at);
    crate::text::lemma_find_from(rest_at, seq!['\n'], 0);
    let line_end = heading_line_end(content, at);
    if line_end < content.len() {
        let n = index_of(rest_at, '\n')->0;
        assert(rest_at.subrange(n, n + 1) =~= seq!['\n']);
        assert(rest_at.subrange(n, n + 1)[0] == rest_at[n]);
        assert(rest_at[n] == '\n');
        assert(content.skip(line_end)[0] == rest_at[n]);
    }
}

/// The lines of `heading`, a line on its own, then an empty line, then
/// `line`, then `suffix`, which is empty or starts with a newline.
proof fn lemma_renamed_lines(heading: Seq<char>, line: Seq<char>, suffix: Seq<char>)
    requires
        heading.len() > 0,
        heading.last() != '\r',
        lacks(heading, '\n'),
        line.len() > 0,
        lacks(line, '\n'),
        suffix.len() == 0 || suffix[0] == '\n',
    ensures
        lines_of(heading.push('\n') + (seq!['\n'] + (line + suffix))) == seq![heading] + (seq![
            Seq::<char>::empty(),
        ] + (seq![
            if suffix.len() > 0 {
                strip_cr(line)
            } else {
                line
            },
        ] + (if suffix.len() > 0 {
            lines_of(suffix.skip(1))
        } else {
            Seq::<Seq<char>>::empty()
        }))),
{
    let nl = seq!['\n'];
    crate::text::lemma_lines_of_concat(heading.push('\n'), nl + (line + suffix));
    crate::text::lemma_lines_of_concat(nl, line + suffix);
    crate::text::lemma_lines_of_first_line(heading, nl);
    assert(heading + nl =~= heading.push('\n'));
    assert(nl.skip(1) =~= Seq::<char>::empty());
    assert(lines_of(Seq::<char>::empty()) =~= Seq::<Seq<char>>::empty());
    assert(lines_of(heading.push('\n')) =~= seq![heading]);
    assert(nl.subrange(0, 1) =~= nl);
    assert(find(nl, nl) == Some(0int));
    assert(nl.take(0) =~= Seq::<char>::empty());
    assert(lines_of(nl) =~= seq![Seq::<char>::empty()]);
    crate::text::lemma_lines_of_first_line(line, suffix);
}

/// The first released tag of the lines `## [Unreleased]`, an empty line,
/// then the heading `first` of the version `version`, then `later`.
proof fn lemma_renamed_tag(version: Seq<char>, first: Seq<char>, later: Seq<Seq<char>>)
    requires
        heading_tag(first) == Some(version),
        version != "Unreleased"@,
    ensures
        first_release_tag(
            seq![unreleased_heading()] + (seq![Seq::<char>::empty()] + (seq![first] + later)),
            0,
        ) == Some(version),
{
    reveal_strlit("## [Unreleased]");
    reveal_strlit("Unreleased");
    let body = seq![unreleased_heading()] + (seq![Seq::<char>::empty()] + (seq![first] + later));
    assert(unreleased_heading() =~= heading_start() + "Unreleased"@ + seq![']']
        + Seq::<char>::empty()) by {
        reveal_strlit("## [");
    }
    lemma_heading_tag("Unreleased"@, Seq::<char>::empty());
    assert(body[0] == unreleased_heading());
    assert(body[1] == Seq::<char>::empty());
    assert(body[2] == first);
    assert(heading_tag(Seq::<char>::empty()) is None) by {
        reveal_strlit("## [");
    }
    assert(first_release_tag(body, 2) == Some(version));
    assert(first_release_tag(body, 1) == Some(version));
}

/// After `rename_unreleased`, the latest released section of the changelog
/// is the one just named for the new version: when no released section
/// comes before `## [Unreleased]`, the version's text is not `Unreleased`,
/// and neither it nor the date holds a newline (nor the version's text a
/// `]`), the first released
/// tag of the new content is the version's text, so that
/// `latest_released_version` reads it.
pub proof fn law_renamed_section_is_latest_release(
    content: Seq<char>,
    version: Seq<char>,
    date: Seq<char>,
)
    requires
        renamed(content, version, date) is Ok,
        first_release_tag(lines_of(content.take(find(content, unreleased_heading())->0)), 0) is None,
        version != "Unreleased"@,
        lacks(version, ']'),
        lacks(version, '\n'),
        lacks(date, '\n'),
    ensures
        first_release_tag(lines_of(renamed(content, version, date)->Ok_0), 0) == Some(version),
        latest_release(renamed(content, version, date)->Ok_0) == match semver_parse(version) {
            Ok(parts) => Ok::<Option<VersionParts>, Seq<char>>(Some(parts)),
            Err(_) => Err("changelog heading `## ["@ + version + "]` is not a semver"@),
        },
{
    lemma_renamed_pieces(content, version, date);
    let at = find(content, unreleased_heading())->0;
    let prefix = content.take(at);
    let suffix = content.skip(heading_line_end(content, at));
    let line = heading_start() + version + "] - "@ + date;
    let heading = unreleased_heading();
    let out = renamed(content, version, date)->Ok_0;
    reveal_strlit("## [Unreleased]");
    reveal_strlit("## [");
    reveal_strlit("] - ");
    assert(lacks(heading, '\n'));
    assert(heading.last() == ']');
    assert(lacks(line, '\n'));
    lemma_renamed_lines(heading, line, suffix);
    let rest = heading.push('\n') + (seq!['\n'] + (line + suffix));
    crate::text::lemma_lines_of_concat(prefix, rest);
    let first = if suffix.len() > 0 {
        strip_cr(line)
    } else {
        line
    };
    let later = if suffix.len() > 0 {
        lines_of(suffix.skip(1))
    } else {
        Seq::<Seq<char>>::empty()
    };
    let tail = if suffix.len() > 0 && line.last() == '\r' {
        (" - "@ + date).drop_last()
    } else {
        " - "@ + date
    };
    reveal_strlit(" - ");
    assert(first =~= heading_start() + version + seq![']'] + tail);
    lemma_heading_tag(version, tail);
    lemma_renamed_tag(version, first, later);
    let body = seq![heading] + (seq![Seq::<char>::empty()] + (seq![first] + later));
    assert(lines_of(out) == lines_of(prefix) + body);
    lemma_first_release_tag_concat(lines_of(prefix), body, 0);
}

/// The first line with a prefix among the lines `a + b` is the first
/// among `a`, or, when `a` has none, the first among `b`, shifted.
proof fn lemma_first_line_with_concat(
    a: Seq<Seq<char>>,
    b: Seq<Seq<char>>,
    prefix: Seq<char>,
    from: int,
)
    requires
        0 <= from <= a.len(),
        first_line_with(a, prefix, from) is None,
    ensures
        first_line_with(a + b, prefix, from) == match first_line_with(b, prefix, 0) {
            Some(i) => Some(i + a.len()),
            None => None,
        },
    decreases a.len() - from,
{
    if from < a.len() {
        assert((a + b)[from] == a[from]);
        lemma_first_line_with_concat(a, b, prefix, from + 1);
    } else {
        lemma_first_line_with_shifted(a, b, prefix, 0);
    }
}

/// Looking for a line with a prefix in `a + b` past `a` looks in `b`.
proof fn lemma_first_line_with_shifted(
    a: Seq<Seq<char>>,
    b: Seq<Seq<char>>,
    prefix: Seq<char>,
    j: int,
)
    requires
        0 <= j,
    ensures
        first_line_with(a + b, prefix, a.len() + j) == match first_line_with(b, prefix, j) {
            Some(i) => Some(i + a.len()),
            None => None,
        },
    decreases b.len() - j,
{
    if j < b.len() {
        assert((a + b)[a.len() + j] == b[j]);
        if !starts_with(b[j], prefix) {
            lemma_first_line_with_shifted(a, b, prefix, j + 1);
        }
    }
}

/// A section body read in `a + b` past `a` is read in `b`.
proof fn lemma_body_from_shifted(a: Seq<Seq<char>>, b: Seq<Seq<char>>, j: int)
    requires
        0 <= j,
    ensures
        body_from(a + b, a.len() + j) == body_from(b, j),
    decreases b.len() - j,
{
    if j < b.len() {
        assert((a + b)[a.len() + j] == b[j]);
        lemma_body_from_shifted(a, b, j + 1);
    }
}

/// The body under `## [Unreleased]` in `content`: the lines after its
/// heading's line up to the next heading, each followed by a newline.
pub open spec fn unreleased_body(content: Seq<char>) -> Seq<char> {
    let at = find(content, unreleased_heading())->0;
    let suffix = content.skip(heading_line_end(content, at));
    if suffix.len() > 0 {
        body_from(lines_of(suffix.skip(1)), 0)
    } else {
        Seq::empty()
    }
}

/// The heading `## [Unreleased]` does not start the section of a version
/// other than `Unreleased` whose text has no `]`.
proof fn lemma_unreleased_is_no_version_heading(version: Seq<char>)
    requires
        version != "Unreleased"@,
        lacks(version, ']'),
    ensures
        !starts_with(unreleased_heading(), heading_start() + version + "]"@),
{
    reveal_strlit("## [Unreleased]");
    reveal_strlit("## [");
    reveal_strlit("]");
    reveal_strlit("Unreleased");
    let heading = unreleased_heading();
    let needle = heading_start() + version + "]"@;
    if starts_with(heading, needle) {
        assert(heading.take(needle.len() as int) == needle);
        if version.len() < 10 {
            assert(needle[4 + version.len() as int] == ']');
            assert(heading[4 + version.len() as int] == needle[4 + version.len() as int]);
            assert(heading[4 + version.len() as int] != ']');
        } else if version.len() > 10 {
            assert(needle.len() > heading.len());
        } else {
            assert forall|k: int| 0 <= k < 10 implies version[k] == "Unreleased"@[k] by {
                assert(needle[4 + k] == heading[4 + k]);
            }
            assert(version =~= "Unreleased"@);
        }
    }
}

/// Among the lines `## [Unreleased]`, an empty line, then `first`, which
/// starts the section of `version`, then `later`, the section starts at
/// the third.
proof fn lemma_renamed_needle(version: Seq<char>, first: Seq<char>, later: Seq<Seq<char>>)
    requires
        version != "Unreleased"@,
        lacks(version, ']'),
        starts_with(first, heading_start() + version + "]"@),
    ensures
        first_line_with(
            seq![unreleased_heading()] + (seq![Seq::<char>::empty()] + (seq![first] + later)),
            heading_start() + version + "]"@,
            0,
        ) == Some(2int),
{
    reveal_strlit("## [");
    let needle = heading_start() + version + "]"@;
    let body = seq![unreleased_heading()] + (seq![Seq::<char>::empty()] + (seq![first] + later));
    lemma_unreleased_is_no_version_heading(version);
    assert(!starts_with(Seq::<char>::empty(), needle));
    assert(body[0] == unreleased_heading());
    assert(body[1] == Seq::<char>::empty());
    assert(body[2] == first);
    assert(first_line_with(body, needle, 2) == Some(2int));
    assert(first_line_with(body, needle, 1) == Some(2int));
}

/// After `rename_unreleased`, the section of the new version holds what
/// `## [Unreleased]` held: when no line before `## [Unreleased]` already
/// starts the new version's section, the version's text is not
/// `Unreleased`, and neither it nor the date holds a newline (nor the
/// version's text a `]`), `extract_section` of the new content for the
/// version gives the old unreleased body, trimmed of blank lines.
pub proof fn law_renamed_section_keeps_unreleased_body(
    content: Seq<char>,
    version: Seq<char>,
    date: Seq<char>,
)
    requires
        renamed(content, version, date) is Ok,
        first_line_with(
            lines_of(content.take(find(content, unreleased_heading())->0)),
            heading_start() + version + "]"@,
            0,
        ) is None,
        version != "Unreleased"@,
        lacks(version, ']'),
        lacks(version, '\n'),
        lacks(date, '\n'),
    ensures
        section(renamed(content, version, date)->Ok_0, version) == Ok::<Seq<char>, Seq<char>>(
            trim_matches_char(unreleased_body(content), '\n') + "\n"@,
        ),
{
    lemma_renamed_pieces(content, version, date);
    let at = find(content, unreleased_heading())->0;
    let prefix = content.take(at);
    let suffix = content.skip(heading_line_end(content, at));
    let line = heading_start() + version + "] - "@ + date;
    let heading = unreleased_heading();
    let out = renamed(content, version, date)->Ok_0;
    let needle = heading_start() + version + "]"@;
    reveal_strlit("## [Unreleased]");
    reveal_strlit("## [");
    reveal_strlit("] - ");
    reveal_strlit("]");
    reveal_strlit(" - ");
    reveal_strlit("Unreleased");
    assert(lacks(heading, '\n'));
    assert(heading.last() == ']');
    assert(lacks(line, '\n'));
    lemma_renamed_lines(heading, line, suffix);
    let rest = heading.push('\n') + (seq!['\n'] + (line + suffix));
    crate::text::lemma_lines_of_concat(prefix, rest);
    let first = if suffix.len() > 0 {
        strip_cr(line)
    } else {
        line
    };
    let later = if suffix.len() > 0 {
        lines_of(suffix.skip(1))
    } else {
        Seq::<Seq<char>>::empty()
    };
    let tail = if suffix.len() > 0 && line.last() == '\r' {
        (" - "@ + date).drop_last()
    } else {
        " - "@ + date
    };
    assert(first =~= needle + tail);
    let body = seq![heading] + (seq![Seq::<char>::empty()] + (seq![first] + later));
    assert(lines_of(out) == lines_of(prefix) + body);

    // The new version's heading is the third line of `body`.
    assert(starts_with(first, needle)) by {
        assert(first.take(needle.len() as int) =~= needle);
    }
    lemma_renamed_needle(version, first, later);
    lemma_first_line_with_concat(lines_of(prefix), body, needle, 0);
    let i = lines_of(prefix).len() as int + 2;
    assert(first_line_with(lines_of(out), needle, 0) == Some(i));

    // What follows it is what followed the old heading's line.
    let head = lines_of(prefix) + seq![heading, Seq::<char>::empty(), first];
    assert(lines_of(out) =~= head + later);
    lemma_body_from_shifted(head, later, 0);
    assert(body_from(lines_of(out), i + 1) == body_from(later, 0));
    assert(body_from(later, 0) == unreleased_body(content)) by {
        if suffix.len() == 0 {
            assert(later =~= Seq::<Seq<char>>::empty());
        }
    }
}

/// The text of a version that `semver` reads is no `Unreleased` tag and
/// holds neither `]` nor a newline.
proof fn lemma_version_text_is_plain(parts: VersionParts)
    requires
        is_semver(parts),
    ensures
        version_text(parts) != "Unreleased"@,
        lacks(version_text(parts), ']'),
        lacks(version_text(parts), '\n'),
{
    lemma_version_text_chars(parts);
    reveal_strlit("Unreleased");
    assert("Unreleased"@[0] == 'U');
    assert forall|i: int| 0 <= i < version_text(parts).len() implies version_text(parts)[i] != ']'
        && version_text(parts)[i] != '\n' by {
        assert(identifier_char(version_text(parts)[i]) || version_text(parts)[i] == '+');
    }
}

/// After `rename_unreleased` with a version that `semver` reads, reading
/// the latest released version of the new content gives that version back,
/// when no released section comes before `## [Unreleased]` and the date
/// holds no newline.
pub proof fn law_renamed_version_is_latest_release(
    content: Seq<char>,
    parts: VersionParts,
    date: Seq<char>,
)
    requires
        is_semver(parts),
        renamed(content, version_text(parts), date) is Ok,
        first_release_tag(lines_of(content.take(find(content, unreleased_heading())->0)), 0) is None,
        lacks(date, '\n'),
    ensures
        latest_release(renamed(content, version_text(parts), date)->Ok_0) == Ok::<
            Option<VersionParts>,
            Seq<char>,
        >(Some(parts)),
{
    lemma_version_text_is_plain(parts);
    law_renamed_section_is_latest_release(content, version_text(parts), date);
}

/// After `rename_unreleased` with a version that `semver` reads, the
/// version's section holds what `## [Unreleased]` held, trimmed of blank
/// lines, when no line before `## [Unreleased]` already starts that
/// version's section and the date holds no newline.
pub proof fn law_renamed_version_keeps_unreleased_body(
    content: Seq<char>,
    parts: VersionParts,
    date: Seq<char>,
)
    requires
        is_semver(parts),
        renamed(content, version_text(parts), date) is Ok,
        first_line_with(
            lines_of(content.take(find(content, unreleased_heading())->0)),
            heading_start() + version_text(parts) + "]"@,
            0,
        ) is None,
        lacks(date, '\n'),
    ensures
        section(renamed(content, version_text(parts), date)->Ok_0, version_text(parts)) == Ok::<
            Seq<char>,
            Seq<char>,
        >(trim_matches_char(unreleased_body(content), '\n') + "\n"@),
{
    lemma_version_text_is_plain(parts);
    law_renamed_section_keeps_unreleased_body(content, version_text(parts), date);
}

} // verus!
