use dependency_factory::release::changelog::{
    extract_section, latest_released_version, rename_unreleased,
};
use dependency_factory::release::check::{
    ci_conclusion, indent, is_permitted_branch, release_issues, trimmed,
};
use dependency_factory::release::manifest::{
    read_workspace_version, set_lib_pathdep_version, set_workspace_version,
};
use dependency_factory::release::paths::{join_path, Paths};
use dependency_factory::release::tag::{
    check_new_version, check_tag, poll_step, tag_version, version_listed, PollStep,
};
use dependency_factory::version::{parse_version, Version};

fn v(s: &str) -> Version {
    parse_version(s).unwrap()
}

const FIXTURE: &str = "\
# Changelog

Some preamble.

## [Unreleased]

### Added
- A thing.
- Another thing.

## [0.1.0] - 2026-04-15

### Added
- The very first release.
";

#[test]
fn rename_unreleased_swaps_heading_and_inserts_fresh_section() {
    let version = v("0.2.0");
    let out = rename_unreleased(FIXTURE, &version, "2026-05-04").unwrap();

    // The fresh [Unreleased] is above the renamed section.
    let unreleased = out.find("## [Unreleased]").unwrap();
    let renamed = out.find("## [0.2.0] - 2026-05-04").unwrap();
    assert!(unreleased < renamed);

    // The body that was under [Unreleased] is now under the renamed section.
    assert!(out.contains("## [0.2.0] - 2026-05-04\n\n### Added\n- A thing."));

    // The previous release is untouched.
    assert!(out.contains("## [0.1.0] - 2026-04-15"));
}

#[test]
fn rename_unreleased_errors_when_section_missing() {
    let bad = "# Changelog\n\n(nothing)\n";
    let version = v("0.2.0");
    let err = rename_unreleased(bad, &version, "2026-05-04").unwrap_err();
    assert!(err.to_string().contains("[Unreleased]"));
}

#[test]
fn extract_section_returns_body_only() {
    let version = v("0.1.0");
    let body = extract_section(FIXTURE, &version).unwrap();
    assert_eq!(body, "### Added\n- The very first release.\n");
}

#[test]
fn extract_section_stops_at_next_heading() {
    let content = "\
## [0.2.0] - 2026-05-04

### Added
- New thing.

## [0.1.0] - 2026-04-15

### Added
- Old thing.
";
    let version = v("0.2.0");
    let body = extract_section(content, &version).unwrap();
    assert!(body.contains("New thing"));
    assert!(!body.contains("Old thing"));
}

#[test]
fn extract_section_errors_when_version_absent() {
    let version = v("9.9.9");
    let err = extract_section(FIXTURE, &version).unwrap_err();
    assert!(err.to_string().contains("9.9.9"));
}

#[test]
fn latest_released_version_skips_unreleased() {
    let found = latest_released_version(FIXTURE).unwrap();
    assert_eq!(found, Some(v("0.1.0")));
}

#[test]
fn latest_released_version_returns_none_when_no_releases() {
    let content = "## [Unreleased]\n\n### Added\n- Stuff\n";
    let found = latest_released_version(content).unwrap();
    assert_eq!(found, None);
}

const ROOT: &str = "\
[workspace]
resolver = \"3\"
members = [\"a\", \"b\"]

[workspace.package]
# Inline comment.
version = \"0.1.0\"
edition = \"2024\"
";

const LIB: &str = "\
[package]
name = \"dependency-factory\"
version.workspace = true

[dependencies]
dependency-factory-derive = { version = \"=0.1.0\", path = \"../dependency-factory-derive\", optional = true }
other-dep = \"1\"
";

#[test]
fn read_workspace_version_returns_parsed_version() {
    let found = read_workspace_version(ROOT).unwrap();
    assert_eq!(found, v("0.1.0"));
}

#[test]
fn set_workspace_version_preserves_comments_and_other_fields() {
    let after = set_workspace_version(ROOT, &v("0.2.0")).unwrap();
    assert!(after.contains("# Inline comment."));
    assert!(after.contains("version = \"0.2.0\""));
    assert!(after.contains("edition = \"2024\""));
    assert!(after.contains("members = [\"a\", \"b\"]"));
}

#[test]
fn set_lib_pathdep_version_pins_with_equals() {
    let after = set_lib_pathdep_version(LIB, &v("0.2.0")).unwrap();
    assert!(after.contains("version = \"=0.2.0\""));
    // The path and optional fields are preserved alongside the bumped version.
    assert!(after.contains("path = \"../dependency-factory-derive\""));
    assert!(after.contains("optional = true"));
    // Other deps are untouched.
    assert!(after.contains("other-dep = \"1\""));
}

#[test]
fn main_is_always_permitted() {
    assert!(is_permitted_branch("main", &v("0.1.0")));
    assert!(is_permitted_branch("main", &v("1.4.2")));
}

#[test]
fn release_branch_only_permitted_post_1_for_matching_minor() {
    // pre-1.0: release branches not allowed.
    assert!(!is_permitted_branch("release/0.1", &v("0.1.5")));
    // post-1.0: only matching minor.
    assert!(is_permitted_branch("release/1.4", &v("1.4.2")));
    assert!(!is_permitted_branch("release/1.3", &v("1.4.2")));
    assert!(!is_permitted_branch("release/2.0", &v("1.4.2")));
}

#[test]
fn other_branches_rejected() {
    assert!(!is_permitted_branch("feature/foo", &v("0.1.0")));
    assert!(!is_permitted_branch("release/garbage", &v("1.0.0")));
    assert!(!is_permitted_branch("release/1", &v("1.0.0")));
}

// --- Checks of this crate's own beyond the original's tests ----------------

#[test]
fn version_renders_as_semver_displays_it() {
    assert_eq!(v("1.2.3").render(), "1.2.3");
    assert_eq!(v("1.2.3-rc.1+build.5").render(), "1.2.3-rc.1+build.5");
    assert_eq!(v("0.10.0+meta").render(), "0.10.0+meta");
}

#[test]
fn version_parse_errors_carry_the_semver_message() {
    let err = parse_version("1.2").unwrap_err();
    assert!(!err.is_empty());
    assert!(parse_version("v1.2.3").is_err());
}

#[test]
fn rename_unreleased_requires_heading_at_line_start() {
    let err = rename_unreleased("text ## [Unreleased]\n", &v("0.2.0"), "2026-05-04").unwrap_err();
    assert_eq!(err, "`## [Unreleased]` is not at the start of a line");
}

#[test]
fn rename_unreleased_exact_output() {
    let out = rename_unreleased("# C\n## [Unreleased]\nbody\n", &v("1.0.0"), "2026-01-02").unwrap();
    assert_eq!(out, "# C\n## [Unreleased]\n\n## [1.0.0] - 2026-01-02\nbody\n");
}

#[test]
fn rename_unreleased_heading_at_end_of_file() {
    let out = rename_unreleased("## [Unreleased]", &v("1.0.0"), "d").unwrap();
    assert_eq!(out, "## [Unreleased]\n\n## [1.0.0] - d");
}

#[test]
fn extract_section_trims_blank_lines_and_handles_crlf() {
    let content = "## [1.0.0] - d\r\n\r\n\r\nbody\r\n\r\n## [0.9.0] - e\r\n";
    assert_eq!(extract_section(content, &v("1.0.0")).unwrap(), "body\n");
}

#[test]
fn extract_section_of_empty_section_is_a_newline() {
    let content = "## [1.0.0] - d\n## [0.9.0] - e\n";
    assert_eq!(extract_section(content, &v("1.0.0")).unwrap(), "\n");
}

#[test]
fn extract_section_error_names_version() {
    assert_eq!(
        extract_section("", &v("2.0.0")).unwrap_err(),
        "CHANGELOG.md has no section for version 2.0.0"
    );
}

#[test]
fn latest_released_version_reports_bad_tag() {
    let err = latest_released_version("## [Unreleased]\n## [nope] - d\n").unwrap_err();
    assert_eq!(err, "changelog heading `## [nope]` is not a semver");
}

#[test]
fn latest_released_version_takes_first_release() {
    let content = "## [2.0.0-beta.1] - d\n## [1.0.0] - e\n";
    assert_eq!(latest_released_version(content).unwrap(), Some(v("2.0.0-beta.1")));
}

#[test]
fn permitted_branch_edge_cases() {
    assert!(is_permitted_branch("release/+1.4", &v("1.4.0")));
    assert!(!is_permitted_branch("release/1.4.2", &v("1.4.2")));
    assert!(!is_permitted_branch("release/1.", &v("1.0.0")));
    assert!(!is_permitted_branch("main2", &v("0.1.0")));
    assert!(!is_permitted_branch("release/99999999999999999999.0", &v("1.0.0")));
}

#[test]
fn indent_prefixes_each_line() {
    assert_eq!(indent("M a\n?? b"), "       M a\n       ?? b");
    assert_eq!(indent(""), "");
}

#[test]
fn ci_conclusion_trims_and_detects_empty() {
    assert_eq!(ci_conclusion("  success\n"), Some("success".to_string()));
    assert_eq!(ci_conclusion(" \n\t"), None);
    assert_eq!(trimmed("\u{3000}main\n"), "main");
}

#[test]
fn release_issues_lists_every_problem_in_order() {
    let issues = release_issues(
        &v("1.4.2"),
        " M src/lib.rs\n",
        "feature/foo",
        &Ok(Some("failure".to_string())),
        &Some(v("1.4.1")),
    );
    assert_eq!(
        issues,
        vec![
            "working tree is dirty:\n       M src/lib.rs".to_string(),
            "on branch `feature/foo`; release branches are `main` (pre-1.0) or `release/x.y` (post-1.0)"
                .to_string(),
            "latest CI run on `feature/foo` was `failure`".to_string(),
            "manifest version is 1.4.2 but the latest CHANGELOG section is [1.4.1] — did you forget to rename `[Unreleased]`?"
                .to_string(),
        ]
    );
}

#[test]
fn release_issues_empty_when_ready() {
    let issues = release_issues(&v("0.3.0"), "\n", "main", &Ok(Some("success".to_string())), &Some(v("0.3.0")));
    assert!(issues.is_empty());
}

#[test]
fn release_issues_for_missing_ci_and_changelog() {
    let issues = release_issues(&v("0.3.0"), "", "main", &Ok(None), &None);
    assert_eq!(issues.len(), 2);
    assert_eq!(issues[0], "no CI runs found on branch `main`");
    assert!(issues[1].ends_with("did you run `cargo xtask release prepare`?"));
    let issues = release_issues(&v("0.3.0"), "", "main", &Err("gh: not found".to_string()), &Some(v("0.3.0")));
    assert_eq!(issues, vec!["could not query CI status: gh: not found".to_string()]);
}

#[test]
fn tag_check_outcomes() {
    assert_eq!(
        check_tag("v1.2.3", &v("1.2.3")).unwrap(),
        "Tag `v1.2.3` matches workspace version `1.2.3`."
    );
    assert_eq!(
        check_tag("1.2.3", &v("1.2.3")).unwrap_err(),
        "tag `1.2.3` does not start with `v`"
    );
    assert_eq!(check_tag("vx", &v("1.2.3")).unwrap_err(), "tag `vx` is not `v<semver>`");
    assert_eq!(
        check_tag("v1.2.4", &v("1.2.3")).unwrap_err(),
        "tag `v1.2.4` does not match workspace version `1.2.3` — refusing to publish"
    );
}

#[test]
fn new_version_must_be_greater() {
    assert!(check_new_version(&v("0.2.0"), &v("0.1.9")).is_ok());
    assert!(check_new_version(&v("1.0.0"), &v("1.0.0-rc.1")).is_ok());
    assert_eq!(
        check_new_version(&v("0.1.0"), &v("0.1.0")).unwrap_err(),
        "new version 0.1.0 must be strictly greater than current 0.1.0"
    );
    assert!(check_new_version(&v("1.0.0-alpha"), &v("1.0.0")).is_err());
}

#[test]
fn registry_listing_is_found() {
    let body = "{\"versions\":[{\"num\":\"0.2.0\"},{\"num\":\"0.1.0\"}]}";
    assert!(version_listed(body, &v("0.1.0")));
    assert!(!version_listed(body, &v("0.3.0")));
}

#[test]
fn paths_join_like_path_join() {
    let paths = Paths::new("/work/repo");
    assert_eq!(paths.root_manifest(), "/work/repo/Cargo.toml");
    assert_eq!(paths.lib_manifest(), "/work/repo/dependency-factory/Cargo.toml");
    assert_eq!(paths.changelog(), "/work/repo/CHANGELOG.md");
    assert_eq!(join_path("/a/", "b"), "/a/b");
    assert_eq!(join_path("", "b"), "b");
    assert_eq!(join_path("/a", "/etc"), "/etc");
}

#[test]
fn manifest_parse_errors_name_the_manifest() {
    assert_eq!(set_workspace_version("[[[", &v("1.0.0")).unwrap_err(), "parsing root Cargo.toml");
    assert_eq!(set_lib_pathdep_version("[[[", &v("1.0.0")).unwrap_err(), "parsing lib Cargo.toml");
    assert_eq!(read_workspace_version("[[[").unwrap_err(), "parsing root Cargo.toml");
}

#[test]
fn manifest_edits_follow_toml_tables() {
    // A `[dependencies]` table without the derive crate: the lookup puts an
    // empty item there, which is no inline table.
    assert_eq!(
        set_lib_pathdep_version("[dependencies]\nother = \"1\"\n", &v("1.0.0")).unwrap_err(),
        "`dependency-factory-derive` dep is not an inline table"
    );
    assert_eq!(
        set_lib_pathdep_version("dependencies = 1\n", &v("1.0.0")).unwrap_err(),
        "lib Cargo.toml has no `[dependencies].dependency-factory-derive` entry"
    );
    // Dotted keys are tables too.
    let out = set_workspace_version("workspace.package.version = \"0.1.0\"\n", &v("0.2.0")).unwrap();
    assert_eq!(read_workspace_version(&out).unwrap(), v("0.2.0"));
    assert_eq!(
        read_workspace_version("[workspace]\npackage = { version = \"3.1.4\" }\n").unwrap(),
        v("3.1.4")
    );
}

#[test]
fn manifest_errors() {
    assert_eq!(
        read_workspace_version("[package]\nname = \"x\"\n").unwrap_err(),
        "[workspace.package].version is missing or not a string"
    );
    assert_eq!(
        read_workspace_version("[workspace.package]\nversion = \"1\"\n").unwrap_err(),
        "[workspace.package].version `1` is not semver"
    );
    assert_eq!(
        set_workspace_version("[package]\n", &v("1.0.0")).unwrap_err(),
        "[workspace.package] is missing from root Cargo.toml"
    );
    assert!(set_workspace_version("[workspace]\n", &v("1.0.0"))
        .unwrap()
        .contains("version = \"1.0.0\""));
    assert_eq!(
        set_workspace_version("[workspace]\npackage = 1\n", &v("1.0.0")).unwrap_err(),
        "[workspace.package] is not a table"
    );
    assert_eq!(
        set_lib_pathdep_version("[package]\n", &v("1.0.0")).unwrap_err(),
        "lib Cargo.toml has no `[dependencies].dependency-factory-derive` entry"
    );
    assert_eq!(
        set_lib_pathdep_version("[dependencies]\ndependency-factory-derive = \"1\"\n", &v("1.0.0"))
            .unwrap_err(),
        "`dependency-factory-derive` dep is not an inline table"
    );
}

#[test]
fn renamed_changelog_reads_back_the_new_version_and_body() {
    let version = v("0.2.0");
    let out = rename_unreleased(FIXTURE, &version, "2026-05-04").unwrap();
    assert_eq!(latest_released_version(&out).unwrap(), Some(v("0.2.0")));
    assert_eq!(
        extract_section(&out, &version).unwrap(),
        "### Added\n- A thing.\n- Another thing.\n"
    );
}

#[test]
fn poll_step_waits_retries_and_times_out() {
    let body = "{\"versions\":[{\"num\":\"0.2.0\"}]}";
    assert_eq!(poll_step(Some(body), &v("0.2.0"), 500_000, 120_000), PollStep::Indexed);
    assert_eq!(poll_step(Some(body), &v("0.3.0"), 1_000, 120_000), PollStep::Retry);
    assert_eq!(poll_step(None, &v("0.2.0"), 120_000, 120_000), PollStep::Retry);
    assert_eq!(poll_step(None, &v("0.2.0"), 120_001, 120_000), PollStep::TimedOut);
    assert_eq!(poll_step(Some(body), &v("0.3.0"), 200_000, 120_000), PollStep::TimedOut);
}

#[test]
fn version_text_reads_back_as_the_same_version() {
    for text in ["0.1.0", "1.2.3-rc.1+build.05", "10.0.7-alpha-x.3", "2.0.0+meta.0"] {
        let parsed = v(text);
        assert_eq!(parse_version(&parsed.render()).unwrap(), parsed);
        let out = rename_unreleased("## [Unreleased]\nbody\n", &parsed, "d").unwrap();
        assert_eq!(latest_released_version(&out).unwrap(), Some(parsed.clone()));
        assert_eq!(extract_section(&out, &parsed).unwrap(), "body\n");
    }
}

#[test]
fn tag_version_reads_the_tag_alone() {
    assert_eq!(tag_version("v1.2.3").unwrap(), v("1.2.3"));
    assert_eq!(tag_version("1.2.3").unwrap_err(), "tag `1.2.3` does not start with `v`");
    assert_eq!(tag_version("vx").unwrap_err(), "tag `vx` is not `v<semver>`");
}
