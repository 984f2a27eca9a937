//! The files that the release commands consult, relative to the workspace
//! root.

use vstd::prelude::*;

use crate::text::{chars_of, push_chars};

verus! {

/// `part` joined onto `base`, as `Path::join` joins paths on Unix: an
/// absolute `part` replaces `base`; otherwise a `/` goes between them
/// unless `base` is empty or already ends in one.
pub open spec fn path_join(base: Seq<char>, part: Seq<char>) -> Seq<char> {
    if part.len() > 0 && part[0] == '/' {
        part
    } else if base.len() == 0 || base.last() == '/' {
        base + part
    } else {
        base + seq!['/'] + part
    }
}

/// `part` joined onto `base`.
pub fn join_path(base: &str, part: &str) -> (joined: String)
    ensures
        joined@ == path_join(base@, part@),
{
    let base_chars = chars_of(base);
    let part_chars = chars_of(part);
    let mut joined = String::new();
    if part_chars.len() > 0 && part_chars[0] == '/' {
        push_chars(&mut joined, part_chars.as_slice());
        return joined;
    }
    push_chars(&mut joined, base_chars.as_slice());
    if base_chars.len() > 0 && base_chars[base_chars.len() - 1] != '/' {
        crate::text::push_char(&mut joined, '/');
    }
    push_chars(&mut joined, part_chars.as_slice());
    joined
}

/// Paths that subcommands consult repeatedly. Computed once relative to the
/// workspace root so subcommands stay short.
pub struct Paths {
    pub root: String,
}

impl Paths {
    /// The paths of the workspace at `root`.
    pub fn new(root: &str) -> (paths: Self)
        ensures
            paths.root@ == root@,
    {
        Paths { root: root.to_owned() }
    }

    /// The workspace's `Cargo.toml`.
    pub fn root_manifest(&self) -> (path: String)
        ensures
            path@ == path_join(self.root@, "Cargo.toml"@),
    {
        join_path(self.root.as_str(), "Cargo.toml")
    }

    /// The library's `Cargo.toml`.
    pub fn lib_manifest(&self) -> (path: String)
        ensures
            path@ == path_join(path_join(self.root@, "dependency-factory"@), "Cargo.toml"@),
    {
        let dir = join_path(self.root.as_str(), "dependency-factory");
        join_path(dir.as_str(), "Cargo.toml")
    }

    /// The workspace's `CHANGELOG.md`.
    pub fn changelog(&self) -> (path: String)
        ensures
            path@ == path_join(self.root@, "CHANGELOG.md"@),
    {
        join_path(self.root.as_str(), "CHANGELOG.md")
    }
}

} // verus!
