//! `Cargo.toml` edits and queries, which keep the file's formatting by
//! going through `toml_edit`.
//!
//! The contracts see a TOML document as a tree: each item that can be
//! reached from the root through tables, under the path of keys that leads
//! to it, with what it is ([`TomlItem`]). The tree of a document, of an item
//! and of an inline table are named below; what each `toml_edit` call does
//! to them is stated on the function that makes the call.

use toml_edit::{DocumentMut, InlineTable, Item};
use vstd::prelude::*;

use crate::version::{parse_version, semver_parse, Version, VersionParts};

verus! {

#[verifier::external_type_specification]
#[verifier::external_body]
pub struct ExDocumentMut(DocumentMut);

#[verifier::external_type_specification]
#[verifier::external_body]
pub struct ExItem(Item);

#[verifier::external_type_specification]
#[verifier::external_body]
pub struct ExInlineTable(InlineTable);

/// What an item of a TOML document is, as far as the release logic reads
/// it: a string, a table (under a `[header]` or made by dotted keys), an
/// inline table `{ .. }`, or any other value.
pub enum TomlItem {
    Text(Seq<char>),
    Table,
    InlineTable,
    Other,
}

/// The tree of the document that `toml_edit` parses from the text `text`:
/// each item reachable from the root through tables, under its path of
/// keys; none where `toml_edit` refuses the text.
pub uninterp spec fn toml_parse(text: Seq<char>) -> Option<Map<Seq<Seq<char>>, TomlItem>>;

/// The tree of the document `doc`: its items under their paths from the
/// root (the root itself has no entry).
pub uninterp spec fn toml_document_tree(doc: DocumentMut) -> Map<Seq<Seq<char>>, TomlItem>;

/// The tree of the item `item`: the item itself under the empty path (no
/// entry for an empty item, `Item::None`) and the items below it.
pub uninterp spec fn toml_item_tree(item: Item) -> Map<Seq<Seq<char>>, TomlItem>;

/// The tree of the inline table `table`, itself under the empty path.
pub uninterp spec fn toml_inline_tree(table: InlineTable) -> Map<Seq<Seq<char>>, TomlItem>;

/// The text of the document `doc`, with its formatting kept.
pub uninterp spec fn toml_document_text(doc: DocumentMut) -> Seq<char>;

/// The items of `tree` under the path `at`, by their paths below it.
pub open spec fn subtree(tree: Map<Seq<Seq<char>>, TomlItem>, at: Seq<Seq<char>>) -> Map<
    Seq<Seq<char>>,
    TomlItem,
> {
    Map::new(|p: Seq<Seq<char>>| tree.contains_key(at + p), |p: Seq<Seq<char>>| tree[at + p])
}

/// `path` runs through `at`.
pub open spec fn is_below(path: Seq<Seq<char>>, at: Seq<Seq<char>>) -> bool {
    at.len() <= path.len() && path.take(at.len() as int) == at
}

/// `tree` with its items under `at` replaced by those of `sub`.
pub open spec fn graft(
    tree: Map<Seq<Seq<char>>, TomlItem>,
    at: Seq<Seq<char>>,
    sub: Map<Seq<Seq<char>>, TomlItem>,
) -> Map<Seq<Seq<char>>, TomlItem> {
    Map::new(
        |p: Seq<Seq<char>>|
            if is_below(p, at) {
                sub.contains_key(p.skip(at.len() as int))
            } else {
                tree.contains_key(p)
            },
        |p: Seq<Seq<char>>|
            if is_below(p, at) {
                sub[p.skip(at.len() as int)]
            } else {
                tree[p]
            },
    )
}

/// The item at the top of `tree` is a table of either kind.
pub open spec fn is_table_like(tree: Map<Seq<Seq<char>>, TomlItem>) -> bool {
    tree.contains_key(Seq::empty()) && (tree[Seq::empty()] is Table || tree[Seq::empty()]
        is InlineTable)
}

/// The string at the top of `tree`, if it is one.
pub open spec fn top_text(tree: Map<Seq<Seq<char>>, TomlItem>) -> Option<Seq<char>> {
    if tree.contains_key(Seq::empty()) && tree[Seq::empty()] is Text {
        Some(tree[Seq::empty()]->Text_0)
    } else {
        None
    }
}

/// The tree of the item under `key` in the document tree `tree`, if there
/// is one.
pub open spec fn root_child(tree: Map<Seq<Seq<char>>, TomlItem>, key: Seq<char>) -> Option<
    Map<Seq<Seq<char>>, TomlItem>,
> {
    if tree.contains_key(seq![key]) {
        Some(subtree(tree, seq![key]))
    } else {
        None
    }
}

/// The tree of the item under `key` in the table at the top of `tree`, if
/// that is a table with such an item.
pub open spec fn child(tree: Map<Seq<Seq<char>>, TomlItem>, key: Seq<char>) -> Option<
    Map<Seq<Seq<char>>, TomlItem>,
> {
    if is_table_like(tree) && tree.contains_key(seq![key]) {
        Some(subtree(tree, seq![key]))
    } else {
        None
    }
}

/// The item tree `tree` once the string `text` is set under `key` in it:
/// an empty item first becomes an inline table.
pub open spec fn with_text(tree: Map<Seq<Seq<char>>, TomlItem>, key: Seq<char>, text: Seq<char>) -> Map<
    Seq<Seq<char>>,
    TomlItem,
> {
    let base = if tree.contains_key(Seq::empty()) {
        tree
    } else {
        tree.insert(Seq::empty(), TomlItem::InlineTable)
    };
    graft(base, seq![key], map![Seq::empty() => TomlItem::Text(text)])
}

/// The document tree `tree` with the item tree under `outer` and then
/// `inner` replaced by `changed` applied to it.
pub open spec fn edit_nested(
    tree: Map<Seq<Seq<char>>, TomlItem>,
    outer: Seq<char>,
    inner: Seq<char>,
    changed: spec_fn(Map<Seq<Seq<char>>, TomlItem>) -> Map<Seq<Seq<char>>, TomlItem>,
) -> Map<Seq<Seq<char>>, TomlItem> {
    let o = subtree(tree, seq![outer]);
    graft(tree, seq![outer], graft(o, seq![inner], changed(subtree(o, seq![inner]))))
}

/// The key of the derive crate in the library's dependencies. Its version
/// is pinned with `=` to the workspace version, so that the published
/// library always resolves the derive crate at exactly the same version.
pub open spec fn lib_pathdep_key() -> Seq<char> {
    "dependency-factory-derive"@
}

/// The text of `[workspace.package].version` in the document tree `tree`:
/// the string under `version` in the table under `package` in the item
/// under `workspace`.
pub open spec fn workspace_version_text(tree: Map<Seq<Seq<char>>, TomlItem>) -> Option<Seq<char>> {
    match root_child(tree, "workspace"@) {
        None => None,
        Some(w) => match child(w, "package"@) {
            None => None,
            Some(p) => match child(p, "version"@) {
                None => None,
                Some(v) => top_text(v),
            },
        },
    }
}

/// What reading `[workspace.package].version` from the root manifest text
/// `raw` gives: its version, or the error.
pub open spec fn workspace_version(raw: Seq<char>) -> Result<VersionParts, Seq<char>> {
    match toml_parse(raw) {
        None => Err("parsing root Cargo.toml"@),
        Some(tree) => match workspace_version_text(tree) {
            None => Err("[workspace.package].version is missing or not a string"@),
            Some(text) => match semver_parse(text) {
                Ok(parts) => Ok(parts),
                Err(_) => Err("[workspace.package].version `"@ + text + "` is not semver"@),
            },
        },
    }
}

/// What setting `[workspace.package].version` to `version` in the root
/// manifest text `raw` gives: the tree of the edited document, or the
/// error. An empty `package` item under a `workspace` table becomes an
/// inline table.
pub open spec fn workspace_version_edit(raw: Seq<char>, version: Seq<char>) -> Result<
    Map<Seq<Seq<char>>, TomlItem>,
    Seq<char>,
> {
    match toml_parse(raw) {
        None => Err("parsing root Cargo.toml"@),
        Some(tree) => {
            let w = subtree(tree, seq!["workspace"@]);
            let p = subtree(w, seq!["package"@]);
            if !tree.contains_key(seq!["workspace"@]) || !is_table_like(w) {
                Err("[workspace.package] is missing from root Cargo.toml"@)
            } else if p.contains_key(Seq::empty()) && !is_table_like(p) {
                Err("[workspace.package] is not a table"@)
            } else {
                Ok(
                    edit_nested(
                        tree,
                        "workspace"@,
                        "package"@,
                        |t: Map<Seq<Seq<char>>, TomlItem>| with_text(t, "version"@, version),
                    ),
                )
            }
        },
    }
}

/// What pinning the derive crate to `=version` in the library manifest
/// text `raw` gives: the tree of the edited document, or the error.
pub open spec fn pathdep_version_edit(raw: Seq<char>, version: Seq<char>) -> Result<
    Map<Seq<Seq<char>>, TomlItem>,
    Seq<char>,
> {
    match toml_parse(raw) {
        None => Err("parsing lib Cargo.toml"@),
        Some(tree) => {
            let d = subtree(tree, seq!["dependencies"@]);
            let e = subtree(d, seq![lib_pathdep_key()]);
            if !tree.contains_key(seq!["dependencies"@]) || !is_table_like(d) {
                Err("lib Cargo.toml has no `[dependencies].dependency-factory-derive` entry"@)
            } else if !(e.contains_key(Seq::empty()) && e[Seq::empty()] is InlineTable) {
                Err("`dependency-factory-derive` dep is not an inline table"@)
            } else {
                Ok(
                    edit_nested(
                        tree,
                        "dependencies"@,
                        lib_pathdep_key(),
                        |t: Map<Seq<Seq<char>>, TomlItem>|
                            graft(
                                t,
                                seq!["version"@],
                                map![Seq::empty() => TomlItem::Text(seq!['='] + version)],
                            ),
                    ),
                )
            }
        },
    }
}

/// The items that `graft` puts under the one-key path `[key]` are those
/// it was given.
proof fn lemma_subtree_of_graft(
    tree: Map<Seq<Seq<char>>, TomlItem>,
    key: Seq<char>,
    sub: Map<Seq<Seq<char>>, TomlItem>,
)
    ensures
        subtree(graft(tree, seq![key], sub), seq![key]) == sub,
{
    let g = graft(tree, seq![key], sub);
    assert forall|q: Seq<Seq<char>>| #[trigger] sub.contains_key(q) == g.contains_key(seq![key] + q)
        && (sub.contains_key(q) ==> sub[q] == g[seq![key] + q]) by {
        assert((seq![key] + q).take(1) =~= seq![key]);
        assert((seq![key] + q).skip(1) =~= q);
    }
    assert(subtree(g, seq![key]) =~= sub);
}

/// The top of `graft(tree, [key], sub)` is that of `tree`.
proof fn lemma_graft_keeps_top(
    tree: Map<Seq<Seq<char>>, TomlItem>,
    key: Seq<char>,
    sub: Map<Seq<Seq<char>>, TomlItem>,
)
    ensures
        graft(tree, seq![key], sub).contains_key(Seq::empty()) == tree.contains_key(Seq::empty()),
        tree.contains_key(Seq::empty()) ==> graft(tree, seq![key], sub)[Seq::empty()]
            == tree[Seq::empty()],
{
    assert(!is_below(Seq::<Seq<char>>::empty(), seq![key]));
}

/// After `edit_nested` on a document tree whose item under `outer` is a
/// table, the item under `outer` and then `inner` is the edited one.
proof fn lemma_nested_edit_reached(
    tree: Map<Seq<Seq<char>>, TomlItem>,
    outer: Seq<char>,
    inner: Seq<char>,
    changed: spec_fn(Map<Seq<Seq<char>>, TomlItem>) -> Map<Seq<Seq<char>>, TomlItem>,
)
    requires
        tree.contains_key(seq![outer]),
        is_table_like(subtree(tree, seq![outer])),
        changed(subtree(subtree(tree, seq![outer]), seq![inner])).contains_key(Seq::empty()),
    ensures
        ({
            let o = subtree(tree, seq![outer]);
            let edited = edit_nested(tree, outer, inner, changed);
            &&& root_child(edited, outer) == Some(graft(o, seq![inner], changed(subtree(o, seq![inner]))))
            &&& child(graft(o, seq![inner], changed(subtree(o, seq![inner]))), inner) == Some(
                changed(subtree(o, seq![inner])),
            )
        }),
{
    let o = subtree(tree, seq![outer]);
    let c = changed(subtree(o, seq![inner]));
    let inner_tree = graft(o, seq![inner], c);
    let edited = graft(tree, seq![outer], inner_tree);
    lemma_subtree_of_graft(tree, outer, inner_tree);
    lemma_subtree_of_graft(o, inner, c);
    lemma_graft_keeps_top(o, inner, c);
    assert(seq![outer] + Seq::<Seq<char>>::empty() =~= seq![outer]);
    assert(seq![inner] + Seq::<Seq<char>>::empty() =~= seq![inner]);
    assert(o.contains_key(Seq::empty()));
    assert(inner_tree.contains_key(Seq::empty()));
    assert(edited.contains_key(seq![outer] + Seq::<Seq<char>>::empty()));
    assert(inner_tree.contains_key(seq![inner] + Seq::<Seq<char>>::empty()));
}

/// Setting `[workspace.package].version` puts the version where reading
/// `[workspace.package].version` finds it.
pub proof fn law_set_workspace_version_reads_back(raw: Seq<char>, version: Seq<char>)
    requires
        workspace_version_edit(raw, version) is Ok,
    ensures
        workspace_version_text(workspace_version_edit(raw, version)->Ok_0) == Some(version),
{
    let tree = toml_parse(raw)->0;
    let changed = |t: Map<Seq<Seq<char>>, TomlItem>| with_text(t, "version"@, version);
    let p = subtree(subtree(tree, seq!["workspace"@]), seq!["package"@]);
    let base = if p.contains_key(Seq::empty()) {
        p
    } else {
        p.insert(Seq::empty(), TomlItem::InlineTable)
    };
    let leaf = map![Seq::<Seq<char>>::empty() => TomlItem::Text(version)];
    lemma_graft_keeps_top(base, "version"@, leaf);
    lemma_nested_edit_reached(tree, "workspace"@, "package"@, changed);
    lemma_subtree_of_graft(base, "version"@, leaf);
    assert(seq!["version"@] + Seq::<Seq<char>>::empty() =~= seq!["version"@]);
    assert(subtree(changed(p), seq!["version"@]).contains_key(Seq::empty()));
}

/// Pinning the derive crate puts `=` and the version where the pin is read:
/// under `version` in the dependency's inline table.
pub proof fn law_pin_reads_back(raw: Seq<char>, version: Seq<char>)
    requires
        pathdep_version_edit(raw, version) is Ok,
    ensures
        ({
            let edited = pathdep_version_edit(raw, version)->Ok_0;
            match root_child(edited, "dependencies"@) {
                Some(d) => match child(d, lib_pathdep_key()) {
                    Some(e) => match child(e, "version"@) {
                        Some(v) => top_text(v) == Some(seq!['='] + version),
                        None => false,
                    },
                    None => false,
                },
                None => false,
            }
        }),
{
    let tree = toml_parse(raw)->0;
    let leaf = map![Seq::<Seq<char>>::empty() => TomlItem::Text(seq!['='] + version)];
    let changed = |t: Map<Seq<Seq<char>>, TomlItem>| graft(t, seq!["version"@], leaf);
    let e = subtree(subtree(tree, seq!["dependencies"@]), seq![lib_pathdep_key()]);
    lemma_graft_keeps_top(e, "version"@, leaf);
    lemma_nested_edit_reached(tree, "dependencies"@, lib_pathdep_key(), changed);
    lemma_subtree_of_graft(e, "version"@, leaf);
    assert(seq!["version"@] + Seq::<Seq<char>>::empty() =~= seq!["version"@]);
    assert(subtree(changed(e), seq!["version"@]).contains_key(Seq::empty()));
}

/// Parse `raw` as a TOML document, through `DocumentMut`'s `FromStr`: the
/// document whose tree `toml_parse` names, or none where it names none.
#[verifier::external_body]
fn parse_document(raw: &str) -> (parsed: Option<DocumentMut>)
    ensures
        match parsed {
            Some(doc) => toml_parse(raw@) == Some(toml_document_tree(doc)),
            None => toml_parse(raw@) is None,
        },
{
    raw.parse::<DocumentMut>().ok()
}

/// The item under `key` in the document's root table, through `Table::get`
/// (an empty item counts as none).
#[verifier::external_body]
fn document_get<'a>(doc: &'a DocumentMut, key: &str) -> (item: Option<&'a Item>)
    ensures
        match item {
            Some(i) => root_child(toml_document_tree(*doc), key@) == Some(toml_item_tree(*i)),
            None => root_child(toml_document_tree(*doc), key@) is None,
        },
{
    doc.get(key)
}

/// The item under `key` in the document's root table, through
/// `Table::get_mut` (an empty item counts as none). Whatever is done to it
/// is done to the document.
#[verifier::external_body]
fn document_get_mut<'a>(doc: &'a mut DocumentMut, key: &str) -> (item: Option<&'a mut Item>)
    ensures
        match item {
            Some(i) => {
                &&& root_child(toml_document_tree(*old(doc)), key@) == Some(toml_item_tree(*i))
                &&& toml_document_tree(*final(doc)) == graft(
                    toml_document_tree(*old(doc)),
                    seq![key@],
                    toml_item_tree(*final(i)),
                )
            },
            None => {
                &&& root_child(toml_document_tree(*old(doc)), key@) is None
                &&& *final(doc) == *old(doc)
            },
        },
{
    doc.get_mut(key)
}

/// The item under `key` in `item`, if `item` is a table of either kind
/// with a non-empty item there, through `Item::get`.
#[verifier::external_body]
fn item_get<'a>(item: &'a Item, key: &str) -> (found: Option<&'a Item>)
    ensures
        match found {
            Some(i) => child(toml_item_tree(*item), key@) == Some(toml_item_tree(*i)),
            None => child(toml_item_tree(*item), key@) is None,
        },
{
    item.get(key)
}

/// The item under `key` in `item`, a table of either kind, through
/// `Item::get_mut`, which puts an empty item under `key` when there is
/// none; none when `item` is neither empty nor a table. Whatever is done to
/// the item found is done to `item`.
#[verifier::external_body]
fn item_get_mut<'a>(item: &'a mut Item, key: &str) -> (found: Option<&'a mut Item>)
    requires
        toml_item_tree(*old(item)).contains_key(Seq::empty()),
    ensures
        match found {
            Some(i) => {
                &&& is_table_like(toml_item_tree(*old(item)))
                &&& toml_item_tree(*i) == subtree(toml_item_tree(*old(item)), seq![key@])
                &&& toml_item_tree(*final(item)) == graft(
                    toml_item_tree(*old(item)),
                    seq![key@],
                    toml_item_tree(*final(i)),
                )
            },
            None => {
                &&& !is_table_like(toml_item_tree(*old(item)))
                &&& *final(item) == *old(item)
            },
        },
{
    item.get_mut(key)
}

/// `item` is the empty item, through `Item::is_none`.
#[verifier::external_body]
fn item_is_none(item: &Item) -> (none: bool)
    ensures
        none == !toml_item_tree(*item).contains_key(Seq::empty()),
{
    item.is_none()
}

/// `item` is a table of either kind, through `Item::is_table_like`.
#[verifier::external_body]
fn item_is_table_like(item: &Item) -> (table: bool)
    ensures
        table == is_table_like(toml_item_tree(*item)),
{
    item.is_table_like()
}

/// The text of `item`, if it is a string, through `Item::as_str`.
#[verifier::external_body]
fn item_text(item: &Item) -> (text: Option<String>)
    ensures
        match text {
            Some(t) => top_text(toml_item_tree(*item)) == Some(t@),
            None => top_text(toml_item_tree(*item)) is None,
        },
{
    item.as_str().map(|s| s.to_string())
}

/// Set `key` in `item` to the string `text`, through `Item`'s `IndexMut`
/// with a key and `toml_edit::value`; an empty item first becomes an
/// inline table. On any other item that indexing panics, which `requires`
/// rules out.
#[verifier::external_body]
fn set_string(item: &mut Item, key: &str, text: &str)
    requires
        !toml_item_tree(*old(item)).contains_key(Seq::empty()) || is_table_like(
            toml_item_tree(*old(item)),
        ),
    ensures
        toml_item_tree(*final(item)) == with_text(toml_item_tree(*old(item)), key@, text@),
{
    item[key] = toml_edit::value(text);
}

/// The inline table that `item` is, through `Item::as_inline_table_mut`.
/// Whatever is done to it is done to `item`.
#[verifier::external_body]
fn inline_table_mut(item: &mut Item) -> (table: Option<&mut InlineTable>)
    ensures
        match table {
            Some(t) => {
                &&& toml_item_tree(*old(item)).contains_key(Seq::empty())
                &&& toml_item_tree(*old(item))[Seq::empty()] is InlineTable
                &&& toml_inline_tree(*t) == toml_item_tree(*old(item))
                &&& toml_item_tree(*final(item)) == toml_inline_tree(*final(t))
            },
            None => {
                &&& !(toml_item_tree(*old(item)).contains_key(Seq::empty()) && toml_item_tree(
                    *old(item),
                )[Seq::empty()] is InlineTable)
                &&& *final(item) == *old(item)
            },
        },
{
    item.as_inline_table_mut()
}

/// Set `key` in `table` to the string `text`, through
/// `InlineTable::insert`.
#[verifier::external_body]
fn inline_insert(table: &mut InlineTable, key: &str, text: &str)
    ensures
        toml_inline_tree(*final(table)) == graft(
            toml_inline_tree(*old(table)),
            seq![key@],
            map![Seq::empty() => TomlItem::Text(text@)],
        ),
{
    table.insert(key, text.into());
}

/// The text of the document, with its formatting kept, through
/// `DocumentMut`'s `Display`.
#[verifier::external_body]
fn document_text(doc: &DocumentMut) -> (text: String)
    ensures
        text@ == toml_document_text(*doc),
{
    doc.to_string()
}

/// A new string that holds `message`.
fn message_of(message: &str) -> (text: String)
    ensures
        text@ == message@,
{
    let mut text = String::new();
    text.append(message);
    text
}

/// Read `[workspace.package].version` from the text `raw` of the root
/// `Cargo.toml`.
pub fn read_workspace_version(raw: &str) -> (result: Result<Version, String>)
    ensures
        match (result, workspace_version(raw@)) {
            (Ok(v), Ok(parts)) => v.parts() == parts,
            (Err(e), Err(expected)) => e@ == expected,
            _ => false,
        },
{
    let doc = match parse_document(raw) {
        Some(doc) => doc,
        None => return Err(message_of("parsing root Cargo.toml")),
    };
    let found = match document_get(&doc, "workspace") {
        Some(workspace) => match item_get(workspace, "package") {
            Some(package) => match item_get(package, "version") {
                Some(version) => item_text(version),
                None => None,
            },
            None => None,
        },
        None => None,
    };
    let text = match found {
        Some(text) => text,
        None => return Err(message_of("[workspace.package].version is missing or not a string")),
    };
    match parse_version(text.as_str()) {
        Ok(v) => Ok(v),
        Err(_) => {
            let mut message = String::new();
            message.append("[workspace.package].version `");
            message.append(text.as_str());
            message.append("` is not semver");
            Err(message)
        },
    }
}

/// Set `[workspace.package].version` in the text `raw` of the root
/// `Cargo.toml` to `new`. Returns the new text: that of the document read
/// from `raw` with the version set, its formatting kept.
pub fn set_workspace_version(raw: &str, new: &Version) -> (result: Result<String, String>)
    ensures
        match (result, workspace_version_edit(raw@, crate::version::version_text(new.parts()))) {
            (Ok(text), Ok(tree)) => exists|doc: DocumentMut|
                toml_document_tree(doc) == tree && #[trigger] toml_document_text(doc) == text@,
            (Err(e), Err(expected)) => e@ == expected,
            _ => false,
        },
{
    let mut doc = match parse_document(raw) {
        Some(doc) => doc,
        None => return Err(message_of("parsing root Cargo.toml")),
    };
    let ghost tree = toml_document_tree(doc);
    let version = new.render();
    let done = match document_get_mut(&mut doc, "workspace") {
        Some(workspace) => match item_get_mut(workspace, "package") {
            Some(package) => {
                if item_is_none(package) || item_is_table_like(package) {
                    set_string(package, "version", version.as_str());
                    Some(true)
                } else {
                    Some(false)
                }
            },
            None => None,
        },
        None => None,
    };
    match done {
        None => Err(message_of("[workspace.package] is missing from root Cargo.toml")),
        Some(false) => Err(message_of("[workspace.package] is not a table")),
        Some(true) => {
            let text = document_text(&doc);
            assert(toml_document_tree(doc) =~= edit_nested(
                tree,
                "workspace"@,
                "package"@,
                |t: Map<Seq<Seq<char>>, TomlItem>| with_text(t, "version"@, version@),
            ));
            Ok(text)
        },
    }
}

/// Set the library's `dependency-factory-derive` dependency, an inline
/// table, to the version `=<new>` in the text `raw` of the library's
/// `Cargo.toml`. Returns the new text: that of the document read from
/// `raw` with the pin set, its formatting kept.
pub fn set_lib_pathdep_version(raw: &str, new: &Version) -> (result: Result<String, String>)
    ensures
        match (result, pathdep_version_edit(raw@, crate::version::version_text(new.parts()))) {
            (Ok(text), Ok(tree)) => exists|doc: DocumentMut|
                toml_document_tree(doc) == tree && #[trigger] toml_document_text(doc) == text@,
            (Err(e), Err(expected)) => e@ == expected,
            _ => false,
        },
{
    let mut doc = match parse_document(raw) {
        Some(doc) => doc,
        None => return Err(message_of("parsing lib Cargo.toml")),
    };
    let ghost tree = toml_document_tree(doc);
    let mut pin = String::new();
    pin.append("=");
    proof {
        reveal_strlit("=");
    }
    assert(pin@ =~= seq!['=']);
    new.push_to(&mut pin);
    let outcome = match document_get_mut(&mut doc, "dependencies") {
        Some(dependencies) => match item_get_mut(dependencies, "dependency-factory-derive") {
            Some(dep) => match inline_table_mut(dep) {
                Some(table) => {
                    inline_insert(table, "version", pin.as_str());
                    Some(true)
                },
                None => Some(false),
            },
            None => None,
        },
        None => None,
    };
    match outcome {
        None => Err(
            message_of("lib Cargo.toml has no `[dependencies].dependency-factory-derive` entry"),
        ),
        Some(false) => Err(message_of("`dependency-factory-derive` dep is not an inline table")),
        Some(true) => {
            let text = document_text(&doc);
            assert(pin@ =~= seq!['='] + crate::version::version_text(new.parts()));
            assert(toml_document_tree(doc) =~= edit_nested(
                tree,
                "dependencies"@,
                lib_pathdep_key(),
                |t: Map<Seq<Seq<char>>, TomlItem>|
                    graft(
                        t,
                        seq!["version"@],
                        map![Seq::empty() => TomlItem::Text(pin@)],
                    ),
            ));
            Ok(text)
        },
    }
}

} // verus!
