//! The dependency graph rewriter: turns local path dependencies that no longer
//! resolve into pinned git dependencies, and computes the workspace members.
use vstd::prelude::*;

use crate::manifest::{
    child_item, child_item_mut, child_of, doc_array, doc_item, doc_str, insert_child,
    is_table_like, item_at, item_is_table_like, item_str, item_table_keys, lemma_item_at_one,
    lemma_item_at_two, new_table, opt_views, remove_child, root_item, root_item_mut, root_of,
    same_except, set_child_str, set_child_strs, str_of, table_keys_of, ManifestError,
};
use crate::text::{chars_of, occurs_at, same_chars, str_eq, string_of, views};
use toml_edit::{DocumentMut, Item};

verus! {

/// The `path` of a dependency declaration, if it has a string one.
pub open spec fn dep_path(dep: Item) -> Option<Seq<char>> {
    match child_of(dep, "path"@) {
        Some(p) => str_of(p),
        None => None,
    }
}

/// A declaration whose `path` is among the paths that do not resolve.
pub open spec fn needs_git(dep: Item, missing: Seq<Seq<char>>) -> bool {
    is_table_like(dep) && dep_path(dep) is Some && missing.contains(dep_path(dep)->0)
}

/// `new` is `old` with its `path` key replaced by `git = remote`, `rev = rev`.
pub open spec fn git_dep(old: Item, new: Item, remote: Seq<char>, rev: Seq<char>) -> bool {
    &&& is_table_like(new)
    &&& child_of(new, "path"@) is None
    &&& child_of(new, "git"@) is Some
    &&& str_of(child_of(new, "git"@)->0) == Some(remote)
    &&& child_of(new, "rev"@) is Some
    &&& str_of(child_of(new, "rev"@)->0) == Some(rev)
    &&& forall|k: Seq<char>|
        k != "path"@ && k != "git"@ && k != "rev"@ ==> #[trigger] child_of(new, k) == child_of(old, k)
}

/// One declaration after the rewrite: pinned to git if its path is missing,
/// untouched otherwise.
pub open spec fn dep_rewritten(
    old: Item,
    new: Item,
    missing: Seq<Seq<char>>,
    remote: Seq<char>,
    rev: Seq<char>,
) -> bool {
    if needs_git(old, missing) {
        git_dep(old, new, remote, rev)
    } else {
        new == old
    }
}

pub open spec fn opt_dep_rewritten(
    old: Option<Item>,
    new: Option<Item>,
    missing: Seq<Seq<char>>,
    remote: Seq<char>,
    rev: Seq<char>,
) -> bool {
    match (old, new) {
        (Some(a), Some(b)) => dep_rewritten(a, b, missing, remote, rev),
        (None, None) => true,
        _ => false,
    }
}

/// Whether some declaration of a dependency table needs the rewrite.
pub open spec fn table_needs_git(t: Item, missing: Seq<Seq<char>>) -> bool {
    table_keys_of(t) is Some && exists|k: Seq<char>|
        #[trigger] child_of(t, k) is Some && needs_git(child_of(t, k)->0, missing)
}

/// A dependency table after the rewrite: its keys kept in their order, every
/// declaration of a table item rewritten, and the item untouched where nothing
/// needed it (an item that is
/// not a table, such as an inline table, is left as it is).
pub open spec fn table_rewritten(
    old: Item,
    new: Item,
    missing: Seq<Seq<char>>,
    remote: Seq<char>,
    rev: Seq<char>,
) -> bool {
    &&& !table_needs_git(old, missing) ==> new == old
    &&& table_keys_of(new) == table_keys_of(old)
    &&& table_keys_of(old) is Some ==> forall|k: Seq<char>|
        opt_dep_rewritten(#[trigger] child_of(old, k), child_of(new, k), missing, remote, rev)
    &&& !table_needs_git(new, missing)
}

/// Pins one declaration to git if its path is among the missing ones.
fn rewrite_dep(dep: &mut Item, missing: &Vec<String>, remote: &str, rev: &str)
    requires
        needs_git(*old(dep), views(missing@)),
    ensures
        git_dep(*old(dep), *final(dep), remote@, rev@),
{
    proof {
        reveal_strlit("path");
        reveal_strlit("git");
        reveal_strlit("rev");
    }
    assert("path"@.len() != "git"@.len() && "path"@.len() != "rev"@.len());
    assert("git"@[0] != "rev"@[0]);
    let ghost d0 = *dep;
    let _ = remove_child(dep, "path");
    let ghost d1 = *dep;
    set_child_str(dep, "git", remote);
    let ghost d2 = *dep;
    set_child_str(dep, "rev", rev);
    assert(child_of(d2, "path"@) == child_of(d1, "path"@));
    assert(child_of(*dep, "git"@) == child_of(d2, "git"@));
    assert forall|k: Seq<char>|
        k != "path"@ && k != "git"@ && k != "rev"@ implies #[trigger] child_of(*dep, k) == child_of(
        d0,
        k,
    ) by {
        assert(child_of(*dep, k) == child_of(d2, k));
        assert(child_of(d2, k) == child_of(d1, k));
    }
}

/// Whether `p` is one of the missing paths.
fn is_missing(missing: &Vec<String>, p: &String) -> (r: bool)
    ensures
        r == views(missing@).contains(p@),
{
    let mut i: usize = 0;
    while i < missing.len()
        invariant
            i <= missing.len(),
            forall|j: int| 0 <= j < i ==> missing@[j]@ != p@,
        decreases missing.len() - i,
    {
        if str_eq(missing[i].as_str(), p.as_str()) {
            assert(views(missing@)[i as int] == p@);
            return true;
        }
        i = i + 1;
    }
    assert forall|j: int| 0 <= j < views(missing@).len() implies views(missing@)[j] != p@ by {
        assert(missing@[j]@ != p@);
    }
    false
}

/// Whether one declaration needs the rewrite.
fn dep_needs_git(dep: &Item, missing: &Vec<String>) -> (r: bool)
    ensures
        r == needs_git(*dep, views(missing@)),
{
    if !item_is_table_like(dep) {
        return false;
    }
    match child_item(dep, "path") {
        Some(p) => match item_str(p) {
            Some(s) => is_missing(missing, &s),
            None => false,
        },
        None => false,
    }
}

/// Whether some declaration of a dependency table needs the rewrite.
fn table_needs(t: &Item, missing: &Vec<String>) -> (r: bool)
    ensures
        r == table_needs_git(*t, views(missing@)),
{
    let keys = match item_table_keys(t) {
        Some(keys) => keys,
        None => {
            return false;
        },
    };
    let ghost kv = keys@.map_values(|s: String| s@);
    let mut i: usize = 0;
    while i < keys.len()
        invariant
            i <= keys.len(),
            kv == keys@.map_values(|s: String| s@),
            table_keys_of(*t) is Some,
            forall|k: Seq<char>| #[trigger] child_of(*t, k) is Some <==> kv.contains(k),
            forall|j: int|
                0 <= j < i ==> !(child_of(*t, #[trigger] kv[j]) is Some && needs_git(
                    child_of(*t, kv[j])->0,
                    views(missing@),
                )),
        decreases keys.len() - i,
    {
        match child_item(t, keys[i].as_str()) {
            Some(d) => {
                if dep_needs_git(d, missing) {
                    assert(child_of(*t, kv[i as int]) is Some);
                    return true;
                }
            },
            None => {},
        }
        i = i + 1;
    }
    assert forall|k: Seq<char>|
        !(#[trigger] child_of(*t, k) is Some && needs_git(child_of(*t, k)->0, views(missing@))) by {
        if child_of(*t, k) is Some {
            let j = choose|j: int| 0 <= j < kv.len() && kv[j] == k;
            assert(!(child_of(*t, kv[j]) is Some && needs_git(
                child_of(*t, kv[j])->0,
                views(missing@),
            )));
        }
    }
    false
}

/// Whether `k` is among the first `n` keys.
pub open spec fn in_prefix(kv: Seq<Seq<char>>, n: int, k: Seq<char>) -> bool {
    exists|j: int| 0 <= j < n && #[trigger] kv[j] == k
}

/// Rewrites every declaration of one dependency table.
fn rewrite_dep_table(t: &mut Item, missing: &Vec<String>, remote: &str, rev: &str)
    ensures
        table_rewritten(*old(t), *final(t), views(missing@), remote@, rev@),
{
    let ghost m = views(missing@);
    if !table_needs(t, missing) {
        assert forall|k: Seq<char>|
            #[trigger] child_of(*t, k) is Some && table_keys_of(*t) is Some implies !needs_git(
            child_of(*t, k)->0,
            m,
        ) by {}
        return;
    }
    let keys = match item_table_keys(t) {
        Some(keys) => keys,
        None => {
            return;
        },
    };
    let ghost t0 = *t;
    let ghost kv = keys@.map_values(|s: String| s@);
    let mut i: usize = 0;
    while i < keys.len()
        invariant
            i <= keys.len(),
            table_keys_of(*t) == table_keys_of(t0),
            kv == keys@.map_values(|s: String| s@),
            m == views(missing@),
            forall|k: Seq<char>| #[trigger] child_of(t0, k) is Some <==> kv.contains(k),
            forall|k: Seq<char>| (#[trigger] child_of(*t, k) is Some) == (child_of(t0, k) is Some),
            forall|k: Seq<char>|
                #[trigger] in_prefix(kv, i as int, k) ==> opt_dep_rewritten(
                    child_of(t0, k),
                    child_of(*t, k),
                    m,
                    remote@,
                    rev@,
                ) && (child_of(*t, k) is Some ==> !needs_git(child_of(*t, k)->0, m)),
            forall|k: Seq<char>| !in_prefix(kv, i as int, k) ==> #[trigger] child_of(*t, k) == child_of(t0, k),
        decreases keys.len() - i,
    {
        let ghost before = *t;
        let ghost key = kv[i as int];
        assert(keys[i as int]@ == key);
        let needs = match child_item(t, keys[i].as_str()) {
            Some(d) => dep_needs_git(d, missing),
            None => false,
        };
        if needs {
            let dm = child_item_mut(t, keys[i].as_str());
            rewrite_dep(dm, missing, remote, rev);
        }
        assert forall|k: Seq<char>| #[trigger] in_prefix(kv, i + 1, k) <==> (in_prefix(kv, i as int, k) || k == key) by {
            if in_prefix(kv, i + 1, k) && k != key {
                let j = choose|j: int| 0 <= j < i + 1 && #[trigger] kv[j] == k;
                assert(j < i);
            }
            if k == key {
                assert(kv[i as int] == k);
            }
        }
        i = i + 1;
    }
    assert forall|k: Seq<char>|
        opt_dep_rewritten(#[trigger] child_of(t0, k), child_of(*t, k), m, remote@, rev@) && (
        child_of(*t, k) is Some ==> !needs_git(child_of(*t, k)->0, m)) by {
        if child_of(t0, k) is Some {
            let j = choose|j: int| 0 <= j < kv.len() && kv[j] == k;
            assert(in_prefix(kv, kv.len() as int, k));
        }
    }
}

pub open spec fn opt_table_needs_git(t: Option<Item>, missing: Seq<Seq<char>>) -> bool {
    t is Some && table_needs_git(t->0, missing)
}

pub open spec fn opt_table_rewritten(
    old: Option<Item>,
    new: Option<Item>,
    missing: Seq<Seq<char>>,
    remote: Seq<char>,
    rev: Seq<char>,
) -> bool {
    match (old, new) {
        (Some(a), Some(b)) => table_rewritten(a, b, missing, remote, rev),
        (None, None) => true,
        _ => false,
    }
}

/// The dependency tables that the rewrite covers, by key path.
pub open spec fn dep_table_paths() -> Seq<Seq<Seq<char>>> {
    seq![
        seq!["dependencies"@],
        seq!["build-dependencies"@],
        seq!["dev-dependencies"@],
        seq!["workspace"@, "dependencies"@],
    ]
}

/// Whether some dependency table of a document needs the rewrite.
pub open spec fn doc_needs_git(d: DocumentMut, missing: Seq<Seq<char>>) -> bool {
    exists|j: int|
        0 <= j < 4 && opt_table_needs_git(#[trigger] doc_item(d, dep_table_paths()[j]), missing)
}

/// A document after the rewrite: each dependency table rewritten, nothing
/// else changed, keys kept in their order, and the document untouched where
/// nothing needed it.
pub open spec fn doc_rewritten(
    old: DocumentMut,
    new: DocumentMut,
    missing: Seq<Seq<char>>,
    remote: Seq<char>,
    rev: Seq<char>,
) -> bool {
    &&& !doc_needs_git(old, missing) ==> new == old
    &&& forall|j: int|
        0 <= j < 4 ==> opt_table_rewritten(
            #[trigger] doc_item(old, dep_table_paths()[j]),
            doc_item(new, dep_table_paths()[j]),
            missing,
            remote,
            rev,
        )
    &&& !doc_needs_git(new, missing)
    &&& table_keys_of(root_of(new)) == table_keys_of(root_of(old))
    &&& doc_item(old, seq!["workspace"@]) is Some ==> table_keys_of(
        doc_item(new, seq!["workspace"@])->0,
    ) == table_keys_of(doc_item(old, seq!["workspace"@])->0)
    &&& forall|k: Seq<char>|
        k != "dependencies"@ && k != "build-dependencies"@ && k != "dev-dependencies"@ && k
            != "workspace"@ ==> #[trigger] child_of(root_of(new), k) == child_of(root_of(old), k)
    &&& (doc_item(old, seq!["workspace"@]) is Some <==> doc_item(new, seq!["workspace"@]) is Some)
    &&& doc_item(old, seq!["workspace"@]) is Some ==> same_except(
        doc_item(new, seq!["workspace"@])->0,
        doc_item(old, seq!["workspace"@])->0,
        "dependencies"@,
    )
}

proof fn lemma_untouched_table(t: Item, m: Seq<Seq<char>>, remote: Seq<char>, rev: Seq<char>)
    requires
        !table_needs_git(t, m),
    ensures
        table_rewritten(t, t, m, remote, rev),
{
    assert forall|k: Seq<char>| table_keys_of(t) is Some implies opt_dep_rewritten(
        #[trigger] child_of(t, k),
        child_of(t, k),
        m,
        remote,
        rev,
    ) by {
        if child_of(t, k) is Some {
            assert(!needs_git(child_of(t, k)->0, m));
        }
    }
}

/// Rewrites the dependency table under one top-level key.
fn rewrite_top_table(d: &mut DocumentMut, key: &str, missing: &Vec<String>, remote: &str, rev: &str)
    ensures
        opt_table_rewritten(
            child_of(root_of(*old(d)), key@),
            child_of(root_of(*final(d)), key@),
            views(missing@),
            remote@,
            rev@,
        ),
        same_except(root_of(*final(d)), root_of(*old(d)), key@),
        table_keys_of(root_of(*final(d))) == table_keys_of(root_of(*old(d))),
        !opt_table_needs_git(child_of(root_of(*old(d)), key@), views(missing@)) ==> *final(d) == *old(
            d,
        ),
{
    let needs = match child_item(root_item(d), key) {
        Some(t) => table_needs(t, missing),
        None => false,
    };
    if needs {
        let r = root_item_mut(d);
        let t = child_item_mut(r, key);
        rewrite_dep_table(t, missing, remote, rev);
    } else {
        proof {
            if let Some(t) = child_of(root_of(*d), key@) {
                lemma_untouched_table(t, views(missing@), remote@, rev@);
            }
        }
    }
}

/// Rewrites the `workspace.dependencies` table.
fn rewrite_workspace_table(d: &mut DocumentMut, missing: &Vec<String>, remote: &str, rev: &str)
    ensures
        opt_table_rewritten(
            doc_item(*old(d), seq!["workspace"@, "dependencies"@]),
            doc_item(*final(d), seq!["workspace"@, "dependencies"@]),
            views(missing@),
            remote@,
            rev@,
        ),
        same_except(root_of(*final(d)), root_of(*old(d)), "workspace"@),
        table_keys_of(root_of(*final(d))) == table_keys_of(root_of(*old(d))),
        child_of(root_of(*old(d)), "workspace"@) is Some ==> table_keys_of(
            child_of(root_of(*final(d)), "workspace"@)->0,
        ) == table_keys_of(child_of(root_of(*old(d)), "workspace"@)->0),
        child_of(root_of(*old(d)), "workspace"@) is Some <==> child_of(root_of(*final(d)), "workspace"@) is Some,
        child_of(root_of(*old(d)), "workspace"@) is Some ==> same_except(
            child_of(root_of(*final(d)), "workspace"@)->0,
            child_of(root_of(*old(d)), "workspace"@)->0,
            "dependencies"@,
        ),
        !opt_table_needs_git(doc_item(*old(d), seq!["workspace"@, "dependencies"@]), views(missing@))
            ==> *final(d) == *old(d),
{
    proof {
        lemma_item_at_two(root_of(*d), "workspace"@, "dependencies"@);
    }
    let needs = match child_item(root_item(d), "workspace") {
        Some(w) => match child_item(w, "dependencies") {
            Some(t) => table_needs(t, missing),
            None => false,
        },
        None => false,
    };
    if needs {
        let r = root_item_mut(d);
        let w = child_item_mut(r, "workspace");
        let t = child_item_mut(w, "dependencies");
        rewrite_dep_table(t, missing, remote, rev);
        proof {
            lemma_item_at_two(root_of(*d), "workspace"@, "dependencies"@);
        }
    } else {
        proof {
            if let Some(t) = doc_item(*d, seq!["workspace"@, "dependencies"@]) {
                lemma_untouched_table(t, views(missing@), remote@, rev@);
            }
        }
    }
}

/// Replaces every path dependency whose path is among `missing` (the paths,
/// as written in this manifest, that do not resolve from its directory) with a
/// git dependency on `remote` pinned at `commit_id`, in `[dependencies]`,
/// `[build-dependencies]`, `[dev-dependencies]` and `[workspace.dependencies]`.
/// Declarations whose path resolves are left untouched.
pub fn replace_path_dependencies_with_git(
    cargo_toml: &mut DocumentMut,
    missing: &Vec<String>,
    remote: &str,
    commit_id: &str,
)
    ensures
        doc_rewritten(*old(cargo_toml), *final(cargo_toml), views(missing@), remote@, commit_id@),
{
    proof {
        reveal_strlit("dependencies");
        reveal_strlit("build-dependencies");
        reveal_strlit("dev-dependencies");
        reveal_strlit("workspace");
    }
    let ghost m = views(missing@);
    let ghost d0 = *cargo_toml;
    rewrite_top_table(cargo_toml, "dependencies", missing, remote, commit_id);
    let ghost d1 = *cargo_toml;
    rewrite_top_table(cargo_toml, "build-dependencies", missing, remote, commit_id);
    let ghost d2 = *cargo_toml;
    rewrite_top_table(cargo_toml, "dev-dependencies", missing, remote, commit_id);
    let ghost d3 = *cargo_toml;
    rewrite_workspace_table(cargo_toml, missing, remote, commit_id);
    let ghost d4 = *cargo_toml;
    proof {
        let ps = dep_table_paths();
        let dd = "dependencies"@;
        let bd = "build-dependencies"@;
        let vd = "dev-dependencies"@;
        let ws = "workspace"@;
        assert(dd.len() != bd.len() && dd.len() != vd.len() && dd.len() != ws.len());
        assert(bd.len() != vd.len() && bd.len() != ws.len() && vd.len() != ws.len());
        lemma_item_at_one(root_of(d0), dd);
        lemma_item_at_one(root_of(d4), dd);
        lemma_item_at_one(root_of(d0), bd);
        lemma_item_at_one(root_of(d4), bd);
        lemma_item_at_one(root_of(d0), vd);
        lemma_item_at_one(root_of(d4), vd);
        lemma_item_at_one(root_of(d0), ws);
        lemma_item_at_one(root_of(d4), ws);
        lemma_item_at_two(root_of(d0), ws, dd);
        lemma_item_at_two(root_of(d3), ws, dd);
        lemma_item_at_two(root_of(d4), ws, dd);
        assert(ps[0] == seq![dd] && ps[1] == seq![bd] && ps[2] == seq![vd] && ps[3] == seq![ws, dd]);
        assert(child_of(root_of(d4), dd) == child_of(root_of(d1), dd));
        assert(child_of(root_of(d4), bd) == child_of(root_of(d2), bd));
        assert(child_of(root_of(d4), vd) == child_of(root_of(d3), vd));
        assert(child_of(root_of(d3), ws) == child_of(root_of(d0), ws));
        if !doc_needs_git(d0, m) {
            assert(!opt_table_needs_git(doc_item(d0, ps[0]), m));
            assert(!opt_table_needs_git(doc_item(d0, ps[1]), m));
            assert(!opt_table_needs_git(doc_item(d0, ps[2]), m));
            assert(!opt_table_needs_git(doc_item(d0, ps[3]), m));
        }
        assert forall|j: int| 0 <= j < 4 implies !opt_table_needs_git(
            #[trigger] doc_item(d4, dep_table_paths()[j]),
            m,
        ) by {}
    }
}

/// Running the rewrite again on its own output, with the same missing
/// paths, changes nothing: `rewrite(rewrite(T)) == rewrite(T)`.
pub proof fn lemma_rewrite_idempotent(
    d0: DocumentMut,
    d1: DocumentMut,
    d2: DocumentMut,
    missing: Seq<Seq<char>>,
    remote: Seq<char>,
    rev: Seq<char>,
)
    requires
        doc_rewritten(d0, d1, missing, remote, rev),
        doc_rewritten(d1, d2, missing, remote, rev),
    ensures
        d2 == d1,
{
}

/// A manifest that does not lie under the workspace root.
#[derive(Debug, PartialEq, Eq, Structural)]
pub enum WorkspaceError {
    NotUnderRoot,
}

/// The directory part of a relative path: what comes before its last `/`,
/// empty where there is none.
pub open spec fn parent_of(s: Seq<char>) -> Seq<char>
    decreases s.len(),
{
    if s.len() == 0 {
        s
    } else if s.last() == '/' {
        s.drop_last()
    } else {
        parent_of(s.drop_last())
    }
}

pub open spec fn root_manifest(root: Seq<char>) -> Seq<char> {
    root + "/Cargo.toml"@
}

/// The member directories for the manifests `ms` of a tree rooted at `root`:
/// each manifest's directory relative to the root, the root manifest left out,
/// each directory once, in the order first found; an error for a manifest
/// outside the root.
pub open spec fn members_of(root: Seq<char>, ms: Seq<Seq<char>>) -> Result<Seq<Seq<char>>, ()>
    decreases ms.len(),
{
    if ms.len() == 0 {
        Ok(Seq::empty())
    } else {
        match members_of(root, ms.drop_last()) {
            Err(()) => Err(()),
            Ok(prev) => {
                let m = ms.last();
                if m == root_manifest(root) {
                    Ok(prev)
                } else if !occurs_at(m, 0, root.push('/')) {
                    Err(())
                } else {
                    let dir = parent_of(m.subrange(root.len() + 1int, m.len() as int));
                    if prev.contains(dir) {
                        Ok(prev)
                    } else {
                        Ok(prev.push(dir))
                    }
                }
            },
        }
    }
}

fn parent_dir(s: &Vec<char>, from: usize) -> (r: Vec<char>)
    requires
        from <= s.len(),
    ensures
        r@ == parent_of(s@.subrange(from as int, s.len() as int)),
{
    let mut end: usize = s.len();
    while end > from
        invariant
            from <= end <= s.len(),
            parent_of(s@.subrange(from as int, s.len() as int)) == parent_of(
                s@.subrange(from as int, end as int),
            ),
        decreases end,
    {
        assert(s@.subrange(from as int, end as int).drop_last() =~= s@.subrange(
            from as int,
            end - 1,
        ));
        if s[end - 1] == '/' {
            let mut out: Vec<char> = Vec::new();
            let mut k: usize = from;
            while k < end - 1
                invariant
                    from <= k <= end - 1,
                    end <= s.len(),
                    out@ == s@.subrange(from as int, k as int),
                decreases end - 1 - k,
            {
                out.push(s[k]);
                k = k + 1;
                assert(out@ =~= s@.subrange(from as int, k as int));
            }
            return out;
        }
        end = end - 1;
    }
    assert(s@.subrange(from as int, end as int) =~= Seq::<char>::empty());
    Vec::new()
}

fn contains_view(v: &Vec<String>, x: &Vec<char>) -> (r: bool)
    ensures
        r == views(v@).contains(x@),
{
    let mut i: usize = 0;
    while i < v.len()
        invariant
            i <= v.len(),
            forall|j: int| 0 <= j < i ==> v@[j]@ != x@,
        decreases v.len() - i,
    {
        if same_chars(&chars_of(v[i].as_str()), x) {
            assert(views(v@)[i as int] == x@);
            return true;
        }
        i = i + 1;
    }
    assert forall|j: int| 0 <= j < views(v@).len() implies views(v@)[j] != x@ by {
        assert(v@[j]@ != x@);
    }
    false
}

/// The workspace members of a tree rooted at `root` (written without a
/// trailing `/`) whose manifests are `manifests`.
pub fn workspace_members(root: &str, manifests: &Vec<String>) -> (r: Result<
    Vec<String>,
    WorkspaceError,
>)
    ensures
        match r {
            Ok(v) => members_of(root@, views(manifests@)) == Ok::<Seq<Seq<char>>, ()>(views(v@)),
            Err(_) => members_of(root@, views(manifests@)) is Err,
        },
{
    let root_chars = chars_of(root);
    let mut prefix = root_chars.clone();
    prefix.push('/');
    let mut top = chars_of(root);
    let suffix = chars_of("/Cargo.toml");
    crate::text::extend_chars(&mut top, &suffix);
    let mut out: Vec<String> = Vec::new();
    let ghost ms = views(manifests@);
    assert(views(out@) =~= Seq::<Seq<char>>::empty());
    let mut i: usize = 0;
    while i < manifests.len()
        invariant
            i <= manifests.len(),
            ms == views(manifests@),
            root_chars@ == root@,
            prefix@ == root@.push('/'),
            top@ == root_manifest(root@),
            members_of(root@, ms.take(i as int)) == Ok::<Seq<Seq<char>>, ()>(views(out@)),
        decreases manifests.len() - i,
    {
        assert(ms.take(i + 1).drop_last() =~= ms.take(i as int));
        let m = chars_of(manifests[i].as_str());
        assert(ms.take(i + 1).last() == m@);
        if same_chars(&m, &top) {
        } else if !crate::text::matches_at(&m, 0, &prefix) {
            proof {
                lemma_members_err_extends(root@, ms, i + 1);
            }
            return Err(WorkspaceError::NotUnderRoot);
        } else {
            let dir = parent_dir(&m, prefix.len());
            if !contains_view(&out, &dir) {
                let ghost before = views(out@);
                out.push(string_of(&dir));
                assert(views(out@) =~= before.push(dir@));
            }
        }
        i = i + 1;
    }
    assert(ms.take(manifests.len() as int) =~= ms);
    Ok(out)
}

proof fn lemma_members_err_extends(root: Seq<char>, ms: Seq<Seq<char>>, k: int)
    requires
        0 <= k <= ms.len(),
        members_of(root, ms.take(k)) is Err,
    ensures
        members_of(root, ms) is Err,
    decreases ms.len() - k,
{
    if k < ms.len() {
        assert(ms.take(k + 1).drop_last() =~= ms.take(k));
        lemma_members_err_extends(root, ms, k + 1);
    } else {
        assert(ms.take(k) =~= ms);
    }
}

proof fn lemma_member_dir(root: Seq<char>, rel: Seq<char>, dir: Seq<char>)
    requires
        rel == dir + "/Cargo.toml"@,
        forall|i: int| 0 <= i < dir.len() ==> dir[i] != '/',
    ensures
        occurs_at(root + "/"@ + rel, 0, root.push('/')),
        (root + "/"@ + rel).subrange(root.len() + 1int, (root + "/"@ + rel).len() as int) == rel,
        parent_of(rel) == dir,
{
    reveal_strlit("/");
    reveal_strlit("/Cargo.toml");
    reveal_strlit("Cargo.toml");
    assert((root + "/"@ + rel).subrange(0, root.len() + 1int) =~= root.push('/'));
    assert((root + "/"@ + rel).subrange(root.len() + 1int, (root + "/"@ + rel).len() as int) =~= rel);
    assert(rel =~= dir + seq!['/'] + "Cargo.toml"@);
    assert forall|i: int| 0 <= i < "Cargo.toml"@.len() implies "Cargo.toml"@[i] != '/' by {}
    lemma_parent_skips(dir, "Cargo.toml"@);
}

proof fn lemma_parent_skips(dir: Seq<char>, file: Seq<char>)
    requires
        forall|i: int| 0 <= i < file.len() ==> file[i] != '/',
    ensures
        parent_of(dir + seq!['/'] + file) == dir,
    decreases file.len(),
{
    let s = dir + seq!['/'] + file;
    if file.len() == 0 {
        assert(s.last() == '/');
        assert(s.drop_last() =~= dir);
    } else {
        assert(s.last() == file.last());
        assert(s.drop_last() =~= dir + seq!['/'] + file.drop_last());
        lemma_parent_skips(dir, file.drop_last());
    }
}

/// The manifests of a chain's workspace root, node and runtime give the
/// members `node` and `runtime`: the root manifest is left out and the
/// directories are relative to the root, whatever the root is.
pub proof fn lemma_chain_members(root: Seq<char>)
    ensures
        members_of(
            root,
            seq![root + "/Cargo.toml"@, root + "/node/Cargo.toml"@, root + "/runtime/Cargo.toml"@],
        ) == Ok::<Seq<Seq<char>>, ()>(seq!["node"@, "runtime"@]),
{
    reveal_strlit("/Cargo.toml");
    reveal_strlit("/node/Cargo.toml");
    reveal_strlit("/runtime/Cargo.toml");
    reveal_strlit("node");
    reveal_strlit("runtime");
    reveal_strlit("/");
    reveal_strlit("node/Cargo.toml");
    reveal_strlit("runtime/Cargo.toml");
    let ms = seq![root + "/Cargo.toml"@, root + "/node/Cargo.toml"@, root + "/runtime/Cargo.toml"@];
    assert(root + "/node/Cargo.toml"@ =~= root + "/"@ + "node/Cargo.toml"@);
    assert(root + "/runtime/Cargo.toml"@ =~= root + "/"@ + "runtime/Cargo.toml"@);
    assert("node/Cargo.toml"@ =~= "node"@ + "/Cargo.toml"@);
    assert("runtime/Cargo.toml"@ =~= "runtime"@ + "/Cargo.toml"@);
    lemma_member_dir(root, "node/Cargo.toml"@, "node"@);
    lemma_member_dir(root, "runtime/Cargo.toml"@, "runtime"@);
    let m1 = ms.drop_last().drop_last();
    let m2 = ms.drop_last();
    assert(m1.drop_last() =~= Seq::<Seq<char>>::empty());
    assert(m1.last() == root_manifest(root));
    assert(members_of(root, Seq::<Seq<char>>::empty()) == Ok::<Seq<Seq<char>>, ()>(Seq::empty()));
    assert(members_of(root, m1.drop_last()) == Ok::<Seq<Seq<char>>, ()>(Seq::empty()));
    assert(members_of(root, m1) == Ok::<Seq<Seq<char>>, ()>(Seq::empty()));
    assert(m2.drop_last() == m1);
    assert(m2.last() == root + "/"@ + "node/Cargo.toml"@);
    assert(m2.last() != root_manifest(root)) by {
        assert(m2.last().len() != root_manifest(root).len());
    }
    assert(!Seq::<Seq<char>>::empty().contains("node"@));
    assert(members_of(root, m2) == Ok::<Seq<Seq<char>>, ()>(seq!["node"@]));
    assert(ms.last() == root + "/"@ + "runtime/Cargo.toml"@);
    assert(ms.last() != root_manifest(root)) by {
        assert(ms.last().len() != root_manifest(root).len());
    }
    assert(seq!["node"@].contains("runtime"@) == false) by {
        assert(seq!["node"@][0] != "runtime"@);
    }
    assert(Seq::<Seq<char>>::empty().push("node"@).push("runtime"@) =~= seq!["node"@, "runtime"@]);
    assert(Seq::<Seq<char>>::empty().push("node"@) =~= seq!["node"@]);
}

/// Whether the root manifest can take a member list: it has no `workspace`
/// key yet, or a table-like one.
pub open spec fn workspace_slot_ok(d: DocumentMut) -> bool {
    child_of(root_of(d), "workspace"@) is None || is_table_like(
        child_of(root_of(d), "workspace"@)->0,
    )
}

/// Whether the root manifest can take a release profile setting: it has no
/// `profile` key yet, or a table whose `release` is absent or table-like.
pub open spec fn profile_slot_ok(d: DocumentMut) -> bool {
    let p = child_of(root_of(d), "profile"@);
    p is None || (table_keys_of(p->0) is Some && (child_of(p->0, "release"@) is None
        || is_table_like(child_of(p->0, "release"@)->0)))
}

/// `new` is the root manifest `old` prepared for a workspace with members
/// `members`: `profile.release.panic` is `"abort"`, `workspace.members` lists
/// the members, and everything else of `old` is kept.
pub open spec fn top_level_updated(old: DocumentMut, new: DocumentMut, members: Seq<String>) -> bool {
    &&& doc_str(new, seq!["profile"@, "release"@, "panic"@]) == Some("abort"@)
    &&& doc_array(new, seq!["workspace"@, "members"@]) == Some(
        opt_views(members.map_values(|s: String| Some(s))),
    )
    &&& forall|k: Seq<char>|
        k != "profile"@ && k != "workspace"@ ==> #[trigger] child_of(root_of(new), k) == child_of(
            root_of(old),
            k,
        )
    &&& child_of(root_of(old), "workspace"@) is Some ==> same_except(
        child_of(root_of(new), "workspace"@)->0,
        child_of(root_of(old), "workspace"@)->0,
        "members"@,
    )
    &&& child_of(root_of(old), "profile"@) is Some ==> same_except(
        child_of(root_of(new), "profile"@)->0,
        child_of(root_of(old), "profile"@)->0,
        "release"@,
    )
    &&& doc_item(old, seq!["profile"@, "release"@]) is Some ==> same_except(
        doc_item(new, seq!["profile"@, "release"@])->0,
        doc_item(old, seq!["profile"@, "release"@])->0,
        "panic"@,
    )
}

/// Preparing a root manifest that was already prepared for the same members
/// gives the same settings again and keeps everything else as the first run
/// left it.
pub proof fn lemma_top_level_update_repeats(
    d0: DocumentMut,
    d1: DocumentMut,
    d2: DocumentMut,
    members: Seq<String>,
)
    requires
        top_level_updated(d0, d1, members),
        top_level_updated(d1, d2, members),
    ensures
        doc_str(d2, seq!["profile"@, "release"@, "panic"@]) == doc_str(
            d1,
            seq!["profile"@, "release"@, "panic"@],
        ),
        doc_array(d2, seq!["workspace"@, "members"@]) == doc_array(d1, seq!["workspace"@, "members"@]),
        forall|k: Seq<char>|
            k != "profile"@ && k != "workspace"@ ==> #[trigger] child_of(root_of(d2), k) == child_of(
                root_of(d1),
                k,
            ),
{
}

/// Prepares the root manifest of a workspace: sets `profile.release.panic` to
/// `"abort"`, keeping the rest of `[profile]`, and sets `workspace.members` to
/// `workspace_members`, creating the tables where needed. Fails, changing
/// nothing, where `workspace`, `profile` or `profile.release` has the wrong
/// shape.
pub fn update_top_level_cargo_toml(cargo_toml: &mut DocumentMut, workspace_members: &Vec<String>) -> (r:
    Result<(), ManifestError>)
    ensures
        r is Ok <==> workspace_slot_ok(*old(cargo_toml)) && profile_slot_ok(*old(cargo_toml)),
        r is Err ==> *final(cargo_toml) == *old(cargo_toml),
        r is Ok ==> top_level_updated(*old(cargo_toml), *final(cargo_toml), workspace_members@),
{
    proof {
        reveal_strlit("profile");
        reveal_strlit("workspace");
        reveal_strlit("release");
        reveal_strlit("panic");
        lemma_item_at_two(root_of(*cargo_toml), "profile"@, "release"@);
    }
    let ghost d0 = *cargo_toml;
    let has_workspace = match child_item(root_item(cargo_toml), "workspace") {
        Some(w) => {
            if !item_is_table_like(w) {
                return Err(ManifestError::UnexpectedShape);
            }
            true
        },
        None => false,
    };
    let (has_profile, has_release) = match child_item(root_item(cargo_toml), "profile") {
        Some(p) => {
            if item_table_keys(p).is_none() {
                return Err(ManifestError::UnexpectedShape);
            }
            match child_item(p, "release") {
                Some(rl) => {
                    if !item_is_table_like(rl) {
                        return Err(ManifestError::UnexpectedShape);
                    }
                    (true, true)
                },
                None => (true, false),
            }
        },
        None => (false, false),
    };
    let root = root_item_mut(cargo_toml);
    if !has_workspace {
        insert_child(root, "workspace", new_table());
    }
    let ghost r1 = *root;
    if !has_profile {
        insert_child(root, "profile", new_table());
    }
    let ghost r2 = *root;
    let profile = child_item_mut(root, "profile");
    let ghost p0 = *profile;
    if !has_release {
        insert_child(profile, "release", new_table());
    }
    let ghost p1 = *profile;
    let release = child_item_mut(profile, "release");
    let ghost rl0 = *release;
    set_child_str(release, "panic", "abort");
    let ghost r3 = *root;
    let ws = child_item_mut(root, "workspace");
    set_child_strs(ws, "members", workspace_members);
    proof {
        let pr = "profile"@;
        let wk = "workspace"@;
        assert(pr.len() != wk.len());
        reveal_strlit("panic");
        assert("release"@.len() != "panic"@.len());
        let d = *cargo_toml;
        assert(child_of(root_of(d), pr) == child_of(r3, pr));
        assert(seq![pr, "release"@, "panic"@].drop_first() =~= seq!["release"@, "panic"@]);
        assert(seq!["release"@, "panic"@].drop_first() =~= seq!["panic"@]);
        assert(seq!["panic"@].drop_first() =~= Seq::<Seq<char>>::empty());
        assert(seq![wk, "members"@].drop_first() =~= seq!["members"@]);
        assert(seq!["members"@].drop_first() =~= Seq::<Seq<char>>::empty());
        assert(child_of(r3, wk) == child_of(r2, wk));
        assert(child_of(r2, wk) == child_of(r1, wk));
        let pc = child_of(root_of(d), pr)->0;
        assert(item_at(root_of(d), seq![pr, "release"@, "panic"@]) == item_at(pc, seq!["release"@, "panic"@]));
        lemma_item_at_two(pc, "release"@, "panic"@);
        lemma_item_at_two(root_of(d), wk, "members"@);
        lemma_item_at_two(root_of(d), pr, "release"@);
        if child_of(root_of(d0), wk) is Some {
            assert(child_of(r1, wk) == child_of(root_of(d0), wk));
        }
        if child_of(root_of(d0), pr) is Some {
            assert(child_of(r2, pr) == child_of(root_of(d0), pr));
        }
    }
    Ok(())
}

/// Whether `p` is the path of a path dependency of dependency table `t`.
pub open spec fn path_dep_of(t: Item, p: Seq<char>) -> bool {
    table_keys_of(t) is Some && exists|k: Seq<char>|
        #[trigger] child_of(t, k) is Some && is_table_like(child_of(t, k)->0) && dep_path(
            child_of(t, k)->0,
        ) == Some(p)
}

/// Adds to `out` the path of every path dependency of a dependency table.
fn collect_table_paths(t: &Item, out: &mut Vec<String>)
    ensures
        forall|p: Seq<char>| views(old(out)@).contains(p) ==> views(final(out)@).contains(p),
        forall|p: Seq<char>|
            views(final(out)@).contains(p) ==> views(old(out)@).contains(p) || path_dep_of(*t, p),
        table_keys_of(*t) is Some ==> forall|k: Seq<char>|
            #[trigger] child_of(*t, k) is Some && is_table_like(child_of(*t, k)->0) && dep_path(
                child_of(*t, k)->0,
            ) is Some ==> views(final(out)@).contains(dep_path(child_of(*t, k)->0)->0),
{
    let keys = match item_table_keys(t) {
        Some(keys) => keys,
        None => {
            return;
        },
    };
    let ghost kv = keys@.map_values(|s: String| s@);
    let ghost start = views(out@);
    let mut i: usize = 0;
    while i < keys.len()
        invariant
            i <= keys.len(),
            kv == keys@.map_values(|s: String| s@),
            forall|k: Seq<char>| #[trigger] child_of(*t, k) is Some <==> kv.contains(k),
            forall|p: Seq<char>| start.contains(p) ==> views(out@).contains(p),
            forall|p: Seq<char>| views(out@).contains(p) ==> start.contains(p) || path_dep_of(*t, p),
            table_keys_of(*t) is Some,
            forall|j: int|
                0 <= j < i && #[trigger] child_of(*t, kv[j]) is Some && is_table_like(
                    child_of(*t, kv[j])->0,
                ) && dep_path(child_of(*t, kv[j])->0) is Some ==> views(out@).contains(
                    dep_path(child_of(*t, kv[j])->0)->0,
                ),
        decreases keys.len() - i,
    {
        assert(keys[i as int]@ == kv[i as int]);
        if let Some(d) = child_item(t, keys[i].as_str()) {
            if item_is_table_like(d) {
                if let Some(pi) = child_item(d, "path") {
                    if let Some(p) = item_str(pi) {
                        let ghost before = views(out@);
                        out.push(p);
                        assert(views(out@) =~= before.push(p@));
                        assert(views(out@)[before.len() as int] == p@);
                        assert forall|q: Seq<char>| before.contains(q) implies views(out@).contains(q) by {
                            let j = choose|j: int| 0 <= j < before.len() && before[j] == q;
                            assert(views(out@)[j] == q);
                        }
                        assert(child_of(*t, kv[i as int]) == Some(*d));
                        assert(path_dep_of(*t, p@));
                        assert forall|q: Seq<char>| views(out@).contains(q) implies start.contains(q)
                            || path_dep_of(*t, q) by {
                            let j = choose|j: int| 0 <= j < views(out@).len() && views(out@)[j] == q;
                            if j < before.len() {
                                assert(before[j] == q);
                            }
                        }
                    }
                }
            }
        }
        i = i + 1;
    }
    assert forall|k: Seq<char>|
        #[trigger] child_of(*t, k) is Some && is_table_like(child_of(*t, k)->0) && dep_path(
            child_of(*t, k)->0,
        ) is Some implies views(out@).contains(dep_path(child_of(*t, k)->0)->0) by {
        let j = choose|j: int| 0 <= j < kv.len() && kv[j] == k;
        assert(child_of(*t, kv[j]) is Some);
    }
}

/// The `path` of every path dependency in the tables that the rewrite covers:
/// the paths to resolve before calling `replace_path_dependencies_with_git`.
pub fn path_dependencies(cargo_toml: &DocumentMut) -> (r: Vec<String>)
    ensures
        forall|p: Seq<char>|
            #[trigger] views(r@).contains(p) ==> exists|j: int|
                0 <= j < 4 && #[trigger] doc_item(*cargo_toml, dep_table_paths()[j]) is Some
                    && path_dep_of(doc_item(*cargo_toml, dep_table_paths()[j])->0, p),
        forall|j: int, k: Seq<char>|
            0 <= j < 4 && #[trigger] doc_item(*cargo_toml, dep_table_paths()[j]) is Some
                && table_keys_of(doc_item(*cargo_toml, dep_table_paths()[j])->0) is Some && (
            #[trigger] child_of(doc_item(*cargo_toml, dep_table_paths()[j])->0, k)) is Some
                && is_table_like(child_of(doc_item(*cargo_toml, dep_table_paths()[j])->0, k)->0)
                && dep_path(child_of(doc_item(*cargo_toml, dep_table_paths()[j])->0, k)->0) is Some
                ==> views(r@).contains(
                dep_path(child_of(doc_item(*cargo_toml, dep_table_paths()[j])->0, k)->0)->0,
            ),
{
    let mut out: Vec<String> = Vec::new();
    let root = root_item(cargo_toml);
    let ghost rt = *root;
    let ghost o0 = views(out@);
    assert(o0 =~= Seq::<Seq<char>>::empty());
    let ghost d0 = child_of(rt, "dependencies"@);
    if let Some(t) = child_item(root, "dependencies") {
        collect_table_paths(t, &mut out);
    }
    let ghost o1 = views(out@);
    assert(forall|p: Seq<char>| o1.contains(p) ==> o0.contains(p) || (d0 is Some && path_dep_of(d0->0, p)));
    let ghost d1 = child_of(rt, "build-dependencies"@);
    if let Some(t) = child_item(root, "build-dependencies") {
        collect_table_paths(t, &mut out);
    }
    let ghost o2 = views(out@);
    assert(forall|p: Seq<char>| o2.contains(p) ==> o1.contains(p) || (d1 is Some && path_dep_of(d1->0, p)));
    let ghost d2 = child_of(rt, "dev-dependencies"@);
    if let Some(t) = child_item(root, "dev-dependencies") {
        collect_table_paths(t, &mut out);
    }
    let ghost o3 = views(out@);
    assert(forall|p: Seq<char>| o3.contains(p) ==> o2.contains(p) || (d2 is Some && path_dep_of(d2->0, p)));
    let ghost d3 = match child_of(rt, "workspace"@) {
        Some(w) => child_of(w, "dependencies"@),
        None => None,
    };
    if let Some(w) = child_item(root, "workspace") {
        if let Some(t) = child_item(w, "dependencies") {
            collect_table_paths(t, &mut out);
        }
    }
    assert(forall|p: Seq<char>| views(out@).contains(p) ==> o3.contains(p) || (d3 is Some && path_dep_of(d3->0, p)));
    proof {
        let ps = dep_table_paths();
        lemma_item_at_one(rt, "dependencies"@);
        lemma_item_at_one(rt, "build-dependencies"@);
        lemma_item_at_one(rt, "dev-dependencies"@);
        lemma_item_at_two(rt, "workspace"@, "dependencies"@);
        assert(ps[0] == seq!["dependencies"@] && ps[1] == seq!["build-dependencies"@]);
        assert(ps[2] == seq!["dev-dependencies"@] && ps[3] == seq!["workspace"@, "dependencies"@]);
        assert(doc_item(*cargo_toml, ps[0]) == d0 && doc_item(*cargo_toml, ps[1]) == d1);
        assert(doc_item(*cargo_toml, ps[2]) == d2 && doc_item(*cargo_toml, ps[3]) == d3);
        assert forall|p: Seq<char>| #[trigger] views(out@).contains(p) implies exists|j: int|
            0 <= j < 4 && #[trigger] doc_item(*cargo_toml, dep_table_paths()[j]) is Some
                && path_dep_of(doc_item(*cargo_toml, dep_table_paths()[j])->0, p) by {
            if d3 is Some && path_dep_of(d3->0, p) {
                assert(doc_item(*cargo_toml, dep_table_paths()[3]) is Some);
            } else if d2 is Some && path_dep_of(d2->0, p) {
                assert(doc_item(*cargo_toml, dep_table_paths()[2]) is Some);
            } else if d1 is Some && path_dep_of(d1->0, p) {
                assert(doc_item(*cargo_toml, dep_table_paths()[1]) is Some);
            } else {
                assert(doc_item(*cargo_toml, dep_table_paths()[0]) is Some);
            }
        }
    }
    out
}

} // verus!
