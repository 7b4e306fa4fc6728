//! The identity propagator: renames the node and runtime packages of a new
//! chain and carries the runtime's new name into the manifests that use it.
use vstd::prelude::*;

use crate::manifest::{
    array_set_str, array_strs_of, child_item, child_item_mut, child_of, doc_item, field_set,
    first_table, first_table_of, insert_child, is_table_like, item_array_strs, item_is_table_like,
    item_table_keys, lemma_item_at_two, opt_views, remove_child, root_item, root_item_mut, root_of,
    same_except, set_child_str, set_first_table_str, set_string_field, str_of, table_keys_of,
    ManifestError,
};
use crate::text::{
    chars_of, contains, contains_chars, extend_chars, matches_at, occurs_at, string_of,
};
use crate::util::{snake_case, to_snake_case};
use crate::workspace::in_prefix;
use toml_edit::{DocumentMut, Item};

verus! {

/// `s` from index `i` on, with each occurrence of `from` (taken left to right,
/// without overlap) replaced by `to`, as `str::replace` does.
pub open spec fn replace_from(s: Seq<char>, i: int, from: Seq<char>, to: Seq<char>) -> Seq<char>
    decreases s.len() - i,
{
    if i < 0 || i >= s.len() || from.len() == 0 {
        if 0 <= i <= s.len() {
            s.skip(i)
        } else {
            Seq::empty()
        }
    } else if occurs_at(s, i, from) {
        to + replace_from(s, i + from.len(), from, to)
    } else {
        seq![s[i]] + replace_from(s, i + 1, from, to)
    }
}

pub open spec fn replace_all(s: Seq<char>, from: Seq<char>, to: Seq<char>) -> Seq<char> {
    replace_from(s, 0, from, to)
}

/// Replaces every occurrence of `pattern` in `text` by `new`; an empty
/// `pattern` leaves the text as it is.
pub fn replace_occurrence(text: &str, pattern: &str, new: &str) -> (r: String)
    ensures
        r@ == replace_all(text@, pattern@, new@),
{
    let s = chars_of(text);
    let from = chars_of(pattern);
    let to = chars_of(new);
    let mut out: Vec<char> = Vec::new();
    let mut i: usize = 0;
    if from.len() == 0 {
        assert(s@.skip(0) =~= s@);
        return string_of(&s);
    }
    while i < s.len()
        invariant
            i <= s.len(),
            s@ == text@,
            from@ == pattern@,
            to@ == new@,
            from.len() > 0,
            replace_all(s@, from@, to@) == out@ + replace_from(s@, i as int, from@, to@),
        decreases s.len() - i,
    {
        if matches_at(&s, i, &from) {
            let ghost before = out@;
            extend_chars(&mut out, &to);
            assert(before + replace_from(s@, i as int, from@, to@) =~= out@ + replace_from(
                s@,
                i + from.len(),
                from@,
                to@,
            ));
            i = i + from.len();
        } else {
            let ghost before = out@;
            out.push(s[i]);
            assert(before + replace_from(s@, i as int, from@, to@) =~= out@ + replace_from(
                s@,
                i + 1,
                from@,
                to@,
            ));
            i = i + 1;
        }
    }
    assert(s@.skip(s.len() as int) =~= Seq::<char>::empty());
    assert(out@ + Seq::<char>::empty() =~= out@);
    string_of(&out)
}

/// The package names of a chain called `name`: its node and its runtime.
pub open spec fn node_name(name: Seq<char>) -> Seq<char> {
    name + "-node"@
}

pub open spec fn runtime_name(name: Seq<char>) -> Seq<char> {
    name + "-runtime"@
}

/// The node package's name for a chain called `name`.
pub fn node_package_name(name: &str) -> (r: String)
    ensures
        r@ == node_name(name@),
{
    let mut v = chars_of(name);
    extend_chars(&mut v, &chars_of("-node"));
    string_of(&v)
}

/// The runtime package's name for a chain called `name`.
pub fn runtime_package_name(name: &str) -> (r: String)
    ensures
        r@ == runtime_name(name@),
{
    let mut v = chars_of(name);
    extend_chars(&mut v, &chars_of("-runtime"));
    string_of(&v)
}

/// Sets the declared package name of a manifest.
pub fn set_package_name(doc: &mut DocumentMut, name: &str) -> (r: Result<(), ManifestError>)
    ensures
        r is Ok <==> (child_of(root_of(*old(doc)), "package"@) is Some && is_table_like(
            child_of(root_of(*old(doc)), "package"@)->0,
        )),
        r is Err ==> *final(doc) == *old(doc),
        r is Ok ==> field_set(*old(doc), *final(doc), "package"@, "name"@, name@),
        r is Ok ==> doc_item(*final(doc), seq!["package"@, "name"@]) is Some && str_of(
            doc_item(*final(doc), seq!["package"@, "name"@])->0,
        ) == Some(name@),
{
    let r = set_string_field(doc, "package", "name", name);
    proof {
        lemma_item_at_two(root_of(*doc), "package"@, "name"@);
    }
    r
}

/// Moves the entry `old_key` of a table item to the key `new_key`, keeping
/// its declaration as it is.
fn rename_entry(t: &mut Item, old_key: &str, new_key: &str) -> (r: Result<(), ManifestError>)
    requires
        table_keys_of(*old(t)) is Some,
    ensures
        r is Ok <==> child_of(*old(t), old_key@) is Some,
        r is Err ==> *final(t) == *old(t),
        r is Ok ==> child_of(*final(t), new_key@) == child_of(*old(t), old_key@),
        r is Ok && old_key@ != new_key@ ==> child_of(*final(t), old_key@) is None,
        r is Ok ==> forall|k: Seq<char>|
            k != old_key@ && k != new_key@ ==> #[trigger] child_of(*final(t), k) == child_of(*old(t), k),
{
    if child_item(t, old_key).is_none() {
        return Err(ManifestError::MissingKey);
    }
    match remove_child(t, old_key) {
        Some(item) => {
            insert_child(t, new_key, item);
            Ok(())
        },
        None => Err(ManifestError::MissingKey),
    }
}

/// Renames the dependency `old_name` of a manifest's `[dependencies]` to
/// `new_name`, keeping its declaration.
pub fn rename_dependency(doc: &mut DocumentMut, old_name: &str, new_name: &str) -> (r: Result<
    (),
    ManifestError,
>)
    ensures
        r is Ok <==> (child_of(root_of(*old(doc)), "dependencies"@) is Some && table_keys_of(
            child_of(root_of(*old(doc)), "dependencies"@)->0,
        ) is Some && child_of(child_of(root_of(*old(doc)), "dependencies"@)->0, old_name@) is Some),
        r is Err ==> *final(doc) == *old(doc),
        r is Ok ==> same_except(root_of(*final(doc)), root_of(*old(doc)), "dependencies"@),
        r is Ok ==> child_of(root_of(*final(doc)), "dependencies"@) is Some,
        r is Ok ==> child_of(child_of(root_of(*final(doc)), "dependencies"@)->0, new_name@)
            == child_of(child_of(root_of(*old(doc)), "dependencies"@)->0, old_name@),
        r is Ok && old_name@ != new_name@ ==> child_of(
            child_of(root_of(*final(doc)), "dependencies"@)->0,
            old_name@,
        ) is None,
        r is Ok ==> forall|k: Seq<char>|
            k != old_name@ && k != new_name@ ==> #[trigger] child_of(
                child_of(root_of(*final(doc)), "dependencies"@)->0,
                k,
            ) == child_of(child_of(root_of(*old(doc)), "dependencies"@)->0, k),
{
    let ok = match child_item(root_item(doc), "dependencies") {
        Some(t) => item_table_keys(t).is_some() && child_item(t, old_name).is_some(),
        None => false,
    };
    if !ok {
        return Err(ManifestError::MissingKey);
    }
    let root = root_item_mut(doc);
    let t = child_item_mut(root, "dependencies");
    let r = rename_entry(t, old_name, new_name);
    r
}

/// The entry `name` of a document's `[workspace.dependencies]` table.
pub open spec fn workspace_dep(d: DocumentMut, name: Seq<char>) -> Option<Item> {
    match doc_item(d, seq!["workspace"@, "dependencies"@]) {
        Some(t) => if table_keys_of(t) is Some {
            child_of(t, name)
        } else {
            None
        },
        None => None,
    }
}

/// `new` is `old` with the `[workspace.dependencies]` entry `old_name` moved
/// to `new_name` and turned from a pinned git dependency into a local one at
/// `path`; nothing else of the document changes.
pub open spec fn workspace_dep_relinked(
    old: DocumentMut,
    new: DocumentMut,
    old_name: Seq<char>,
    new_name: Seq<char>,
    path: Seq<char>,
) -> bool {
    let old_t = doc_item(old, seq!["workspace"@, "dependencies"@])->0;
    let new_t = doc_item(new, seq!["workspace"@, "dependencies"@])->0;
    let old_dep = child_of(old_t, old_name)->0;
    let new_dep = child_of(new_t, new_name)->0;
    &&& doc_item(old, seq!["workspace"@, "dependencies"@]) is Some
    &&& doc_item(new, seq!["workspace"@, "dependencies"@]) is Some
    &&& child_of(new_t, new_name) is Some
    &&& old_name != new_name ==> child_of(new_t, old_name) is None
    &&& forall|k: Seq<char>|
        k != old_name && k != new_name ==> #[trigger] child_of(new_t, k) == child_of(old_t, k)
    &&& child_of(new_dep, "git"@) is None
    &&& child_of(new_dep, "rev"@) is None
    &&& child_of(new_dep, "path"@) is Some
    &&& str_of(child_of(new_dep, "path"@)->0) == Some(path)
    &&& forall|k: Seq<char>|
        k != "git"@ && k != "rev"@ && k != "path"@ ==> #[trigger] child_of(new_dep, k) == child_of(
            old_dep,
            k,
        )
    &&& same_except(root_of(new), root_of(old), "workspace"@)
    &&& same_except(
        child_of(root_of(new), "workspace"@)->0,
        child_of(root_of(old), "workspace"@)->0,
        "dependencies"@,
    )
}

/// Moves the runtime's entry of the root manifest's
/// `[workspace.dependencies]` from `old_name` to `new_name`, turning it from a
/// pinned git dependency into a local one at `runtime_path`. Returns whether
/// there was such an entry; without one nothing changes.
pub fn relink_workspace_dependency(
    root_doc: &mut DocumentMut,
    old_name: &str,
    new_name: &str,
    runtime_path: &str,
) -> (r: Result<bool, ManifestError>)
    ensures
        r == Ok::<bool, ManifestError>(false) ==> *final(root_doc) == *old(root_doc),
        r is Err ==> *final(root_doc) == *old(root_doc),
        r == Ok::<bool, ManifestError>(false) <==> workspace_dep(*old(root_doc), old_name@) is None,
        r is Err <==> (workspace_dep(*old(root_doc), old_name@) is Some && !is_table_like(
            workspace_dep(*old(root_doc), old_name@)->0,
        )),
        r == Ok::<bool, ManifestError>(true) ==> workspace_dep_relinked(
            *old(root_doc),
            *final(root_doc),
            old_name@,
            new_name@,
            runtime_path@,
        ),
{
    proof {
        lemma_item_at_two(root_of(*root_doc), "workspace"@, "dependencies"@);
        reveal_strlit("git");
        reveal_strlit("rev");
        reveal_strlit("path");
    }
    let found = match child_item(root_item(root_doc), "workspace") {
        Some(w) => match child_item(w, "dependencies") {
            Some(t) => item_table_keys(t).is_some() && match child_item(t, old_name) {
                Some(d) => {
                    if !item_is_table_like(d) {
                        return Err(ManifestError::UnexpectedShape);
                    }
                    true
                },
                None => false,
            },
            None => false,
        },
        None => false,
    };
    if !found {
        return Ok(false);
    }
    let ghost root0 = *root_doc;
    let root = root_item_mut(root_doc);
    let w = child_item_mut(root, "workspace");
    let t = child_item_mut(w, "dependencies");
    let ghost t0 = *t;
    let mut dep = match remove_child(t, old_name) {
        Some(d) => d,
        None => {
            return Err(ManifestError::MissingKey);
        },
    };
    let ghost d0 = dep;
    if child_item(&dep, "git").is_some() {
        let _ = remove_child(&mut dep, "git");
    }
    let ghost d1 = dep;
    if child_item(&dep, "rev").is_some() {
        let _ = remove_child(&mut dep, "rev");
    }
    let ghost d2 = dep;
    set_child_str(&mut dep, "path", runtime_path);
    let ghost d3 = dep;
    insert_child(t, new_name, dep);
    proof {
        assert("git"@.len() != "path"@.len() && "rev"@.len() != "path"@.len());
        assert("git"@[0] != "rev"@[0]);
        assert(child_of(d3, "git"@) == child_of(d2, "git"@));
        assert(child_of(d2, "git"@) == child_of(d1, "git"@));
        assert(child_of(d3, "rev"@) == child_of(d2, "rev"@));
        assert forall|k: Seq<char>|
            k != "git"@ && k != "rev"@ && k != "path"@ implies #[trigger] child_of(d3, k) == child_of(
            d0,
            k,
        ) by {
            assert(child_of(d3, k) == child_of(d2, k));
            assert(child_of(d2, k) == child_of(d1, k));
        }
        lemma_item_at_two(root_of(*root_doc), "workspace"@, "dependencies"@);
        lemma_item_at_two(root_of(root0), "workspace"@, "dependencies"@);
    }
    Ok(true)
}

/// A feature entry after the rename: the old package name replaced by the
/// new one wherever the entry mentions it.
pub open spec fn renamed_elem(e: Option<Seq<char>>, old: Seq<char>, new: Seq<char>) -> Option<
    Seq<char>,
> {
    match e {
        Some(s) => if contains(s, old) {
            Some(replace_all(s, old, new))
        } else {
            Some(s)
        },
        None => None,
    }
}

pub open spec fn renamed_array(
    a: Seq<Option<Seq<char>>>,
    old: Seq<char>,
    new: Seq<char>,
) -> Seq<Option<Seq<char>>> {
    a.map_values(|e: Option<Seq<char>>| renamed_elem(e, old, new))
}

fn rename_in_array(arr: &mut Item, old_name: &str, new_name: &str)
    requires
        array_strs_of(*old(arr)) is Some,
    ensures
        array_strs_of(*final(arr)) == Some(
            renamed_array(array_strs_of(*old(arr))->0, old_name@, new_name@),
        ),
{
    let ghost a0 = array_strs_of(*arr)->0;
    let elems = match item_array_strs(arr) {
        Some(e) => e,
        None => {
            return;
        },
    };
    let old_chars = chars_of(old_name);
    let mut idx: usize = 0;
    assert(a0.skip(0) =~= a0);
    assert(renamed_array(a0, old_name@, new_name@).take(0) + a0.skip(0) =~= a0);
    while idx < elems.len()
        invariant
            idx <= elems.len(),
            opt_views(elems@) == a0,
            old_chars@ == old_name@,
            array_strs_of(*arr) == Some(
                renamed_array(a0, old_name@, new_name@).take(idx as int) + a0.skip(idx as int),
            ),
        decreases elems.len() - idx,
    {
        let ghost cur = array_strs_of(*arr)->0;
        match &elems[idx] {
            Some(s) => {
                if contains_chars(&chars_of(s.as_str()), &old_chars) {
                    let replaced = replace_occurrence(s.as_str(), old_name, new_name);
                    array_set_str(arr, idx, replaced.as_str());
                }
            },
            None => {},
        }
        assert(array_strs_of(*arr)->0 =~= renamed_array(a0, old_name@, new_name@).take(idx + 1)
            + a0.skip(idx + 1));
        idx = idx + 1;
    }
    assert(renamed_array(a0, old_name@, new_name@).take(elems.len() as int) + a0.skip(
        elems.len() as int,
    ) =~= renamed_array(a0, old_name@, new_name@));
}

/// One feature after the rename: an array has each entry renamed, anything
/// else stays.
pub open spec fn feature_renamed(
    old: Option<Item>,
    new: Option<Item>,
    old_name: Seq<char>,
    new_name: Seq<char>,
) -> bool {
    match old {
        Some(c) => if array_strs_of(c) is Some {
            new is Some && array_strs_of(new->0) == Some(
                renamed_array(array_strs_of(c)->0, old_name, new_name),
            )
        } else {
            new == old
        },
        None => new is None,
    }
}

/// Carries a package rename into every feature of a manifest's `[features]`
/// table: each entry that mentions `old_name` has it replaced by `new_name`.
pub fn rename_in_features(doc: &mut DocumentMut, old_name: &str, new_name: &str) -> (r: Result<
    (),
    ManifestError,
>)
    ensures
        r is Ok <==> (child_of(root_of(*old(doc)), "features"@) is Some && table_keys_of(
            child_of(root_of(*old(doc)), "features"@)->0,
        ) is Some),
        r is Err ==> *final(doc) == *old(doc),
        r is Ok ==> same_except(root_of(*final(doc)), root_of(*old(doc)), "features"@),
        r is Ok ==> child_of(root_of(*final(doc)), "features"@) is Some,
        r is Ok ==> forall|k: Seq<char>|
            feature_renamed(
                #[trigger] child_of(child_of(root_of(*old(doc)), "features"@)->0, k),
                child_of(child_of(root_of(*final(doc)), "features"@)->0, k),
                old_name@,
                new_name@,
            ),
{
    let keys = match child_item(root_item(doc), "features") {
        Some(t) => match item_table_keys(t) {
            Some(keys) => keys,
            None => {
                return Err(ManifestError::UnexpectedShape);
            },
        },
        None => {
            return Err(ManifestError::MissingKey);
        },
    };
    let root = root_item_mut(doc);
    let t = child_item_mut(root, "features");
    let ghost t0 = *t;
    let ghost kv = keys@.map_values(|s: String| s@);
    let mut i: usize = 0;
    while i < keys.len()
        invariant
            i <= keys.len(),
            kv == keys@.map_values(|s: String| s@),
            forall|k: Seq<char>| #[trigger] child_of(t0, k) is Some <==> kv.contains(k),
            forall|k: Seq<char>| #[trigger] in_prefix(kv, i as int, k) ==> feature_renamed(
                child_of(t0, k),
                child_of(*t, k),
                old_name@,
                new_name@,
            ),
            forall|k: Seq<char>| !in_prefix(kv, i as int, k) ==> #[trigger] child_of(*t, k) == child_of(t0, k),
        decreases keys.len() - i,
    {
        let ghost key = kv[i as int];
        assert(keys[i as int]@ == key);
        let is_array = match child_item(t, keys[i].as_str()) {
            Some(c) => item_array_strs(c).is_some(),
            None => false,
        };
        let fresh = !in_prefix_exec(&keys, i, keys[i].as_str());
        if is_array && fresh {
            let c = child_item_mut(t, keys[i].as_str());
            rename_in_array(c, old_name, new_name);
        }
        assert forall|k: Seq<char>| #[trigger] in_prefix(kv, i + 1, k) <==> (in_prefix(kv, i as int, k) || k == key) by {
            if in_prefix(kv, i + 1, k) && k != key {
                let j = choose|j: int| 0 <= j < i + 1 && #[trigger] kv[j] == k;
                assert(j < i);
            }
            if k == key {
                assert(kv[i as int] == k);
            }
        }
        i = i + 1;
    }
    assert forall|k: Seq<char>|
        feature_renamed(#[trigger] child_of(t0, k), child_of(*t, k), old_name@, new_name@) by {
        if child_of(t0, k) is Some {
            let j = choose|j: int| 0 <= j < kv.len() && kv[j] == k;
            assert(in_prefix(kv, kv.len() as int, k));
        }
    }
    Ok(())
}

/// Whether `k` is among the first `n` keys.
fn in_prefix_exec(keys: &Vec<String>, n: usize, k: &str) -> (r: bool)
    requires
        n <= keys.len(),
    ensures
        r == in_prefix(keys@.map_values(|s: String| s@), n as int, k@),
{
    let ghost kv = keys@.map_values(|s: String| s@);
    let mut j: usize = 0;
    while j < n
        invariant
            j <= n <= keys.len(),
            kv == keys@.map_values(|s: String| s@),
            forall|q: int| 0 <= q < j ==> kv[q] != k@,
        decreases n - j,
    {
        if crate::text::str_eq(keys[j].as_str(), k) {
            assert(kv[j as int] == k@);
            return true;
        }
        j = j + 1;
    }
    false
}

/// A manifest whose `bin` key holds no table-like first binary target.
pub open spec fn bin_unnamable(d: DocumentMut) -> bool {
    child_of(root_of(d), "bin"@) is Some && !(first_table_of(child_of(root_of(d), "bin"@)->0) is Some
        && is_table_like(first_table_of(child_of(root_of(d), "bin"@)->0)->0))
}

/// The first binary target of a manifest is named `name`.
pub open spec fn bin_named(d: DocumentMut, name: Seq<char>) -> bool {
    let b = child_of(root_of(d), "bin"@);
    &&& b is Some
    &&& first_table_of(b->0) is Some
    &&& child_of(first_table_of(b->0)->0, "name"@) is Some
    &&& str_of(child_of(first_table_of(b->0)->0, "name"@)->0) == Some(name)
}

/// Names the first binary target of a manifest, if it declares binary
/// targets; returns whether it did.
pub fn set_bin_name(doc: &mut DocumentMut, name: &str) -> (r: Result<bool, ManifestError>)
    ensures
        r == Ok::<bool, ManifestError>(false) <==> child_of(root_of(*old(doc)), "bin"@) is None,
        r is Err <==> bin_unnamable(*old(doc)),
        r is Ok ==> same_except(root_of(*final(doc)), root_of(*old(doc)), "bin"@),
        r is Err || r == Ok::<bool, ManifestError>(false) ==> *final(doc) == *old(doc),
        r == Ok::<bool, ManifestError>(true) ==> bin_named(*final(doc), name@),
{
    let ok = match child_item(root_item(doc), "bin") {
        Some(b) => match first_table(b) {
            Some(t) => item_is_table_like(t),
            None => false,
        },
        None => {
            return Ok(false);
        },
    };
    if !ok {
        return Err(ManifestError::UnexpectedShape);
    }
    let root = root_item_mut(doc);
    let b = child_item_mut(root, "bin");
    set_first_table_str(b, "name", name);
    Ok(true)
}

/// The texts whose occurrences in the node's sources are renamed: the
/// runtime's old name and its new name, each in snake_case.
pub fn source_rename_pair(old_runtime_name: &str, name: &str) -> (r: (String, String))
    ensures
        r.0@ == snake_case(old_runtime_name@),
        r.1@ == snake_case(runtime_name(name@)),
{
    let runtime = runtime_package_name(name);
    (to_snake_case(old_runtime_name), to_snake_case(runtime.as_str()))
}

/// Whether the manifests of a new chain have the shape its rename needs.
pub open spec fn chain_rename_ok(
    node: DocumentMut,
    runtime: DocumentMut,
    root: DocumentMut,
    old_runtime_name: Seq<char>,
) -> bool {
    let package = child_of(root_of(node), "package"@);
    let deps = child_of(root_of(node), "dependencies"@);
    let features = child_of(root_of(node), "features"@);
    let runtime_package = child_of(root_of(runtime), "package"@);
    &&& package is Some && is_table_like(package->0)
    &&& !bin_unnamable(node)
    &&& deps is Some && table_keys_of(deps->0) is Some && child_of(deps->0, old_runtime_name) is Some
    &&& !(workspace_dep(root, old_runtime_name) is Some && !is_table_like(
        workspace_dep(root, old_runtime_name)->0,
    ))
    &&& features is Some && table_keys_of(features->0) is Some
    &&& runtime_package is Some && is_table_like(runtime_package->0)
}

/// Gives a new chain called `name` its identity: the node package becomes
/// `<name>-node` (and so does its first binary target), the runtime package
/// `<name>-runtime`, and the node's dependency on the runtime, its features
/// and the root manifest's workspace dependency follow the runtime's new name.
/// Returns whether the root manifest changed.
pub fn propagate_chain_name(
    node_doc: &mut DocumentMut,
    runtime_doc: &mut DocumentMut,
    root_doc: &mut DocumentMut,
    name: &str,
    old_runtime_name: &str,
) -> (r: Result<bool, ManifestError>)
    ensures
        r is Ok <==> chain_rename_ok(*old(node_doc), *old(runtime_doc), *old(root_doc), old_runtime_name@),
        r is Ok ==> doc_item(*final(node_doc), seq!["package"@, "name"@]) is Some && str_of(
            doc_item(*final(node_doc), seq!["package"@, "name"@])->0,
        ) == Some(node_name(name@)),
        r is Ok ==> doc_item(*final(runtime_doc), seq!["package"@, "name"@]) is Some && str_of(
            doc_item(*final(runtime_doc), seq!["package"@, "name"@])->0,
        ) == Some(runtime_name(name@)),
        r is Ok ==> child_of(root_of(*final(node_doc)), "dependencies"@) is Some && child_of(
            child_of(root_of(*final(node_doc)), "dependencies"@)->0,
            runtime_name(name@),
        ) == child_of(
            child_of(root_of(*old(node_doc)), "dependencies"@)->0,
            old_runtime_name@,
        ),
        r is Ok ==> forall|k: Seq<char>|
            feature_renamed(
                #[trigger] child_of(child_of(root_of(*old(node_doc)), "features"@)->0, k),
                child_of(child_of(root_of(*final(node_doc)), "features"@)->0, k),
                old_runtime_name@,
                runtime_name(name@),
            ),
        r is Ok ==> child_of(root_of(*final(node_doc)), "package"@) is Some && same_except(
            child_of(root_of(*final(node_doc)), "package"@)->0,
            child_of(root_of(*old(node_doc)), "package"@)->0,
            "name"@,
        ),
        r is Ok ==> field_set(
            *old(runtime_doc),
            *final(runtime_doc),
            "package"@,
            "name"@,
            runtime_name(name@),
        ),
        r is Ok && child_of(root_of(*old(node_doc)), "bin"@) is Some ==> bin_named(
            *final(node_doc),
            node_name(name@),
        ),
        r is Ok && child_of(root_of(*old(node_doc)), "bin"@) is None ==> child_of(
            root_of(*final(node_doc)),
            "bin"@,
        ) is None,
        r is Ok && old_runtime_name@ != runtime_name(name@) ==> child_of(
            child_of(root_of(*final(node_doc)), "dependencies"@)->0,
            old_runtime_name@,
        ) is None,
        r is Ok ==> forall|k: Seq<char>|
            k != old_runtime_name@ && k != runtime_name(name@) ==> #[trigger] child_of(
                child_of(root_of(*final(node_doc)), "dependencies"@)->0,
                k,
            ) == child_of(child_of(root_of(*old(node_doc)), "dependencies"@)->0, k),
        r is Ok ==> forall|k: Seq<char>|
            k != "package"@ && k != "bin"@ && k != "dependencies"@ && k != "features"@
                ==> #[trigger] child_of(root_of(*final(node_doc)), k) == child_of(
                root_of(*old(node_doc)),
                k,
            ),
        r is Ok ==> child_of(root_of(*final(node_doc)), "features"@) is Some,
        r == Ok::<bool, ManifestError>(false) ==> *final(root_doc) == *old(root_doc),
        r == Ok::<bool, ManifestError>(false) <==> (r is Ok && workspace_dep(
            *old(root_doc),
            old_runtime_name@,
        ) is None),
        r == Ok::<bool, ManifestError>(true) ==> workspace_dep_relinked(
            *old(root_doc),
            *final(root_doc),
            old_runtime_name@,
            runtime_name(name@),
            "runtime"@,
        ),
{
    proof {
        reveal_strlit("package");
        reveal_strlit("dependencies");
        reveal_strlit("features");
        reveal_strlit("bin");
        assert("package"@.len() != "dependencies"@.len() && "package"@.len() != "features"@.len());
        assert("dependencies"@.len() != "features"@.len() && "bin"@.len() != "package"@.len());
        assert("bin"@.len() != "dependencies"@.len() && "bin"@.len() != "features"@.len());
    }
    let node = node_package_name(name);
    let runtime = runtime_package_name(name);
    set_package_name(node_doc, node.as_str())?;
    let ghost n1 = *node_doc;
    set_bin_name(node_doc, node.as_str())?;
    let ghost n2 = *node_doc;
    rename_dependency(node_doc, old_runtime_name, runtime.as_str())?;
    let ghost n3 = *node_doc;
    let changed = relink_workspace_dependency(
        root_doc,
        old_runtime_name,
        runtime.as_str(),
        "runtime",
    )?;
    rename_in_features(node_doc, old_runtime_name, runtime.as_str())?;
    set_package_name(runtime_doc, runtime.as_str())?;
    proof {
        let nd = *node_doc;
        lemma_item_at_two(root_of(n1), "package"@, "name"@);
        lemma_item_at_two(root_of(nd), "package"@, "name"@);
        assert(child_of(root_of(nd), "package"@) == child_of(root_of(n3), "package"@));
        assert(child_of(root_of(n3), "package"@) == child_of(root_of(n2), "package"@));
        assert(child_of(root_of(n2), "package"@) == child_of(root_of(n1), "package"@));
        assert(child_of(root_of(nd), "dependencies"@) == child_of(root_of(n3), "dependencies"@));
        assert(child_of(root_of(n2), "features"@) == child_of(root_of(n1), "features"@));
        assert(child_of(root_of(n3), "features"@) == child_of(root_of(n2), "features"@));
    }
    Ok(changed)
}

} // verus!
