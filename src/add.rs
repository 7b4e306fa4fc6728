//! Adding a pallet to a runtime: its `std` feature in the runtime manifest.
use vstd::prelude::*;

use crate::manifest::{
    array_push_str, child_item, child_item_mut, child_of, doc_array, item_array_strs,
    lemma_item_at_two, opt_views, root_item, root_item_mut, root_of, same_except, ManifestError,
};
use crate::text::{chars_of, extend_chars, same_chars, string_of};
use toml_edit::DocumentMut;

verus! {

/// Where the crate comes from.
pub enum CrateSource {
    DefaultRegistry,
    Git(String, String),
    Path(String),
    CustomRegistry(String),
}

/// What to add, and to which package.
pub struct AddOptions {
    /// The name of the project's package
    pub package_name: String,
    /// The path of the project's package
    pub package_path: String,
    /// The name of the crate
    pub crate_spec: String,
    /// Feature flags to activate
    pub features: Vec<String>,
    /// Whether the default feature should be activated
    pub default_features: Option<bool>,
    /// Source of the crate
    pub source: CrateSource,
}

/// The feature entry of a crate's `std` feature.
pub open spec fn std_feature(crate_spec: Seq<char>) -> Seq<char> {
    crate_spec + "/std"@
}

/// The `std` feature list after adding `f`: unchanged if it already holds
/// `f`, else `f` appended.
pub open spec fn with_feature(
    arr: Seq<Option<Seq<char>>>,
    f: Seq<char>,
) -> Seq<Option<Seq<char>>> {
    if arr.contains(Some(f)) {
        arr
    } else {
        arr.push(Some(f))
    }
}

pub open spec fn std_path() -> Seq<Seq<char>> {
    seq!["features"@, "std"@]
}

fn holds_feature(arr: &Vec<Option<String>>, f: &Vec<char>) -> (r: bool)
    ensures
        r == opt_views(arr@).contains(Some(f@)),
{
    let mut i: usize = 0;
    while i < arr.len()
        invariant
            i <= arr.len(),
            forall|j: int| 0 <= j < i ==> opt_views(arr@)[j] != Some(f@),
        decreases arr.len() - i,
    {
        if let Some(s) = &arr[i] {
            if same_chars(&chars_of(s.as_str()), f) {
                assert(opt_views(arr@)[i as int] == Some(f@));
                return true;
            }
        }
        i = i + 1;
    }
    assert forall|j: int| 0 <= j < opt_views(arr@).len() implies opt_views(arr@)[j] != Some(f@) by {}
    false
}

/// Adds `<crate_spec>/std` to the `std` feature of a runtime manifest unless it
/// is there already. Fails, changing nothing, where `features.std` is not an
/// array.
pub fn add_pallet_std_to_manifest(runtime_document: &mut DocumentMut, crate_spec: &str) -> (r:
    Result<(), ManifestError>)
    ensures
        r is Ok <==> doc_array(*old(runtime_document), std_path()) is Some,
        r is Err ==> *final(runtime_document) == *old(runtime_document),
        r is Ok ==> doc_array(*final(runtime_document), std_path()) == Some(
            with_feature(doc_array(*old(runtime_document), std_path())->0, std_feature(crate_spec@)),
        ),
        r is Ok ==> same_except(
            root_of(*final(runtime_document)),
            root_of(*old(runtime_document)),
            "features"@,
        ),
        r is Ok ==> same_except(
            child_of(root_of(*final(runtime_document)), "features"@)->0,
            child_of(root_of(*old(runtime_document)), "features"@)->0,
            "std"@,
        ),
{
    let mut feature = chars_of(crate_spec);
    extend_chars(&mut feature, &chars_of("/std"));
    let ghost d0 = *runtime_document;
    proof {
        lemma_item_at_two(root_of(d0), "features"@, "std"@);
    }
    let arr = match child_item(root_item(runtime_document), "features") {
        Some(fs) => match child_item(fs, "std") {
            Some(a) => item_array_strs(a),
            None => None,
        },
        None => None,
    };
    let arr = match arr {
        Some(arr) => arr,
        None => {
            return Err(ManifestError::UnexpectedShape);
        },
    };
    if !holds_feature(&arr, &feature) {
        let f = string_of(&feature);
        let root = root_item_mut(runtime_document);
        let fs = child_item_mut(root, "features");
        let a = child_item_mut(fs, "std");
        array_push_str(a, f.as_str());
        proof {
            lemma_item_at_two(root_of(*runtime_document), "features"@, "std"@);
        }
    }
    Ok(())
}

} // verus!
