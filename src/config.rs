//! Project configuration: what kind of project the working directory holds,
//! read from its project descriptor and package manifests.
use vstd::prelude::*;

use crate::manifest::{
    child_item, child_item_mut, child_of, doc_item, insert_child, is_table_like, item_is_table_like,
    item_str, item_table_keys, lemma_item_at_two, new_table, root_item, root_item_mut, root_of,
    same_except, set_child_str, str_of, table_keys_of, ManifestError,
};
use crate::text::{chars_of, extend_chars, str_eq, string_of};
use toml_edit::{DocumentMut, Item};

verus! {

/// A chain project: its node and runtime packages, and its frontend.
pub struct ChainInfo {
    pub node_path: String,
    pub node_name: Option<String>,
    pub runtime_path: String,
    pub runtime_name: Option<String>,
    pub frontend_path: String,
}

/// A smart-contract project, by its package name.
pub struct ContractInfo {
    pub name: String,
}

pub enum ProjectType {
    Chain(ChainInfo),
    Contract(ContractInfo),
}

/// The kind of project a descriptor declares, before its packages are read.
#[derive(Debug, PartialEq, Eq, Structural)]
pub enum ProjectKind {
    Chain,
    Contract,
}

#[derive(Debug, PartialEq, Eq, Structural)]
pub enum ConfigError {
    /// The descriptor's `type` is neither `"chain"` nor `"contract"`.
    IncorrectProjectType,
}

/// The working directory and the project found there.
pub struct Config {
    pub cwd: String,
    pub project_type: Option<ProjectType>,
}

impl Config {
    pub fn new(cwd: String, project_type: Option<ProjectType>) -> (r: Self)
        ensures
            r.cwd == cwd,
            r.project_type == project_type,
    {
        Config { cwd, project_type }
    }

    /// The current working directory.
    pub fn cwd(&self) -> (r: &String)
        ensures
            r == &self.cwd,
    {
        &self.cwd
    }

    /// The project found in the working directory, if any.
    pub fn project_type(&self) -> (r: &Option<ProjectType>)
        ensures
            r == &self.project_type,
    {
        &self.project_type
    }
}

/// A name as shown to the user: the name itself, or `unknown`.
pub open spec fn shown_name(n: Option<String>) -> Seq<char> {
    match n {
        Some(s) => s@,
        None => "unknown"@,
    }
}

/// How a project is described to the user.
pub open spec fn describe_spec(p: ProjectType) -> Seq<char> {
    match p {
        ProjectType::Chain(info) => "Chain: node - "@ + shown_name(info.node_name) + ", runtime - "@
            + shown_name(info.runtime_name),
        ProjectType::Contract(info) => "Contract: "@ + info.name@,
    }
}

fn shown(n: &Option<String>) -> (r: Vec<char>)
    ensures
        r@ == shown_name(*n),
{
    match n {
        Some(s) => chars_of(s.as_str()),
        None => chars_of("unknown"),
    }
}

impl ProjectType {
    /// A one-line description, such as `Chain: node - a, runtime - b`.
    pub fn describe(&self) -> (r: String)
        ensures
            r@ == describe_spec(*self),
    {
        match self {
            ProjectType::Chain(info) => {
                let mut out = chars_of("Chain: node - ");
                extend_chars(&mut out, &shown(&info.node_name));
                extend_chars(&mut out, &chars_of(", runtime - "));
                extend_chars(&mut out, &shown(&info.runtime_name));
                string_of(&out)
            },
            ProjectType::Contract(info) => {
                let mut out = chars_of("Contract: ");
                extend_chars(&mut out, &chars_of(info.name.as_str()));
                string_of(&out)
            },
        }
    }
}

/// The segments of `s` between dots, as `str::split('.')` gives them.
pub open spec fn dot_scan(s: Seq<char>) -> (Seq<Seq<char>>, Seq<char>)
    decreases s.len(),
{
    if s.len() == 0 {
        (Seq::empty(), Seq::empty())
    } else {
        let (done, cur) = dot_scan(s.drop_last());
        if s.last() == '.' {
            (done.push(cur), Seq::empty())
        } else {
            (done, cur.push(s.last()))
        }
    }
}

pub open spec fn dot_segments(s: Seq<char>) -> Seq<Seq<char>> {
    dot_scan(s).0.push(dot_scan(s).1)
}

fn split_dots(s: &str) -> (r: Vec<String>)
    ensures
        r@.map_values(|x: String| x@) == dot_segments(s@),
{
    let input = chars_of(s);
    let mut done: Vec<String> = Vec::new();
    let mut cur: Vec<char> = Vec::new();
    let mut i: usize = 0;
    while i < input.len()
        invariant
            i <= input.len(),
            input@ == s@,
            done@.map_values(|x: String| x@) == dot_scan(input@.take(i as int)).0,
            cur@ == dot_scan(input@.take(i as int)).1,
        decreases input.len() - i,
    {
        assert(input@.take(i + 1).drop_last() =~= input@.take(i as int));
        if input[i] == '.' {
            let ghost before = done@.map_values(|x: String| x@);
            done.push(string_of(&cur));
            assert(done@.map_values(|x: String| x@) =~= before.push(cur@));
            cur = Vec::new();
        } else {
            cur.push(input[i]);
        }
        i = i + 1;
    }
    assert(input@.take(input.len() as int) =~= s@);
    let ghost before = done@.map_values(|x: String| x@);
    done.push(string_of(&cur));
    assert(done@.map_values(|x: String| x@) =~= before.push(cur@));
    done
}

/// The item found by walking the keys of `path` down from `i`: the first item
/// on the way that is not a table, or none where a key is absent or every
/// item on the way is a table.
pub open spec fn find_field(i: Item, path: Seq<Seq<char>>) -> Option<Item>
    decreases path.len(),
{
    if path.len() == 0 {
        None
    } else {
        match child_of(i, path[0]) {
            None => None,
            Some(v) => if table_keys_of(v) is Some {
                find_field(v, path.drop_first())
            } else {
                Some(v)
            },
        }
    }
}

/// Looks up a dotted field path in a table.
pub fn find_field_recursive<'a>(table: &'a Item, field_path: &str) -> (r: Option<&'a Item>)
    ensures
        match r {
            Some(v) => find_field(*table, dot_segments(field_path@)) == Some(*v),
            None => find_field(*table, dot_segments(field_path@)) is None,
        },
{
    let fields = split_dots(field_path);
    let ghost path = dot_segments(field_path@);
    let mut current = table;
    let mut i: usize = 0;
    assert(path.subrange(0, path.len() as int) =~= path);
    while i < fields.len()
        invariant
            i <= fields.len(),
            path == fields@.map_values(|x: String| x@),
            path == dot_segments(field_path@),
            find_field(*table, path) == find_field(*current, path.subrange(i as int, path.len() as int)),
        decreases fields.len() - i,
    {
        let ghost rest = path.subrange(i as int, path.len() as int);
        assert(rest.drop_first() =~= path.subrange(i + 1, path.len() as int));
        assert(rest[0] == fields@[i as int]@);
        assert(rest.len() > 0);
        match child_item(current, fields[i].as_str()) {
            Some(value) => {
                if item_table_keys(value).is_some() {
                    current = value;
                } else {
                    return Some(value);
                }
            },
            None => {
                return None;
            },
        }
        i = i + 1;
    }
    None
}

/// The string at a dotted field path of an optional manifest, or `default`.
pub open spec fn field_or_default(
    manifest: Option<DocumentMut>,
    field_path: Seq<char>,
    default: Seq<char>,
) -> Seq<char> {
    match manifest {
        Some(d) => match find_field(root_of(d), dot_segments(field_path)) {
            Some(v) => match str_of(v) {
                Some(s) => s,
                None => default,
            },
            None => default,
        },
        None => default,
    }
}

/// Reads a string setting from the project descriptor, falling back to
/// `default` where there is no descriptor or no string at `field_path`.
pub fn from_manifest_or_default(manifest: Option<&DocumentMut>, field_path: &str, default: &str) -> (r:
    String)
    ensures
        r@ == field_or_default(
            match manifest {
                Some(d) => Some(*d),
                None => None,
            },
            field_path@,
            default@,
        ),
{
    match manifest {
        Some(doc) => match find_field_recursive(root_item(doc), field_path) {
            Some(v) => match item_str(v) {
                Some(s) => s,
                None => string_of(&chars_of(default)),
            },
            None => string_of(&chars_of(default)),
        },
        None => string_of(&chars_of(default)),
    }
}

/// The declared package name of a manifest: `MissingKey` where there is no
/// `package.name`, `UnexpectedShape` where it is not a string.
pub fn get_package_name(manifest: &DocumentMut) -> (r: Result<String, ManifestError>)
    ensures
        match r {
            Ok(name) => doc_item(*manifest, seq!["package"@, "name"@]) is Some && str_of(
                doc_item(*manifest, seq!["package"@, "name"@])->0,
            ) == Some(name@),
            Err(ManifestError::MissingKey) => doc_item(*manifest, seq!["package"@, "name"@]) is None,
            Err(ManifestError::UnexpectedShape) => doc_item(*manifest, seq!["package"@, "name"@]) is Some
                && str_of(doc_item(*manifest, seq!["package"@, "name"@])->0) is None,
            Err(ManifestError::Parse) => false,
        },
{
    proof {
        lemma_item_at_two(root_of(*manifest), "package"@, "name"@);
    }
    match child_item(root_item(manifest), "package") {
        Some(p) => match child_item(p, "name") {
            Some(n) => match item_str(n) {
                Some(s) => Ok(s),
                None => Err(ManifestError::UnexpectedShape),
            },
            None => Err(ManifestError::MissingKey),
        },
        None => Err(ManifestError::MissingKey),
    }
}

/// The kind a descriptor's `type` names.
pub open spec fn kind_of(t: Option<Seq<char>>) -> Result<ProjectKind, ConfigError> {
    if t == Some("chain"@) {
        Ok(ProjectKind::Chain)
    } else if t == Some("contract"@) {
        Ok(ProjectKind::Contract)
    } else {
        Err(ConfigError::IncorrectProjectType)
    }
}

/// The kind of project a descriptor declares in its `type` key.
pub fn project_kind(descriptor: &DocumentMut) -> (r: Result<ProjectKind, ConfigError>)
    ensures
        r == kind_of(
            match child_of(root_of(*descriptor), "type"@) {
                Some(t) => str_of(t),
                None => None,
            },
        ),
{
    let t = match child_item(root_item(descriptor), "type") {
        Some(t) => item_str(t),
        None => None,
    };
    match t {
        Some(s) => {
            if str_eq(s.as_str(), "chain") {
                Ok(ProjectKind::Chain)
            } else if str_eq(s.as_str(), "contract") {
                Ok(ProjectKind::Contract)
            } else {
                Err(ConfigError::IncorrectProjectType)
            }
        },
        None => Err(ConfigError::IncorrectProjectType),
    }
}

/// The kind of project a directory without a descriptor looks like: a chain
/// where its node or runtime directory exists, else a contract where it has a
/// `lib.rs`, else none.
pub fn deduce_project_kind(chain_dirs_exist: bool, lib_rs_exists: bool) -> (r: Option<ProjectKind>)
    ensures
        r == (if chain_dirs_exist {
            Some(ProjectKind::Chain)
        } else if lib_rs_exists {
            Some(ProjectKind::Contract)
        } else {
            None
        }),
{
    if chain_dirs_exist {
        Some(ProjectKind::Chain)
    } else if lib_rs_exists {
        Some(ProjectKind::Contract)
    } else {
        None
    }
}

/// Records in the project descriptor where one of the project's packages
/// lies: sets `paths.<key>`, creating `[paths]` if needed. Fails, changing
/// nothing, where `paths` is not table-like.
pub fn set_descriptor_path(descriptor: &mut DocumentMut, key: &str, path: &str) -> (r: Result<
    (),
    ManifestError,
>)
    ensures
        r is Ok <==> (child_of(root_of(*old(descriptor)), "paths"@) is None || is_table_like(
            child_of(root_of(*old(descriptor)), "paths"@)->0,
        )),
        r is Err ==> *final(descriptor) == *old(descriptor),
        r is Ok ==> doc_item(*final(descriptor), seq!["paths"@, key@]) is Some && str_of(
            doc_item(*final(descriptor), seq!["paths"@, key@])->0,
        ) == Some(path@),
        r is Ok ==> same_except(root_of(*final(descriptor)), root_of(*old(descriptor)), "paths"@),
        r is Ok && child_of(root_of(*old(descriptor)), "paths"@) is Some ==> same_except(
            child_of(root_of(*final(descriptor)), "paths"@)->0,
            child_of(root_of(*old(descriptor)), "paths"@)->0,
            key@,
        ),
{
    let present = match child_item(root_item(descriptor), "paths") {
        Some(p) => {
            if !item_is_table_like(p) {
                return Err(ManifestError::UnexpectedShape);
            }
            true
        },
        None => false,
    };
    let root = root_item_mut(descriptor);
    if !present {
        insert_child(root, "paths", new_table());
    }
    let ghost r1 = *root;
    let paths = child_item_mut(root, "paths");
    set_child_str(paths, key, path);
    proof {
        lemma_item_at_two(root_of(*descriptor), "paths"@, key@);
    }
    Ok(())
}

} // verus!
