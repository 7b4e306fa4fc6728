//! Creating a project: options, naming, template descriptors and the
//! project descriptor file.
use vstd::prelude::*;

use crate::manifest::{
    child_item, child_of, empty_document, item_str, root_item, root_item_mut, root_of,
    set_child_str, str_of,
};
use crate::text::{chars_of, contains, contains_chars, lower_of, lowercase, str_eq, string_of};
use toml_edit::DocumentMut;

verus! {

/// The template a project is created from.
pub enum Template {
    // Chain templates
    Substrate,
    Cumulus,
    Frontier,
    Canvas,
    // Contract templates
    CargoContract,
    // Path to custom template
    Custom(String),
}

pub struct NewOptions {
    pub template: Template,
    /// Absolute path to the directory for the new package
    pub path: String,
    pub name: Option<String>,
}

/// A template's location: the repository, the branch, and the directory in
/// it that holds the template.
pub struct TemplateConfig {
    pub remote: String,
    pub branch: String,
    pub template_path: String,
}

#[derive(Debug, PartialEq, Eq, Structural)]
pub enum NewError {
    /// No package name can be taken from the path.
    NoFileName,
    /// The path has no parent directory.
    NoParent,
    /// The path holds characters that cannot stand in `PATH`.
    InvalidPathCharacters,
    /// No template has this name.
    UnknownTemplate,
    /// A template descriptor lacks one of its fields.
    IncompleteTemplate,
}

/// What `Path::file_name` gives for a path, as a string.
pub uninterp spec fn file_name_of(p: Seq<char>) -> Option<Seq<char>>;

/// Relies on `Path::file_name`: the last component of a path, none where the
/// path ends in `..` or is a root.
#[verifier::external_body]
fn path_file_name(p: &str) -> (r: Option<String>)
    ensures
        match r {
            Some(s) => file_name_of(p@) == Some(s@),
            None => file_name_of(p@) is None,
        },
{
    std::path::Path::new(p).file_name().map(|f| f.to_string_lossy().into_owned())
}

/// What `Path::parent` gives for a path, as a string.
pub uninterp spec fn parent_path_of(p: Seq<char>) -> Option<Seq<char>>;

/// Relies on `Path::parent`: the path without its last component, none for a
/// root or an empty path.
#[verifier::external_body]
fn path_parent(p: &str) -> (r: Option<String>)
    ensures
        match r {
            Some(s) => parent_path_of(p@) == Some(s@),
            None => parent_path_of(p@) is None,
        },
{
    std::path::Path::new(p).parent().map(|f| f.to_string_lossy().into_owned())
}

/// The package name for a new project: the one given, else the last
/// component of its path.
pub fn get_name(opts: &NewOptions) -> (r: Result<String, NewError>)
    ensures
        match opts.name {
            Some(n) => r == Ok::<String, NewError>(n),
            None => match file_name_of(opts.path@) {
                Some(f) => r is Ok && r->Ok_0@ == f,
                None => r == Err::<String, NewError>(NewError::NoFileName),
            },
        },
{
    match &opts.name {
        Some(name) => Ok(name.clone()),
        None => match path_file_name(opts.path.as_str()) {
            Some(f) => Ok(f),
            None => Err(NewError::NoFileName),
        },
    }
}

/// The directory that will hold a new project.
pub fn get_parent(opts: &NewOptions) -> (r: Result<String, NewError>)
    ensures
        match parent_path_of(opts.path@) {
            Some(p) => r is Ok && r->Ok_0@ == p,
            None => r == Err::<String, NewError>(NewError::NoParent),
        },
{
    match path_parent(opts.path.as_str()) {
        Some(p) => Ok(p),
        None => Err(NewError::NoParent),
    }
}

/// Relies on `cargo_util::paths::join_paths`: whether the path can be joined
/// into a `PATH`-style list, which depends on the platform's separator.
#[verifier::external_body]
fn path_joinable(p: &str) -> (r: bool) {
    cargo_util::paths::join_paths(&[p], "").is_ok()
}

/// Checks that a path holds only characters that can stand in `PATH`.
pub fn validate_path(path: &str) -> (r: Result<(), NewError>)
    ensures
        r is Err ==> r == Err::<(), NewError>(NewError::InvalidPathCharacters),
{
    if path_joinable(path) {
        Ok(())
    } else {
        Err(NewError::InvalidPathCharacters)
    }
}

/// Where a top-level file of a fetched template stays in the new project:
/// manifests and formatting configuration stay, anything else goes.
pub open spec fn keeps_top_level_file(name: Seq<char>) -> bool {
    contains(name, "rustfmt.toml"@) || contains(name, "Cargo"@)
}

/// Whether a top-level file of a fetched template stays in the new project.
pub fn keep_top_level_file(file_name: &str) -> (r: bool)
    ensures
        r == keeps_top_level_file(file_name@),
{
    let n = chars_of(file_name);
    contains_chars(&n, &chars_of("rustfmt.toml")) || contains_chars(&n, &chars_of("Cargo"))
}

/// The registry's descriptor file for a lower-case template name.
pub open spec fn registry_file(lower: Seq<char>) -> Option<Seq<char>> {
    if lower == "substrate"@ {
        Some("chain/substrate.toml"@)
    } else if lower == "cumulus"@ {
        Some("chain/cumulus.toml"@)
    } else if lower == "frontier"@ {
        Some("chain/frontier.toml"@)
    } else if lower == "canvas"@ {
        Some("chain/canvas.toml"@)
    } else {
        None
    }
}

/// The descriptor file of a known template, looked up by name in any case.
pub fn template_config_file(template_name: &str) -> (r: Result<String, NewError>)
    ensures
        match registry_file(lower_of(template_name@)) {
            Some(f) => r is Ok && r->Ok_0@ == f,
            None => r == Err::<String, NewError>(NewError::UnknownTemplate),
        },
{
    let lower = lowercase(template_name);
    let l = lower.as_str();
    if str_eq(l, "substrate") {
        Ok(string_of(&chars_of("chain/substrate.toml")))
    } else if str_eq(l, "cumulus") {
        Ok(string_of(&chars_of("chain/cumulus.toml")))
    } else if str_eq(l, "frontier") {
        Ok(string_of(&chars_of("chain/frontier.toml")))
    } else if str_eq(l, "canvas") {
        Ok(string_of(&chars_of("chain/canvas.toml")))
    } else {
        Err(NewError::UnknownTemplate)
    }
}

/// The string under a top-level key of a document.
pub open spec fn top_str(d: DocumentMut, key: Seq<char>) -> Option<Seq<char>> {
    match child_of(root_of(d), key) {
        Some(i) => str_of(i),
        None => None,
    }
}

fn read_top_str(d: &DocumentMut, key: &str) -> (r: Option<String>)
    ensures
        match r {
            Some(s) => top_str(*d, key@) == Some(s@),
            None => top_str(*d, key@) is None,
        },
{
    match child_item(root_item(d), key) {
        Some(i) => item_str(i),
        None => None,
    }
}

/// Reads a template descriptor: its `remote`, `branch` and `template_path`.
pub fn load_template_config(descriptor: &DocumentMut) -> (r: Result<TemplateConfig, NewError>)
    ensures
        match r {
            Ok(c) => top_str(*descriptor, "remote"@) == Some(c.remote@) && top_str(
                *descriptor,
                "branch"@,
            ) == Some(c.branch@) && top_str(*descriptor, "template_path"@) == Some(
                c.template_path@,
            ),
            Err(e) => e == NewError::IncompleteTemplate && (top_str(*descriptor, "remote"@) is None
                || top_str(*descriptor, "branch"@) is None || top_str(
                *descriptor,
                "template_path"@,
            ) is None),
        },
{
    let remote = read_top_str(descriptor, "remote");
    let branch = read_top_str(descriptor, "branch");
    let template_path = read_top_str(descriptor, "template_path");
    match (remote, branch, template_path) {
        (Some(remote), Some(branch), Some(template_path)) => Ok(
            TemplateConfig { remote, branch, template_path },
        ),
        _ => Err(NewError::IncompleteTemplate),
    }
}

/// A project descriptor declaring the project's kind: `type = "<kind>"`.
pub fn project_descriptor(kind: &str) -> (r: DocumentMut)
    ensures
        top_str(r, "type"@) == Some(kind@),
        forall|k: Seq<char>| k != "type"@ ==> #[trigger] child_of(root_of(r), k) is None,
{
    let mut d = empty_document();
    let root = root_item_mut(&mut d);
    set_child_str(root, "type", kind);
    d
}

/// Why a name cannot be a package name.
#[derive(Debug, PartialEq, Eq, Structural)]
pub enum NameError {
    Empty,
    StartsWithDigit,
    /// An ASCII character other than a letter, a digit, `_` or (after the
    /// first) `-`.
    InvalidCharacter,
    Keyword,
    /// The name of one of cargo's build directories.
    ConflictsWithBuildDirectory,
    /// The name of Rust's built-in test library.
    ConflictsWithTestLibrary,
}

/// What is worth a warning about a name that can be used.
#[derive(Debug, PartialEq, Eq, Structural, Clone, Copy)]
pub enum NameWarning {
    /// A crate of Rust's standard library has this name.
    StandardLibraryName,
    /// Windows reserves this file name.
    WindowsReservedName,
    /// The name holds characters outside ASCII.
    NonAsciiName,
}

/// Rust's keywords, strict and reserved.
pub open spec fn keyword_list() -> Seq<Seq<char>> {
    seq![
        "Self"@, "abstract"@, "as"@, "async"@, "await"@, "become"@, "box"@, "break"@, "const"@,
        "continue"@, "crate"@, "do"@, "dyn"@, "else"@, "enum"@, "extern"@, "false"@, "final"@,
        "fn"@, "for"@, "if"@, "impl"@, "in"@, "let"@, "loop"@, "macro"@, "match"@, "mod"@,
        "move"@, "mut"@, "override"@, "priv"@, "pub"@, "ref"@, "return"@, "self"@, "static"@,
        "struct"@, "super"@, "trait"@, "true"@, "try"@, "type"@, "typeof"@, "unsafe"@, "unsized"@,
        "use"@, "virtual"@, "where"@, "while"@, "yield"@,
    ]
}

fn keywords() -> (r: Vec<&'static str>)
    ensures
        r@.map_values(|w: &str| w@) == keyword_list(),
{
    let r = vec![
        "Self", "abstract", "as", "async", "await", "become", "box", "break", "const", "continue",
        "crate", "do", "dyn", "else", "enum", "extern", "false", "final", "fn", "for", "if",
        "impl", "in", "let", "loop", "macro", "match", "mod", "move", "mut", "override", "priv",
        "pub", "ref", "return", "self", "static", "struct", "super", "trait", "true", "try",
        "type", "typeof", "unsafe", "unsized", "use", "virtual", "where", "while", "yield",
    ];
    assert(r@.map_values(|w: &str| w@) =~= keyword_list());
    r
}

/// The directories cargo makes in a build's output.
pub open spec fn build_directory_list() -> Seq<Seq<char>> {
    seq![
        "deps"@, "examples"@, "build"@, "incremental"@,
    ]
}

fn build_directories() -> (r: Vec<&'static str>)
    ensures
        r@.map_values(|w: &str| w@) == build_directory_list(),
{
    let r = vec![
        "deps", "examples", "build", "incremental",
    ];
    assert(r@.map_values(|w: &str| w@) =~= build_directory_list());
    r
}

/// The crates of Rust's standard library.
pub open spec fn std_crate_list() -> Seq<Seq<char>> {
    seq![
        "core"@, "std"@, "alloc"@, "proc_macro"@, "proc-macro"@,
    ]
}

fn std_crates() -> (r: Vec<&'static str>)
    ensures
        r@.map_values(|w: &str| w@) == std_crate_list(),
{
    let r = vec![
        "core", "std", "alloc", "proc_macro", "proc-macro",
    ];
    assert(r@.map_values(|w: &str| w@) =~= std_crate_list());
    r
}

/// File names that Windows reserves, in lower case.
pub open spec fn windows_reserved_list() -> Seq<Seq<char>> {
    seq![
        "con"@, "prn"@, "aux"@, "nul"@, "com1"@, "com2"@, "com3"@, "com4"@, "com5"@, "com6"@,
        "com7"@, "com8"@, "com9"@, "lpt1"@, "lpt2"@, "lpt3"@, "lpt4"@, "lpt5"@, "lpt6"@, "lpt7"@,
        "lpt8"@, "lpt9"@,
    ]
}

fn windows_reserved() -> (r: Vec<&'static str>)
    ensures
        r@.map_values(|w: &str| w@) == windows_reserved_list(),
{
    let r = vec![
        "con", "prn", "aux", "nul", "com1", "com2", "com3", "com4", "com5", "com6", "com7",
        "com8", "com9", "lpt1", "lpt2", "lpt3", "lpt4", "lpt5", "lpt6", "lpt7", "lpt8", "lpt9",
    ];
    assert(r@.map_values(|w: &str| w@) =~= windows_reserved_list());
    r
}


fn is_listed(list: &Vec<&'static str>, name: &Vec<char>) -> (r: bool)
    ensures
        r == list@.map_values(|w: &str| w@).contains(name@),
{
    let ghost lv = list@.map_values(|w: &str| w@);
    let mut i: usize = 0;
    while i < list.len()
        invariant
            i <= list.len(),
            lv == list@.map_values(|w: &str| w@),
            forall|j: int| 0 <= j < i ==> lv[j] != name@,
        decreases list.len() - i,
    {
        if crate::text::same_chars(&chars_of(list[i]), name) {
            assert(lv[i as int] == name@);
            return true;
        }
        i = i + 1;
    }
    false
}

pub open spec fn is_ascii_letter(c: char) -> bool {
    ('a' <= c && c <= 'z') || ('A' <= c && c <= 'Z')
}

pub open spec fn is_ascii_digit(c: char) -> bool {
    '0' <= c && c <= '9'
}

/// An ASCII character that may stand at position `i` of a package name.
pub open spec fn valid_ascii_at(c: char, i: int) -> bool {
    is_ascii_letter(c) || c == '_' || (i > 0 && (is_ascii_digit(c) || c == '-'))
}

/// What checking a package name gives: the first rule it breaks, or the
/// warnings that apply to it, in a fixed order.
pub open spec fn name_check(name: Seq<char>) -> Result<Seq<NameWarning>, NameError> {
    if name.len() == 0 {
        Err(NameError::Empty)
    } else if is_ascii_digit(name[0]) {
        Err(NameError::StartsWithDigit)
    } else if exists|i: int|
        0 <= i < name.len() && name[i] <= '\x7f' && !#[trigger] valid_ascii_at(name[i], i) {
        Err(NameError::InvalidCharacter)
    } else if keyword_list().contains(name) {
        Err(NameError::Keyword)
    } else if build_directory_list().contains(name) {
        Err(NameError::ConflictsWithBuildDirectory)
    } else if name == "test"@ {
        Err(NameError::ConflictsWithTestLibrary)
    } else {
        let w1: Seq<NameWarning> = if std_crate_list().contains(name) {
            seq![NameWarning::StandardLibraryName]
        } else {
            Seq::empty()
        };
        let w2: Seq<NameWarning> = if windows_reserved_list().contains(
            name.map_values(|c: char| crate::util::ascii_lower(c)),
        ) {
            seq![NameWarning::WindowsReservedName]
        } else {
            Seq::empty()
        };
        let w3: Seq<NameWarning> = if exists|i: int| 0 <= i < name.len() && name[i] > '\x7f' {
            seq![NameWarning::NonAsciiName]
        } else {
            Seq::empty()
        };
        Ok(w1 + w2 + w3)
    }
}

fn lower_all(v: &Vec<char>) -> (r: Vec<char>)
    ensures
        r@ == v@.map_values(|c: char| crate::util::ascii_lower(c)),
{
    let mut out: Vec<char> = Vec::new();
    let mut i: usize = 0;
    while i < v.len()
        invariant
            i <= v.len(),
            out@ == v@.take(i as int).map_values(|c: char| crate::util::ascii_lower(c)),
        decreases v.len() - i,
    {
        let c = v[i];
        let l = if 'A' <= c && c <= 'Z' {
            ((c as u8) + 32) as char
        } else {
            c
        };
        out.push(l);
        i = i + 1;
        assert(out@ =~= v@.take(i as int).map_values(|c: char| crate::util::ascii_lower(c)));
    }
    assert(v@.take(v.len() as int) =~= v@);
    out
}

/// Checks that a name can be a package name; returns the warnings worth
/// showing about it.
pub fn validate_name(name: &str) -> (r: Result<Vec<NameWarning>, NameError>)
    ensures
        match r {
            Ok(w) => name_check(name@) == Ok::<Seq<NameWarning>, NameError>(w@),
            Err(e) => name_check(name@) == Err::<Seq<NameWarning>, NameError>(e),
        },
{
    let n = chars_of(name);
    if n.len() == 0 {
        return Err(NameError::Empty);
    }
    if '0' <= n[0] && n[0] <= '9' {
        return Err(NameError::StartsWithDigit);
    }
    let mut i: usize = 0;
    let mut non_ascii = false;
    while i < n.len()
        invariant
            i <= n.len(),
            n@ == name@,
            n.len() > 0,
            !is_ascii_digit(n@[0]),
            forall|j: int| 0 <= j < i ==> !(n@[j] <= '\x7f' && !#[trigger] valid_ascii_at(n@[j], j)),
            non_ascii == exists|j: int| 0 <= j < i && n@[j] > '\x7f',
        decreases n.len() - i,
    {
        let c = n[i];
        if '\x7f' >= c {
            let ok = ('a' <= c && c <= 'z') || ('A' <= c && c <= 'Z') || c == '_' || (i > 0 && (('0'
                <= c && c <= '9') || c == '-'));
            if !ok {
                assert(n@[i as int] <= '\x7f' && !valid_ascii_at(n@[i as int], i as int));
                return Err(NameError::InvalidCharacter);
            }
        } else {
            non_ascii = true;
        }
        i = i + 1;
    }
    if is_listed(&keywords(), &n) {
        return Err(NameError::Keyword);
    }
    if is_listed(&build_directories(), &n) {
        return Err(NameError::ConflictsWithBuildDirectory);
    }
    if crate::text::str_eq(name, "test") {
        return Err(NameError::ConflictsWithTestLibrary);
    }
    let mut warnings: Vec<NameWarning> = Vec::new();
    if is_listed(&std_crates(), &n) {
        warnings.push(NameWarning::StandardLibraryName);
    }
    if is_listed(&windows_reserved(), &lower_all(&n)) {
        warnings.push(NameWarning::WindowsReservedName);
    }
    if non_ascii {
        warnings.push(NameWarning::NonAsciiName);
    }
    proof {
        let w = name_check(name@);
        assert(w is Ok);
        assert(w->Ok_0 =~= warnings@);
    }
    Ok(warnings)
}

} // verus!
