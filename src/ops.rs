//! The command lines handed to outside tools, and the choices offered for them.
use vstd::prelude::*;

use crate::add::{AddOptions, CrateSource};
use crate::text::{chars_of, extend_chars, str_eq, string_of, views};

verus! {

/// What to run the chain node with.
pub struct RunOptions {
    pub chain: String,
}

pub struct DevOptions {
    pub debug: bool,
}

/// The arguments of `cargo` that start the node on a chain specification:
/// `dev` is passed as `--dev`, any other as `--chain <name>`.
pub open spec fn run_args_spec(chain: Seq<char>) -> Seq<Seq<char>> {
    let base = seq!["+nightly"@, "run"@, "--release"@, "--"@];
    if chain == "dev"@ {
        base.push("--dev"@)
    } else {
        base.push("--chain"@).push(chain)
    }
}

fn owned(s: &str) -> (r: String)
    ensures
        r@ == s@,
{
    string_of(&chars_of(s))
}

/// The arguments of `cargo` that start the node.
pub fn run_args(opts: &RunOptions) -> (r: Vec<String>)
    ensures
        views(r@) == run_args_spec(opts.chain@),
{
    let mut args = vec![owned("+nightly"), owned("run"), owned("--release"), owned("--")];
    if str_eq(opts.chain.as_str(), "dev") {
        args.push(owned("--dev"));
    } else {
        args.push(owned("--chain"));
        args.push(opts.chain.clone());
    }
    assert(views(args@) =~= run_args_spec(opts.chain@));
    args
}

/// The items of `v` joined with commas.
pub open spec fn join_commas(v: Seq<Seq<char>>) -> Seq<char>
    decreases v.len(),
{
    if v.len() == 0 {
        Seq::empty()
    } else if v.len() == 1 {
        v[0]
    } else {
        join_commas(v.drop_last()) + ","@ + v.last()
    }
}

fn join_with_commas(v: &Vec<String>) -> (r: String)
    ensures
        r@ == join_commas(views(v@)),
{
    let mut out: Vec<char> = Vec::new();
    let mut i: usize = 0;
    while i < v.len()
        invariant
            i <= v.len(),
            out@ == join_commas(views(v@).take(i as int)),
        decreases v.len() - i,
    {
        let ghost t = views(v@).take(i + 1);
        assert(t.drop_last() =~= views(v@).take(i as int));
        assert(t.last() == v@[i as int]@);
        proof {
            reveal_strlit(",");
        }
        if i > 0 {
            out.push(',');
        }
        extend_chars(&mut out, &chars_of(v[i].as_str()));
        if i == 0 {
            assert(t[0] == v@[0]@);
            assert(out@ =~= join_commas(t));
        } else {
            assert(out@ =~= join_commas(t));
        }
        i = i + 1;
    }
    assert(views(v@).take(v.len() as int) =~= views(v@));
    string_of(&out)
}

/// The arguments that name where a crate comes from.
pub open spec fn source_args(source: CrateSource) -> Seq<Seq<char>> {
    match source {
        CrateSource::DefaultRegistry => Seq::empty(),
        CrateSource::Git(url, branch) => if branch@.len() == 0 {
            seq!["--git"@, url@]
        } else {
            seq!["--git"@, url@, "--branch"@, branch@]
        },
        CrateSource::Path(path) => seq!["--path"@, path@],
        CrateSource::CustomRegistry(registry) => seq!["--registry"@, registry@],
    }
}

/// The arguments of `cargo` that add a pallet crate to a package.
pub open spec fn cargo_add_args_spec(opts: AddOptions) -> Seq<Seq<char>> {
    seq![
        "add"@,
        "-p"@,
        opts.package_name@,
        opts.crate_spec@,
        "--features"@,
        join_commas(views(opts.features@)),
        "--no-default-features"@,
    ] + source_args(opts.source)
}

/// The arguments of `cargo` that add a pallet crate to a package.
pub fn cargo_add_args(opts: &AddOptions) -> (r: Vec<String>)
    ensures
        views(r@) == cargo_add_args_spec(*opts),
{
    let mut args = vec![
        owned("add"),
        owned("-p"),
        opts.package_name.clone(),
        opts.crate_spec.clone(),
        owned("--features"),
        join_with_commas(&opts.features),
        owned("--no-default-features"),
    ];
    let ghost base = views(args@);
    match &opts.source {
        CrateSource::DefaultRegistry => {},
        CrateSource::Git(url, branch) => {
            args.push(owned("--git"));
            args.push(url.clone());
            if !branch.as_str().is_empty() {
                args.push(owned("--branch"));
                args.push(branch.clone());
            }
        },
        CrateSource::Path(path) => {
            args.push(owned("--path"));
            args.push(path.clone());
        },
        CrateSource::CustomRegistry(registry) => {
            args.push(owned("--registry"));
            args.push(registry.clone());
        },
    }
    assert(views(args@) =~= cargo_add_args_spec(*opts));
    args
}

/// Where a pallet is installed from, as the user picks it.
#[derive(Debug, PartialEq, Eq, Structural, Clone, Copy)]
pub enum PalletSource {
    DefaultRegistry,
    Git,
    Path,
    CustomRegistry,
}

/// The name of a pallet source on the command line.
pub open spec fn pallet_source_name(s: PalletSource) -> Seq<char> {
    match s {
        PalletSource::DefaultRegistry => "default-registry"@,
        PalletSource::Git => "git"@,
        PalletSource::Path => "path"@,
        PalletSource::CustomRegistry => "custom-registry"@,
    }
}

impl PalletSource {
    /// The source named on the command line, if the name is one.
    pub fn parse(s: &str) -> (r: Option<PalletSource>)
        ensures
            match r {
                Some(p) => pallet_source_name(p) == s@,
                None => forall|p: PalletSource| pallet_source_name(p) != s@,
            },
    {
        if str_eq(s, "default-registry") {
            Some(PalletSource::DefaultRegistry)
        } else if str_eq(s, "git") {
            Some(PalletSource::Git)
        } else if str_eq(s, "path") {
            Some(PalletSource::Path)
        } else if str_eq(s, "custom-registry") {
            Some(PalletSource::CustomRegistry)
        } else {
            proof {
                assert forall|p: PalletSource| pallet_source_name(p) != s@ by {
                    match p {
                        PalletSource::DefaultRegistry => {},
                        PalletSource::Git => {},
                        PalletSource::Path => {},
                        PalletSource::CustomRegistry => {},
                    }
                }
            }
            None
        }
    }

    /// The name of this source on the command line.
    pub fn name(&self) -> (r: String)
        ensures
            r@ == pallet_source_name(*self),
    {
        match self {
            PalletSource::DefaultRegistry => owned("default-registry"),
            PalletSource::Git => owned("git"),
            PalletSource::Path => owned("path"),
            PalletSource::CustomRegistry => owned("custom-registry"),
        }
    }
}

/// The repository that hosts the standard pallets.
pub open spec fn standard_pallet_repo() -> Seq<char> {
    "https://github.com/paritytech/substrate.git"@
}

/// The default and the placeholder offered for the branch of a pallet's git
/// repository: a release branch for the standard pallets' repository, none
/// (with `master` as the hint) for any other.
pub fn git_branch_defaults(repository: &str) -> (r: (String, String))
    ensures
        repository@ == standard_pallet_repo() ==> r.0@ == "polkadot-v1.0.0"@ && r.1@
            == "polkadot-v1.0.0"@,
        repository@ != standard_pallet_repo() ==> r.0@ == ""@ && r.1@ == "master"@,
{
    if str_eq(repository, "https://github.com/paritytech/substrate.git") {
        (owned("polkadot-v1.0.0"), owned("polkadot-v1.0.0"))
    } else {
        (owned(""), owned("master"))
    }
}

} // verus!
