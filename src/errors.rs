//! Error wrappers of the command-line layer, and how an error chain is shown.
use vstd::prelude::*;

use crate::text::{chars_of, lines_of, string_of};
use crate::util::{indent_all, indented_lines};

verus! {

#[verifier::external_type_specification]
#[verifier::external_body]
pub struct ExAnyhowError(anyhow::Error);

/// An error that is only shown with `--verbose`.
pub struct VerboseError {
    pub inner: anyhow::Error,
}

impl VerboseError {
    pub fn new(inner: anyhow::Error) -> (r: VerboseError)
        ensures
            r.inner == inner,
    {
        VerboseError { inner }
    }
}

/// An unexpected, internal error; showing it asks for a bug report.
pub struct InternalError {
    pub inner: anyhow::Error,
}

impl InternalError {
    pub fn new(inner: anyhow::Error) -> (r: InternalError)
        ensures
            r.inner == inner,
    {
        InternalError { inner }
    }
}

/// An error that adds nothing to what was already printed.
pub struct AlreadyPrintedError {
    pub inner: anyhow::Error,
}

impl AlreadyPrintedError {
    pub fn new(inner: anyhow::Error) -> (r: Self)
        ensures
            r.inner == inner,
    {
        AlreadyPrintedError { inner }
    }
}

/// The error of the command-line layer: an optional error and the process
/// exit code.
pub struct CliError {
    pub error: Option<anyhow::Error>,
    pub exit_code: i32,
}

impl CliError {
    pub fn new(error: anyhow::Error, code: i32) -> (r: CliError)
        ensures
            r.error == Some(error),
            r.exit_code == code,
    {
        CliError { error: Some(error), exit_code: code }
    }

    pub fn code(code: i32) -> (r: CliError)
        ensures
            r.error is None,
            r.exit_code == code,
    {
        CliError { error: None, exit_code: code }
    }
}

impl From<anyhow::Error> for CliError {
    fn from(err: anyhow::Error) -> (r: CliError) {
        CliError::new(err, 101)
    }
}

impl vstd::std_specs::convert::FromSpecImpl<anyhow::Error> for CliError {
    open spec fn obeys_from_spec() -> bool {
        true
    }

    open spec fn from_spec(err: anyhow::Error) -> CliError {
        CliError { error: Some(err), exit_code: 101 }
    }
}

/// What kind of error one link of an error chain is.
#[derive(Debug, PartialEq, Eq, Structural, Clone, Copy)]
pub enum LinkKind {
    Verbose,
    AlreadyPrinted,
    Internal,
    Plain,
}

/// One link of an error chain: its kind and its message.
pub struct ChainLink {
    pub kind: LinkKind,
    pub message: String,
}

/// One piece of output for the user.
pub enum Shown {
    /// The top error, shown as an error.
    Error(String),
    /// Text written as it is.
    Text(String),
    /// A note.
    Note(String),
}

/// The tag and text of a piece of output.
pub open spec fn shown_view(s: Shown) -> (int, Seq<char>) {
    match s {
        Shown::Error(t) => (0, t@),
        Shown::Text(t) => (1, t@),
        Shown::Note(t) => (2, t@),
    }
}

pub open spec fn shown_views(v: Seq<Shown>) -> Seq<(int, Seq<char>)> {
    v.map_values(|s: Shown| shown_view(s))
}

/// What showing link `i` onwards prints, and whether it stopped at a link
/// that is only shown in verbose mode.
pub open spec fn show_from(
    chain: Seq<ChainLink>,
    i: int,
    verbose: bool,
    as_err: bool,
) -> (Seq<(int, Seq<char>)>, bool)
    decreases chain.len() - i,
{
    if i < 0 || i >= chain.len() {
        (Seq::empty(), false)
    } else if !verbose && chain[i].kind == LinkKind::Verbose {
        (Seq::empty(), true)
    } else if chain[i].kind == LinkKind::AlreadyPrinted {
        (Seq::empty(), false)
    } else {
        let here: Seq<(int, Seq<char>)> = if i == 0 {
            if as_err {
                seq![(0, chain[i].message@)]
            } else {
                seq![(1, chain[i].message@ + "\n"@)]
            }
        } else {
            seq![(1, "\nCaused by:\n"@), (1, indent_all(lines_of(chain[i].message@)))]
        };
        let (rest, stopped) = show_from(chain, i + 1, verbose, as_err);
        (here + rest, stopped)
    }
}

/// Shows an error chain: the top error, then each cause indented under
/// `Caused by:`, stopping before a verbose-only link (unless `verbose`) or an
/// already printed one. Also says whether it stopped at a verbose-only link.
pub fn _display_error(chain: &Vec<ChainLink>, verbose: bool, as_err: bool) -> (r: (Vec<Shown>, bool))
    ensures
        (shown_views(r.0@), r.1) == show_from(chain@, 0, verbose, as_err),
{
    let mut out: Vec<Shown> = Vec::new();
    let mut i: usize = 0;
    let mut stopped = false;
    assert(shown_views(out@) =~= Seq::<(int, Seq<char>)>::empty());
    while i < chain.len()
        invariant
            i <= chain.len(),
            show_from(chain@, 0, verbose, as_err) == (
                shown_views(out@) + show_from(chain@, i as int, verbose, as_err).0,
                show_from(chain@, i as int, verbose, as_err).1,
            ),
        decreases chain.len() - i,
    {
        let link = &chain[i];
        if !verbose && link.kind == LinkKind::Verbose {
            stopped = true;
            assert(shown_views(out@) + Seq::<(int, Seq<char>)>::empty() =~= shown_views(out@));
            return (out, stopped);
        }
        if link.kind == LinkKind::AlreadyPrinted {
            assert(shown_views(out@) + Seq::<(int, Seq<char>)>::empty() =~= shown_views(out@));
            return (out, false);
        }
        let ghost before = shown_views(out@);
        if i == 0 {
            if as_err {
                out.push(Shown::Error(string_of(&chars_of(link.message.as_str()))));
            } else {
                let mut t = chars_of(link.message.as_str());
                t.push('\n');
                proof {
                    reveal_strlit("\n");
                    assert(t@ =~= chain@[i as int].message@ + "\n"@);
                }
                out.push(Shown::Text(string_of(&t)));
            }
        } else {
            out.push(Shown::Text(string_of(&chars_of("\nCaused by:\n"))));
            out.push(Shown::Text(indented_lines(link.message.as_str())));
        }
        assert(shown_views(out@) =~= before + (if i == 0 {
            if as_err {
                seq![(0int, chain@[i as int].message@)]
            } else {
                seq![(1int, chain@[i as int].message@ + "\n"@)]
            }
        } else {
            seq![(1int, "\nCaused by:\n"@), (1int, indent_all(lines_of(chain@[i as int].message@)))]
        }));
        i = i + 1;
    }
    assert(shown_views(out@) + Seq::<(int, Seq<char>)>::empty() =~= shown_views(out@));
    (out, false)
}

/// Whether some link of the chain is an internal error.
pub open spec fn has_internal(chain: Seq<ChainLink>) -> bool {
    exists|i: int| 0 <= i < chain.len() && #[trigger] chain[i].kind == LinkKind::Internal
}

pub open spec fn internal_notes() -> Seq<(int, Seq<char>)> {
    seq![
        (2, "this is an unexpected substrate-manager internal error"@),
        (2, "we would appreciate a bug report: https://github.com/omerdn1/substrate-manager/issues/"@),
    ]
}

/// Shows an error chain as an error, followed by a request for a bug report
/// where some link of it is an internal error.
pub fn display_error(chain: &Vec<ChainLink>, verbose: bool) -> (r: Vec<Shown>)
    ensures
        shown_views(r@) == show_from(chain@, 0, verbose, true).0 + if has_internal(chain@) {
            internal_notes()
        } else {
            Seq::empty()
        },
{
    let (mut out, _) = _display_error(chain, verbose, true);
    let mut internal = false;
    let mut i: usize = 0;
    while i < chain.len()
        invariant
            i <= chain.len(),
            internal == exists|j: int| 0 <= j < i && #[trigger] chain@[j].kind == LinkKind::Internal,
        decreases chain.len() - i,
    {
        if chain[i].kind == LinkKind::Internal {
            internal = true;
        }
        i = i + 1;
    }
    let ghost before = shown_views(out@);
    if internal {
        out.push(Shown::Note(string_of(&chars_of("this is an unexpected substrate-manager internal error"))));
        out.push(
            Shown::Note(
                string_of(
                    &chars_of(
                        "we would appreciate a bug report: https://github.com/omerdn1/substrate-manager/issues/",
                    ),
                ),
            ),
        );
        assert(shown_views(out@) =~= before + internal_notes());
    } else {
        assert(shown_views(out@) =~= before + Seq::<(int, Seq<char>)>::empty());
    }
    out
}

} // verus!
