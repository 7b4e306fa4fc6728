//! Extraction of the chain-spec identifiers that a node's `load_spec` dispatch
//! recognises, over a model of the parsed source file.
use vstd::prelude::*;

use crate::text::{lower_of, lowercase, str_eq, views};

verus! {

/// The shape of one pattern of a dispatch arm.
pub enum Pattern {
    /// A string literal, with its value.
    Str(String),
    /// A literal of any other kind.
    OtherLit,
    /// A path such as `some::module::CONSTANT`, by its segments.
    Path(Vec<String>),
    /// A plain binding such as `path` or `_other`.
    Binding,
    /// An or-pattern `A | B | ...`.
    Or(Vec<Pattern>),
    /// Any other pattern shape.
    Unsupported,
}

/// An expression handed to a call as an argument.
pub enum Expr {
    /// A `match`, by the patterns of its arms in order.
    Match(Vec<Pattern>),
    Other,
}

/// A statement of a function body.
pub enum Stmt {
    /// An expression statement that is a call, by its arguments.
    Call(Vec<Expr>),
    Other,
}

/// A function or method: its name and the statements of its body.
pub struct FnDef {
    pub name: String,
    pub body: Vec<Stmt>,
}

/// A top-level item of a source file.
pub enum SourceItem {
    /// A trait implementation, by the last segment of the trait's path and
    /// its methods.
    TraitImpl { trait_name: String, methods: Vec<FnDef> },
    /// A free function.
    Fn(FnDef),
    Other,
}

/// The dispatch contains a pattern that cannot be read as identifiers.
#[derive(Debug, PartialEq, Eq, Structural)]
pub enum ExtractError {
    UnsupportedPattern,
}

pub type Ids = Seq<Seq<char>>;

/// The results one after the other; the first failure, if any.
pub open spec fn concat_results(rs: Seq<Result<Ids, ()>>) -> Result<Ids, ()>
    decreases rs.len(),
{
    if rs.len() == 0 {
        Ok(Seq::empty())
    } else {
        match concat_results(rs.drop_last()) {
            Err(()) => Err(()),
            Ok(a) => match rs.last() {
                Err(()) => Err(()),
                Ok(b) => Ok(a + b),
            },
        }
    }
}

/// The identifiers of the first `n` sub-patterns of an or-pattern.
pub open spec fn or_ids(ps: Seq<Pattern>, n: int) -> Result<Ids, ()>
    decreases ps, n,
    when 0 <= n <= ps.len()
{
    if n == 0 {
        Ok(Seq::empty())
    } else {
        match or_ids(ps, n - 1) {
            Err(()) => Err(()),
            Ok(a) => match pattern_ids(ps[n - 1]) {
                Err(()) => Err(()),
                Ok(b) => Ok(a + b),
            },
        }
    }
}

/// The identifiers a pattern stands for: a non-empty string literal its value,
/// a path its last segment in lower case, an or-pattern those of its cases in
/// order; a binding or another literal none; any other shape is an error.
pub open spec fn pattern_ids(p: Pattern) -> Result<Ids, ()>
    decreases p,
{
    match p {
        Pattern::Str(s) => if s@.len() > 0 {
            Ok(seq![s@])
        } else {
            Ok(Seq::empty())
        },
        Pattern::OtherLit => Ok(Seq::empty()),
        Pattern::Path(segs) => if segs@.len() > 0 {
            Ok(seq![lower_of(segs@.last()@)])
        } else {
            Ok(Seq::empty())
        },
        Pattern::Binding => Ok(Seq::empty()),
        Pattern::Or(ps) => or_ids(ps@, ps@.len() as int),
        Pattern::Unsupported => Err(()),
    }
}

pub open spec fn expr_ids(e: Expr) -> Result<Ids, ()> {
    match e {
        Expr::Match(arms) => or_ids(arms@, arms@.len() as int),
        Expr::Other => Ok(Seq::empty()),
    }
}

pub open spec fn stmt_ids(s: Stmt) -> Result<Ids, ()> {
    match s {
        Stmt::Call(args) => concat_results(args@.map_values(|e: Expr| expr_ids(e))),
        Stmt::Other => Ok(Seq::empty()),
    }
}

pub open spec fn body_ids(body: Seq<Stmt>) -> Result<Ids, ()> {
    concat_results(body.map_values(|s: Stmt| stmt_ids(s)))
}

/// The identifiers of a function: those of its body's dispatches if it is
/// named `load_spec`, else none.
pub open spec fn fn_ids(f: FnDef) -> Result<Ids, ()> {
    if f.name@ == "load_spec"@ {
        body_ids(f.body@)
    } else {
        Ok(Seq::empty())
    }
}

/// The identifiers of an item: a free `load_spec`, or the `load_spec` methods
/// of an implementation of `SubstrateCli`.
pub open spec fn item_ids(i: SourceItem) -> Result<Ids, ()> {
    match i {
        SourceItem::TraitImpl { trait_name, methods } => if trait_name@ == "SubstrateCli"@ {
            concat_results(methods@.map_values(|f: FnDef| fn_ids(f)))
        } else {
            Ok(Seq::empty())
        },
        SourceItem::Fn(f) => fn_ids(f),
        SourceItem::Other => Ok(Seq::empty()),
    }
}

/// The identifiers of a whole file, in the order in which they appear.
pub open spec fn file_ids(items: Seq<SourceItem>) -> Result<Ids, ()> {
    concat_results(items.map_values(|i: SourceItem| item_ids(i)))
}

pub open spec fn as_result(r: Result<Vec<String>, ExtractError>) -> Result<Ids, ()> {
    match r {
        Ok(v) => Ok(views(v@)),
        Err(_) => Err(()),
    }
}

proof fn lemma_concat_err_extends(rs: Seq<Result<Ids, ()>>, k: int)
    requires
        0 <= k <= rs.len(),
        concat_results(rs.take(k)) is Err,
    ensures
        concat_results(rs) is Err,
    decreases rs.len() - k,
{
    if k < rs.len() {
        assert(rs.take(k + 1).drop_last() =~= rs.take(k));
        lemma_concat_err_extends(rs, k + 1);
    } else {
        assert(rs.take(k) =~= rs);
    }
}

proof fn lemma_or_err_extends(ps: Seq<Pattern>, k: int, n: int)
    requires
        0 <= k <= n <= ps.len(),
        or_ids(ps, k) is Err,
    ensures
        or_ids(ps, n) is Err,
    decreases n - k,
{
    if k < n {
        lemma_or_err_extends(ps, k + 1, n);
    }
}

/// Appends `add` to `out` and states the view of the result.
fn append_ids(out: &mut Vec<String>, add: Vec<String>)
    ensures
        views(final(out)@) == views(old(out)@) + views(add@),
{
    let ghost added = add@;
    let mut add = add;
    out.append(&mut add);
    assert(views(out@) =~= views(old(out)@) + views(added));
}

/// The identifiers that one dispatch-arm pattern stands for.
pub fn extract_field_names(pat: &Pattern) -> (r: Result<Vec<String>, ExtractError>)
    ensures
        as_result(r) == pattern_ids(*pat),
    decreases pat,
{
    match pat {
        Pattern::Str(s) => {
            let mut out: Vec<String> = Vec::new();
            if !s.as_str().is_empty() {
                out.push(s.clone());
            }
            assert(views(out@) =~= if s@.len() > 0 { seq![s@] } else { Seq::empty() });
            Ok(out)
        },
        Pattern::OtherLit | Pattern::Binding => {
            let out: Vec<String> = Vec::new();
            assert(views(out@) =~= Seq::empty());
            Ok(out)
        },
        Pattern::Path(segs) => {
            let mut out: Vec<String> = Vec::new();
            if segs.len() > 0 {
                out.push(lowercase(segs[segs.len() - 1].as_str()));
            }
            assert(views(out@) =~= if segs@.len() > 0 {
                seq![lower_of(segs@.last()@)]
            } else {
                Seq::empty()
            });
            Ok(out)
        },
        Pattern::Or(cases) => extract_or(cases),
        Pattern::Unsupported => Err(ExtractError::UnsupportedPattern),
    }
}

/// The identifiers of the cases of an or-pattern, one case after the other.
fn extract_or(cases: &Vec<Pattern>) -> (r: Result<Vec<String>, ExtractError>)
    ensures
        as_result(r) == or_ids(cases@, cases@.len() as int),
    decreases cases, 1nat,
{
    let mut out: Vec<String> = Vec::new();
    assert(views(out@) =~= Seq::empty());
    let mut i: usize = 0;
    while i < cases.len()
        invariant
            i <= cases.len(),
            or_ids(cases@, i as int) == Ok::<Ids, ()>(views(out@)),
        decreases cases.len() - i,
    {
        match extract_field_names(&cases[i]) {
            Ok(found) => {
                append_ids(&mut out, found);
            },
            Err(e) => {
                proof {
                    lemma_or_err_extends(cases@, i + 1, cases@.len() as int);
                }
                return Err(e);
            },
        }
        i = i + 1;
    }
    Ok(out)
}

fn expr_fields(e: &Expr) -> (r: Result<Vec<String>, ExtractError>)
    ensures
        as_result(r) == expr_ids(*e),
{
    match e {
        Expr::Match(arms) => extract_or(arms),
        Expr::Other => {
            let out: Vec<String> = Vec::new();
            assert(views(out@) =~= Seq::empty());
            Ok(out)
        },
    }
}

fn call_fields(args: &Vec<Expr>) -> (r: Result<Vec<String>, ExtractError>)
    ensures
        as_result(r) == concat_results(args@.map_values(|e: Expr| expr_ids(e))),
{
    let mut out: Vec<String> = Vec::new();
    assert(views(out@) =~= Seq::empty());
    let ghost rs = args@.map_values(|e: Expr| expr_ids(e));
    let mut i: usize = 0;
    while i < args.len()
        invariant
            i <= args.len(),
            rs == args@.map_values(|e: Expr| expr_ids(e)),
            concat_results(rs.take(i as int)) == Ok::<Ids, ()>(views(out@)),
        decreases args.len() - i,
    {
        assert(rs.take(i + 1).drop_last() =~= rs.take(i as int));
        match expr_fields(&args[i]) {
            Ok(found) => {
                append_ids(&mut out, found);
            },
            Err(e) => {
                proof {
                    lemma_concat_err_extends(rs, i + 1);
                }
                return Err(e);
            },
        }
        i = i + 1;
    }
    assert(rs.take(args.len() as int) =~= rs);
    Ok(out)
}

fn stmt_fields(st: &Stmt) -> (r: Result<Vec<String>, ExtractError>)
    ensures
        as_result(r) == stmt_ids(*st),
{
    match st {
        Stmt::Call(args) => call_fields(args),
        Stmt::Other => {
            let out: Vec<String> = Vec::new();
            assert(views(out@) =~= Seq::empty());
            Ok(out)
        },
    }
}

/// The identifiers of the dispatches in a `load_spec` body: for each call
/// statement, the arm patterns of each `match` among its arguments, in order.
pub fn extract_fields_from_load_spec(body: &Vec<Stmt>) -> (r: Result<Vec<String>, ExtractError>)
    ensures
        as_result(r) == body_ids(body@),
{
    let mut out: Vec<String> = Vec::new();
    assert(views(out@) =~= Seq::empty());
    let ghost rs = body@.map_values(|s: Stmt| stmt_ids(s));
    let mut i: usize = 0;
    while i < body.len()
        invariant
            i <= body.len(),
            rs == body@.map_values(|s: Stmt| stmt_ids(s)),
            concat_results(rs.take(i as int)) == Ok::<Ids, ()>(views(out@)),
        decreases body.len() - i,
    {
        assert(rs.take(i + 1).drop_last() =~= rs.take(i as int));
        match stmt_fields(&body[i]) {
            Ok(found) => {
                append_ids(&mut out, found);
            },
            Err(e) => {
                proof {
                    lemma_concat_err_extends(rs, i + 1);
                }
                return Err(e);
            },
        }
        i = i + 1;
    }
    assert(rs.take(body.len() as int) =~= rs);
    Ok(out)
}

fn fn_fields(f: &FnDef) -> (r: Result<Vec<String>, ExtractError>)
    ensures
        as_result(r) == fn_ids(*f),
{
    if str_eq(f.name.as_str(), "load_spec") {
        extract_fields_from_load_spec(&f.body)
    } else {
        let out: Vec<String> = Vec::new();
        assert(views(out@) =~= Seq::empty());
        Ok(out)
    }
}

fn methods_fields(methods: &Vec<FnDef>) -> (r: Result<Vec<String>, ExtractError>)
    ensures
        as_result(r) == concat_results(methods@.map_values(|f: FnDef| fn_ids(f))),
{
    let mut out: Vec<String> = Vec::new();
    assert(views(out@) =~= Seq::empty());
    let ghost rs = methods@.map_values(|f: FnDef| fn_ids(f));
    let mut i: usize = 0;
    while i < methods.len()
        invariant
            i <= methods.len(),
            rs == methods@.map_values(|f: FnDef| fn_ids(f)),
            concat_results(rs.take(i as int)) == Ok::<Ids, ()>(views(out@)),
        decreases methods.len() - i,
    {
        assert(rs.take(i + 1).drop_last() =~= rs.take(i as int));
        match fn_fields(&methods[i]) {
            Ok(found) => {
                append_ids(&mut out, found);
            },
            Err(e) => {
                proof {
                    lemma_concat_err_extends(rs, i + 1);
                }
                return Err(e);
            },
        }
        i = i + 1;
    }
    assert(rs.take(methods.len() as int) =~= rs);
    Ok(out)
}

fn item_fields(item: &SourceItem) -> (r: Result<Vec<String>, ExtractError>)
    ensures
        as_result(r) == item_ids(*item),
{
    match item {
        SourceItem::TraitImpl { trait_name, methods } => {
            if str_eq(trait_name.as_str(), "SubstrateCli") {
                methods_fields(methods)
            } else {
                let out: Vec<String> = Vec::new();
                assert(views(out@) =~= Seq::empty());
                Ok(out)
            }
        },
        SourceItem::Fn(f) => fn_fields(f),
        SourceItem::Other => {
            let out: Vec<String> = Vec::new();
            assert(views(out@) =~= Seq::empty());
            Ok(out)
        },
    }
}

/// The chain-spec identifiers of a source file, in first-seen order and with
/// repetitions kept; an error where a dispatch arm has an unsupported pattern.
pub fn extract_match_fields(items: &Vec<SourceItem>) -> (r: Result<Vec<String>, ExtractError>)
    ensures
        as_result(r) == file_ids(items@),
{
    let mut out: Vec<String> = Vec::new();
    assert(views(out@) =~= Seq::empty());
    let ghost rs = items@.map_values(|i: SourceItem| item_ids(i));
    let mut i: usize = 0;
    while i < items.len()
        invariant
            i <= items.len(),
            rs == items@.map_values(|i: SourceItem| item_ids(i)),
            concat_results(rs.take(i as int)) == Ok::<Ids, ()>(views(out@)),
        decreases items.len() - i,
    {
        assert(rs.take(i + 1).drop_last() =~= rs.take(i as int));
        match item_fields(&items[i]) {
            Ok(found) => {
                append_ids(&mut out, found);
            },
            Err(e) => {
                proof {
                    lemma_concat_err_extends(rs, i + 1);
                }
                return Err(e);
            },
        }
        i = i + 1;
    }
    assert(rs.take(items.len() as int) =~= rs);
    Ok(out)
}

proof fn lemma_or_ids_concat(ps: Seq<Pattern>, n: int)
    requires
        0 <= n <= ps.len(),
    ensures
        or_ids(ps, n) == concat_results(ps.map_values(|q: Pattern| pattern_ids(q)).take(n)),
    decreases n,
{
    let rs = ps.map_values(|q: Pattern| pattern_ids(q));
    if n > 0 {
        lemma_or_ids_concat(ps, n - 1);
        assert(rs.take(n).drop_last() =~= rs.take(n - 1));
    } else {
        assert(rs.take(0) =~= Seq::<Result<Ids, ()>>::empty());
    }
}

/// An or-pattern stands for the identifiers of its cases, one case after the
/// other in the order written: `extract(q1 | ... | qn)` is `extract(q1)`
/// followed by ... by `extract(qn)`, and fails exactly when one of them fails.
pub proof fn lemma_or_pattern_union(p: Pattern)
    requires
        p is Or,
    ensures
        pattern_ids(p) == concat_results(p->Or_0@.map_values(|q: Pattern| pattern_ids(q))),
{
    let ps = p->Or_0@;
    lemma_or_ids_concat(ps, ps.len() as int);
    assert(ps.map_values(|q: Pattern| pattern_ids(q)).take(ps.len() as int) =~= ps.map_values(
        |q: Pattern| pattern_ids(q),
    ));
}

/// Two results one after the other; the first failure, if any.
pub open spec fn then_results(a: Result<Ids, ()>, b: Result<Ids, ()>) -> Result<Ids, ()> {
    match (a, b) {
        (Ok(x), Ok(y)) => Ok(x + y),
        _ => Err(()),
    }
}

proof fn lemma_concat_append(a: Seq<Result<Ids, ()>>, b: Seq<Result<Ids, ()>>)
    ensures
        concat_results(a + b) == then_results(concat_results(a), concat_results(b)),
    decreases b.len(),
{
    if b.len() == 0 {
        assert(a + b =~= a);
        if let Ok(x) = concat_results(a) {
            assert(x + Seq::<Seq<char>>::empty() =~= x);
        }
    } else {
        assert((a + b).drop_last() =~= a + b.drop_last());
        lemma_concat_append(a, b.drop_last());
        if let (Ok(x), Ok(y)) = (concat_results(a), concat_results(b.drop_last())) {
            if let Ok(z) = b.last() {
                assert(x + y + z =~= x + (y + z));
            }
        }
    }
}

/// The identifiers of a dispatch do not change when an or-arm `q1 | ... | qn`
/// is split into the arms `q1`, ..., `qn` in its place: the or-pattern yields
/// the identifiers of its cases in the order written.
pub proof fn lemma_split_or_arm(arms: Seq<Pattern>, i: int)
    requires
        0 <= i < arms.len(),
        arms[i] is Or,
    ensures
        or_ids(arms, arms.len() as int) == or_ids(
            arms.take(i) + arms[i]->Or_0@ + arms.skip(i + 1),
            (arms.take(i) + arms[i]->Or_0@ + arms.skip(i + 1)).len() as int,
        ),
{
    let ps = arms[i]->Or_0@;
    let split = arms.take(i) + ps + arms.skip(i + 1);
    let f = |q: Pattern| pattern_ids(q);
    lemma_or_ids_concat(arms, arms.len() as int);
    lemma_or_ids_concat(split, split.len() as int);
    lemma_or_pattern_union(arms[i]);
    assert(arms.map_values(f).take(arms.len() as int) =~= arms.map_values(f));
    assert(split.map_values(f).take(split.len() as int) =~= split.map_values(f));
    let before = arms.take(i).map_values(f);
    let after = arms.skip(i + 1).map_values(f);
    assert(arms.map_values(f) =~= before + seq![pattern_ids(arms[i])] + after);
    assert(split.map_values(f) =~= before + ps.map_values(f) + after);
    lemma_concat_append(before + seq![pattern_ids(arms[i])], after);
    lemma_concat_append(before, seq![pattern_ids(arms[i])]);
    lemma_concat_append(before + ps.map_values(f), after);
    lemma_concat_append(before, ps.map_values(f));
    let one = seq![pattern_ids(arms[i])];
    assert(one.drop_last() =~= Seq::<Result<Ids, ()>>::empty());
    assert(one.last() == pattern_ids(arms[i]));
    assert(concat_results(Seq::<Result<Ids, ()>>::empty()) == Ok::<Ids, ()>(Seq::empty()));
    assert(concat_results(one.drop_last()) == Ok::<Ids, ()>(Seq::empty()));
    if let Ok(x) = pattern_ids(arms[i]) {
        assert(Seq::<Seq<char>>::empty() + x =~= x);
    }
    assert(concat_results(one) == pattern_ids(arms[i]));
    assert(concat_results(ps.map_values(f)) == pattern_ids(arms[i]));
}

} // verus!
