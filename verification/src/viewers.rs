//! Token-driven navigation over the PGDATA tree: a closed set of views and
//! a resolver that folds a list of path tokens into a final view, failing
//! fast on the first token a view does not support.

use vstd::prelude::*;

use crate::common::{spec_parse_oid, Error, PgOid};

verus! {

/// Terminal dimensions, as plain values, for the renderer.
#[derive(Debug, PartialEq, Eq, Structural, Clone, Copy)]
pub struct TermSize {
    pub rows: usize,
    pub cols: usize,
}

/// A position in the PGDATA tree. The set of views is closed: the root of
/// the data directory, its `base` subdirectory, and one per-database
/// directory under `base`.
#[derive(Debug, PartialEq, Eq, Structural, Clone, Copy)]
pub enum Viewer {
    /// The root of the data directory.
    Root,
    /// The `base` subdirectory.
    Base,
    /// The per-database directory `base/<oid>`.
    DbDir(PgOid),
}

/// The one-step transition relation of navigation: which view a token
/// leads to from each view, and the message when it leads nowhere. From
/// the root only `base` leads on; from `base`, any valid database
/// identifier; a per-database directory is a leaf.
pub open spec fn spec_get_next(v: Viewer, param: Seq<char>) -> Result<Viewer, Seq<char>> {
    match v {
        Viewer::Root => {
            if param == "base"@ {
                Ok(Viewer::Base)
            } else {
                Err(param + " is not supported"@)
            }
        },
        Viewer::Base => {
            match spec_parse_oid(param) {
                Some(oid) => Ok(Viewer::DbDir(oid)),
                None => Err("Expected database oid"@),
            }
        },
        Viewer::DbDir(_) => Err(param + " is not supported"@),
    }
}

/// Folding a whole token list from a starting view: the empty list is the
/// identity; otherwise one step decides, and its error — the first error —
/// wins, with no later token consulted.
pub open spec fn spec_resolve(v: Viewer, tokens: Seq<Seq<char>>) -> Result<Viewer, Seq<char>>
    decreases tokens.len(),
{
    if tokens.len() == 0 {
        Ok(v)
    } else {
        match spec_get_next(v, tokens[0]) {
            Ok(v2) => spec_resolve(v2, tokens.drop_first()),
            Err(e) => Err(e),
        }
    }
}

/// The view of a navigation result: the error collapses to its message.
pub open spec fn result_view(r: Result<Viewer, Error>) -> Result<Viewer, Seq<char>> {
    match r {
        Ok(v) => Ok(v),
        Err(e) => Err(e@),
    }
}

fn unsupported(param: &str) -> (r: Error)
    ensures
        r@ == param@ + " is not supported"@,
{
    let mut message = String::from_str(param);
    message.append(" is not supported");
    Error(message)
}

impl Viewer {
    /// One navigation step from this view.
    pub fn get_next(self, param: &str) -> (r: Result<Viewer, Error>)
        ensures
            result_view(r) == spec_get_next(self, param@),
    {
        match self {
            Viewer::Root => {
                if crate::common::str_eq(param, "base") {
                    Ok(Viewer::Base)
                } else {
                    Err(unsupported(param))
                }
            },
            Viewer::Base => {
                match PgOid::try_parse(param) {
                    Some(oid) => Ok(Viewer::DbDir(oid)),
                    None => Err(Error::new("Expected database oid")),
                }
            },
            Viewer::DbDir(_) => Err(unsupported(param)),
        }
    }
}

/// Resolves a token list against a starting view, one token at a time,
/// returning the final view or the first error.
pub fn find_viewer(viewer: Viewer, args: &[String]) -> (r: Result<Viewer, Error>)
    ensures
        result_view(r) == spec_resolve(viewer, args.deep_view()),
{
    let ghost tokens = args.deep_view();
    let mut current = viewer;
    let mut i: usize = 0;
    proof {
        assert(tokens.skip(0) =~= tokens);
    }
    while i < args.len()
        invariant
            0 <= i <= args@.len(),
            tokens == args.deep_view(),
            tokens.len() == args@.len(),
            forall|k: int| 0 <= k < tokens.len() ==> tokens[k] == args@[k]@,
            spec_resolve(viewer, tokens) == spec_resolve(current, tokens.skip(i as int)),
        decreases args@.len() - i,
    {
        proof {
            assert(tokens.skip(i as int)[0] == tokens[i as int]);
            assert(tokens.skip(i as int).drop_first() =~= tokens.skip(i + 1));
        }
        match current.get_next(args[i].as_str()) {
            Ok(next) => {
                current = next;
            },
            Err(e) => {
                proof {
                    assert(spec_resolve(current, tokens.skip(i as int)) == Err::<
                        Viewer,
                        Seq<char>,
                    >(e@));
                }
                return Err(e);
            },
        }
        i = i + 1;
    }
    proof {
        assert(tokens.skip(tokens.len() as int) =~= Seq::<Seq<char>>::empty());
    }
    Ok(current)
}

/// Resolving the empty token list is the identity: it returns the starting
/// view unchanged, whichever view that is.
pub proof fn lemma_resolve_empty_identity(v: Viewer)
    ensures
        spec_resolve(v, Seq::<Seq<char>>::empty()) == Ok::<Viewer, Seq<char>>(v),
{
}

/// Resolution fails fast: as soon as one step fails, the whole resolution
/// fails with that step's error, whatever tokens follow.
pub proof fn lemma_resolve_first_error_wins(v: Viewer, tokens: Seq<Seq<char>>, e: Seq<char>)
    requires
        tokens.len() > 0,
        spec_get_next(v, tokens[0]) == Err::<Viewer, Seq<char>>(e),
    ensures
        spec_resolve(v, tokens) == Err::<Viewer, Seq<char>>(e),
{
}

} // verus!
