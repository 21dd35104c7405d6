//! The redirect applier: from the redirects of a command to the descriptor
//! remaps that the child performs after it is forked and before it runs
//! the program.
//!
//! A remap makes the descriptor `target` of the child refer to `source`,
//! as `dup2(source, target)` does. Where the source is a file, the child
//! opens it for reading and writing and creates it where it is absent;
//! both directions of a redirect open the file in this way. The remaps are
//! applied after the standard streams of the pipeline have been set, so a
//! redirect wins over the pipeline for the same descriptor.

use vstd::prelude::*;
use crate::ast::{Expr, ExprView, Redirect, RedirectView, redirect_views};
use crate::error::{Error, ErrorKind, ErrorView, error_of};
use crate::text::{decimal, usize_to_string};

verus! {

/// What a descriptor is remapped to.
#[derive(Debug, PartialEq)]
pub enum Source {
    /// The file of this name, opened by the child.
    File(String),
    /// A descriptor that the child already has.
    Fd(i32),
}

pub enum SourceView {
    File(Seq<char>),
    Fd(i32),
}

impl View for Source {
    type V = SourceView;

    open spec fn view(&self) -> SourceView {
        match self {
            Source::File(s) => SourceView::File(s@),
            Source::Fd(fd) => SourceView::Fd(*fd),
        }
    }
}

/// One remap: descriptor `target` of the child becomes `source`.
#[derive(Debug, PartialEq)]
pub struct Remap {
    pub source: Source,
    pub target: i32,
}

pub struct RemapView {
    pub source: SourceView,
    pub target: i32,
}

impl View for Remap {
    type V = RemapView;

    open spec fn view(&self) -> RemapView {
        RemapView { source: self.source@, target: self.target }
    }
}

/// The views of a sequence of remaps.
pub open spec fn remap_views(s: Seq<Remap>) -> Seq<RemapView> {
    s.map_values(|r: Remap| r@)
}

/// The remap of one redirect. The left side has to be a descriptor. On the
/// right, a word names a file, a number names the file of its decimal
/// form, and a descriptor is taken as it is; a variable is not accepted.
pub open spec fn remap_of(redirect: RedirectView) -> Option<RemapView> {
    match redirect.left {
        ExprView::FD(target) => match redirect.right {
            ExprView::String(s) => Some(RemapView { source: SourceView::File(s), target }),
            ExprView::Number(n) => Some(
                RemapView { source: SourceView::File(decimal(n as nat)), target },
            ),
            ExprView::FD(fd) => Some(RemapView { source: SourceView::Fd(fd), target }),
            ExprView::Ident(_) => None,
        },
        _ => None,
    }
}

/// The remaps of a list of redirects, in their order; none where one of
/// the redirects has no remap.
pub open spec fn remaps_of(redirects: Seq<RedirectView>) -> Option<Seq<RemapView>> {
    if forall|i: int| 0 <= i < redirects.len() ==> (#[trigger] remap_of(redirects[i])) is Some {
        Some(redirects.map_values(|r: RedirectView| remap_of(r)->0))
    } else {
        None
    }
}

/// The error for a redirect that has no remap.
pub open spec fn redirect_error() -> ErrorView {
    error_of(ErrorKind::EngineError, "Redirect error: Invalid abstract syntax tree"@)
}

/// The remap of one redirect.
pub fn remap(redirect: &Redirect) -> (r: Option<Remap>)
    ensures
        match remap_of(redirect@) {
            Some(m) => r is Some && r->0@ == m,
            None => r is None,
        },
{
    let target = match &redirect.left {
        Expr::FD(fd) => *fd,
        _ => {
            return None;
        },
    };
    match &redirect.right {
        Expr::String(s) => Some(Remap { source: Source::File(s.clone()), target }),
        Expr::Number(n) => Some(Remap { source: Source::File(usize_to_string(*n)), target }),
        Expr::FD(fd) => Some(Remap { source: Source::Fd(*fd), target }),
        Expr::Ident(_) => None,
    }
}

/// The remaps of the redirects of a command, in their order. A redirect
/// that has no remap is an `EngineError`.
pub fn remaps(redirects: &Vec<Redirect>) -> (r: Result<Vec<Remap>, Error>)
    ensures
        match remaps_of(redirect_views(redirects@)) {
            Some(ms) => r is Ok && remap_views(r->Ok_0@) == ms,
            None => r is Err && r->Err_0@ == redirect_error(),
        },
{
    let ghost views = redirect_views(redirects@);
    let mut v: Vec<Remap> = Vec::new();
    let mut i: usize = 0;
    while i < redirects.len()
        invariant
            i <= redirects@.len(),
            views == redirect_views(redirects@),
            v@.len() == i,
            forall|j: int| 0 <= j < i ==> (#[trigger] remap_of(views[j])) == Some(v@[j]@),
        decreases redirects@.len() - i,
    {
        assert(views[i as int] == redirects@[i as int]@);
        match remap(&redirects[i]) {
            Some(m) => {
                v.push(m);
            },
            None => {
                return Err(
                    Error::new(
                        ErrorKind::EngineError,
                        "Redirect error: Invalid abstract syntax tree",
                    ),
                );
            },
        }
        i = i + 1;
    }
    assert(remap_views(v@) =~= views.map_values(|r: RedirectView| remap_of(r)->0));
    Ok(v)
}

/// The direction plays no part in the remap: two redirects with the same
/// sides have the same remap, whatever their operators.
pub proof fn lemma_direction_is_ignored(redirect: RedirectView, other: RedirectView)
    requires
        redirect.left == other.left,
        redirect.right == other.right,
    ensures
        remap_of(redirect) == remap_of(other),
{
}

} // verus!
