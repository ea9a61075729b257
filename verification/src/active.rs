//! Asking for the current branch.

use crate::action::{Action, ActionView, Progress, ProgressView, Reply, ReplyView};
use crate::layout::Layout;
use crate::storage;
use crate::text;
use vstd::prelude::*;

verus! {

/// The name of the current branch, read out of the reply to the reading of the marker: a marker
/// that cannot be read names none.
pub open spec fn current_in(reply: ReplyView) -> Option<Seq<char>> {
    match reply {
        ReplyView::Text(text) => Some(text::trimmed(text)),
        _ => None,
    }
}

/// The name of the current branch, read out of the reply to the reading of the marker
pub fn current_branch(reply: &Reply) -> (res: Option<String>)
    ensures
        res.deep_view() == current_in(reply@),
{
    match reply {
        Reply::Text(text) => Some(text::trim_owned(text.as_str())),
        _ => None,
    }
}

/// Asking for the current branch, in one step
#[derive(Debug)]
pub struct GetActiveBranch {
    /// Where the service keeps its files
    pub layout: Layout,
}

/// What asking for the current branch holds.
pub struct ActiveView {
    pub layout: Layout,
}

impl View for GetActiveBranch {
    type V = ActiveView;

    open spec fn view(&self) -> ActiveView {
        ActiveView { layout: self.layout }
    }
}

impl ActiveView {
    /// What is to be done.
    pub open spec fn action(self) -> ActionView {
        ActionView::Read { path: self.layout.marker() }
    }

    /// What follows the reply.
    pub open spec fn next(self, reply: ReplyView) -> ProgressView<ActiveView, Option<Seq<char>>> {
        ProgressView::Done(current_in(reply))
    }
}

impl GetActiveBranch {
    /// What is to be done
    pub fn action(&self) -> (res: Action)
        ensures
            res@ == self@.action(),
    {
        Action::Read { path: self.layout.current_branch_path() }
    }

    /// Go on with the reply
    pub fn next(self, reply: Reply) -> (res: Progress<GetActiveBranch, Option<String>>)
        ensures
            res@ == self@.next(reply@),
    {
        Progress::Done(current_branch(&reply))
    }
}

/// Reading the marker back gives the name that marking wrote, without white space at its ends.
pub proof fn law_marker_names_the_branch(layout: Layout, name: Seq<char>)
    ensures
        storage::mark(layout, name) matches ActionView::Write { path, text } && (ActiveView {
            layout,
        }).action() == (ActionView::Read { path }) && (ActiveView { layout }).next(
            ReplyView::Text(text),
        ) == ProgressView::<ActiveView, Option<Seq<char>>>::Done(Some(text::trimmed(name))),
        text::trimmed(name) == name ==> (ActiveView { layout }).next(ReplyView::Text(name))
            == ProgressView::<ActiveView, Option<Seq<char>>>::Done(Some(name)),
{
}

} // verus!
