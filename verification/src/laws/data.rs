//! What is seen of a value is what it holds, and what branches are made of.

use crate::action::{
    Action, ActionView, CommandOutput, OutputView, Progress, ProgressView, Reply, ReplyView,
};
use crate::branch::{
    self, AgentId, Branch, BranchId, BranchInfo, BranchInfoView, BranchStatus, BranchView,
    MergeResult, MergeResultView,
};
use crate::error::{BranchError, BranchErrorView, Refusal, RefusalView};
use crate::registry::BranchRegistry;
use crate::switch::Switched;
use chrono::NaiveDateTime;
use std::path::PathBuf;
use vstd::prelude::*;
use vstd::std_specs::cmp::PartialEqSpec;
use vstd::std_specs::convert::FromSpec;

verus! {

/// A branch, the information on one, the result of a merge and a registry are seen field by field.
pub proof fn law_records_are_seen(
    b: Branch,
    info: BranchInfo,
    m: MergeResult,
    r: BranchRegistry,
    s: Switched,
)
    ensures
        b@ == (BranchView {
            id: b.id@,
            name: b.name@,
            task: b.task@,
            work_dir: b.work_dir,
            agent_id: match b.agent_id {
                Some(agent) => Some(agent@),
                None => None,
            },
            created_at: b.created_at,
            status: b.status,
        }),
        b.deep_view() == b@,
        info@ == (BranchInfoView {
            id: info.id@,
            name: info.name@,
            task: info.task@,
            work_dir: info.work_dir,
            agent_id: match info.agent_id {
                Some(agent) => Some(agent@),
                None => None,
            },
            status: info.status,
            has_changes: info.has_changes,
            created_at: info.created_at,
        }),
        info.deep_view() == info@,
        m@ == (MergeResultView {
            branch: m.branch@,
            success: m.success,
            has_conflicts: m.has_conflicts,
            commit_hash: match m.commit_hash {
                Some(hash) => Some(hash@),
                None => None,
            },
            message: m.message@,
        }),
        m.deep_view() == m@,
        r@.branches.len() == r.branches@.len(),
        forall|i: int| 0 <= i < r.branches@.len() ==> #[trigger] r@.branches[i] == r.branches@[i]@,
        r@.active_branch == (match r.active_branch {
            Some(id) => Some(id@),
            None => None,
        }),
        r.deep_view() == r@,
        s.deep_view() == s.cwd,
{
}

/// An action is seen by what it is to do, and to what.
pub proof fn law_actions_are_seen(
    text: String,
    path: PathBuf,
    registry: BranchRegistry,
)
    ensures
        (Action::Run { command: text, dir: path })@ == (ActionView::Run {
            command: text@,
            dir: path,
        }),
        (Action::Exists { path })@ == (ActionView::Exists { path }),
        (Action::Read { path })@ == (ActionView::Read { path }),
        (Action::Write { path, text })@ == (ActionView::Write { path, text: text@ }),
        (Action::Remove { path })@ == (ActionView::Remove { path }),
        (Action::CreateDirs { path })@ == (ActionView::CreateDirs { path }),
        (Action::RemoveDir { path })@ == (ActionView::RemoveDir { path }),
        (Action::Parse { text })@ == (ActionView::Parse { text: text@ }),
        (Action::Store { path, registry })@ == (ActionView::Store { path, registry: registry@ }),
{
}

/// A reply is seen by what it tells.
pub proof fn law_replies_are_seen(
    output: CommandOutput,
    found: bool,
    text: String,
    registry: BranchRegistry,
)
    ensures
        output@ == (OutputView {
            stdout: output.stdout@,
            stderr: output.stderr@,
            exit_code: output.exit_code,
        }),
        Reply::Output(output)@ == ReplyView::Output(output@),
        Reply::Exists(found)@ == ReplyView::Exists(found),
        Reply::Text(text)@ == ReplyView::Text(text@),
        Reply::Parsed(registry)@ == ReplyView::Parsed(registry@),
        Reply::Done@ == ReplyView::Done,
        Reply::Failed@ == ReplyView::Failed,
{
}

/// How far an operation has come is seen by where it stands, what it ended with, or its error.
pub proof fn law_progress_is_seen<S: View, T: DeepView>(state: S, result: T, error: BranchError)
    ensures
        Progress::<S, T>::Ask(state)@ == ProgressView::<S::V, T::V>::Ask(state@),
        Progress::<S, T>::Done(result)@ == ProgressView::<S::V, T::V>::Done(result.deep_view()),
        Progress::<S, T>::Failed(error)@ == ProgressView::<S::V, T::V>::Failed(error@),
{
}

/// An error is seen by its context, or by its refusal and what that is about.
pub proof fn law_errors_are_seen(text: String, error: BranchError)
    ensures
        error matches BranchError::Action(context) ==> error@ == BranchErrorView::Action(context),
        error matches BranchError::Refused(refusal) ==> error@ == BranchErrorView::Refused(
            refusal@,
        ),
        Refusal::NotInRepository@ == RefusalView::NotInRepository,
        (Refusal::AlreadyExists { name: text })@ == (RefusalView::AlreadyExists { name: text@ }),
        (Refusal::NotCreated { stderr: text })@ == (RefusalView::NotCreated { stderr: text@ }),
        (Refusal::DoesNotExist { name: text })@ == (RefusalView::DoesNotExist { name: text@ }),
        (Refusal::NotCheckedOut { stderr: text })@ == (RefusalView::NotCheckedOut {
            stderr: text@,
        }),
        Refusal::NoBaseBranch@ == RefusalView::NoBaseBranch,
        (Refusal::BaseNotCheckedOut { stderr: text })@ == (RefusalView::BaseNotCheckedOut {
            stderr: text@,
        }),
        Refusal::IsBaseBranch@ == RefusalView::IsBaseBranch,
        (Refusal::NotDeleted { stderr: text })@ == (RefusalView::NotDeleted { stderr: text@ }),
        (Refusal::NotRegistered { name: text })@ == (RefusalView::NotRegistered { name: text@ }),
{
}

/// Identifiers are equal where their text is.
pub proof fn law_equal_ids(a: BranchId, b: BranchId, c: AgentId, d: AgentId)
    ensures
        a.eq_spec(&b) <==> a@ == b@,
        c.eq_spec(&d) <==> c@ == d@,
{
}

/// A new branch has the name that is given as its identifier too, the task, work directory and time
/// that are given, is active, and is assigned to the agent that is given, if any.
pub proof fn law_new_branches(
    name: Seq<char>,
    task: Seq<char>,
    work_dir: PathBuf,
    created_at: NaiveDateTime,
    agent_id: Option<Seq<char>>,
    b: BranchView,
    agent: Option<AgentId>,
)
    ensures
        BranchView::created(name, task, work_dir, created_at) == (BranchView {
            id: name,
            name,
            task,
            work_dir,
            agent_id: None,
            created_at,
            status: BranchStatus::Active,
        }),
        agent_id is Some ==> b.assigned(agent_id) == (BranchView {
            id: b.id,
            name: b.name,
            task: b.task,
            work_dir: b.work_dir,
            agent_id,
            created_at: b.created_at,
            status: b.status,
        }),
        b.assigned(None) == b,
        branch::agent_view(agent) == (match agent {
            Some(agent) => Some(agent@),
            None => None,
        }),
{
}

/// The information on a branch has each field of the branch, and whether there are changes; made of
/// the branch alone, it tells of none.
pub proof fn law_infos(b: BranchView, has_changes: bool, branch: Branch)
    ensures
        b.info(has_changes) == (BranchInfoView {
            id: b.id,
            name: b.name,
            task: b.task,
            work_dir: b.work_dir,
            agent_id: b.agent_id,
            status: b.status,
            has_changes,
            created_at: b.created_at,
        }),
        <BranchInfo as FromSpec<&Branch>>::from_spec(&branch) == (BranchInfo {
            id: branch.id,
            name: branch.name,
            task: branch.task,
            work_dir: branch.work_dir,
            agent_id: branch.agent_id,
            status: branch.status,
            has_changes: false,
            created_at: branch.created_at,
        }),
        <BranchInfo as FromSpec<&Branch>>::obeys_from_spec(),
{
}

} // verus!
