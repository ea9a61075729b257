//! Whole operations of the service, against scripted replies.

use chrono::{NaiveDate, NaiveDateTime, Utc};
use forge_branch::changes::CheckChanges;
use forge_branch::git::{get_git_root, Git};
use forge_branch::merge::{has_conflicts, merge_conflict, merge_failure, merge_success};
use forge_branch::storage::{LoadRegistry, SaveRegistry};
use forge_branch::{
    AbandonBranch, Action, AgentId, Branch, BranchError, BranchId, BranchInfo, BranchRegistry,
    BranchService, BranchStatus, CommandOutput, Context, CreateBranch, DeleteBranch,
    GetActiveBranch, Layout, ListBranches, MergeBranch, MergeResult, Progress, Refusal, Reply,
    SwitchBranch, Switched,
};
use std::path::PathBuf;
use std::sync::Arc;

struct Infra {
    tag: u32,
}

fn service() -> BranchService<Infra> {
    BranchService::new(Arc::new(Infra { tag: 7 }), PathBuf::from("/repo/.forge"))
}

fn cwd() -> PathBuf {
    PathBuf::from("/repo/sub")
}

fn day() -> NaiveDateTime {
    NaiveDate::from_ymd_opt(2024, 5, 1).unwrap().and_hms_opt(12, 30, 0).unwrap()
}

fn branch(name: &str) -> Branch {
    Branch::created(name, "a task", PathBuf::from("/repo/.forge/work").join(name), day())
}

fn registry(names: &[&str]) -> BranchRegistry {
    let mut r = BranchRegistry::new();
    for name in names {
        r.add_branch(branch(name));
    }
    r
}

fn output(stdout: &str, stderr: &str, exit_code: Option<i32>) -> CommandOutput {
    CommandOutput { stdout: stdout.to_string(), stderr: stderr.to_string(), exit_code }
}

fn ok(stdout: &str) -> Reply {
    Reply::Output(output(stdout, "", Some(0)))
}

fn bad(stderr: &str) -> Reply {
    Reply::Output(output("", stderr, Some(1)))
}

fn root() -> Reply {
    ok("/repo\n")
}

/// The replies that load a registry
fn stored(r: BranchRegistry) -> Vec<Reply> {
    vec![Reply::Exists(true), Reply::Text("{}".to_string()), Reply::Parsed(r)]
}

/// The replies that save a registry
fn saved() -> Vec<Reply> {
    vec![Reply::Exists(true), Reply::Done]
}

fn show_registry(r: &BranchRegistry) -> String {
    let branches: Vec<String> =
        r.list().iter().map(|b| format!("{}:{:?}", b.name, b.status)).collect();
    let active = match &r.active_branch {
        Some(id) => id.to_string(),
        None => "-".to_string(),
    };
    format!("[{}] {}", branches.join(" "), active)
}

fn show(action: &Action) -> String {
    match action {
        Action::Run { command, dir } => format!("{}$ {}", dir.display(), command),
        Action::Exists { path } => format!("exists {}", path.display()),
        Action::Read { path } => format!("read {}", path.display()),
        Action::Write { path, text } => format!("write {} {}", path.display(), text),
        Action::Remove { path } => format!("remove {}", path.display()),
        Action::CreateDirs { path } => format!("mkdir {}", path.display()),
        Action::RemoveDir { path } => format!("rmdir {}", path.display()),
        Action::Parse { text } => format!("parse {}", text),
        Action::Store { path, registry } => {
            format!("store {} {}", path.display(), show_registry(registry))
        }
    }
}

/// An operation of the service
trait Operation: Sized {
    type Outcome;
    fn act(&self) -> Action;
    fn go_on(self, reply: Reply) -> Progress<Self, Self::Outcome>;
}

impl Operation for CreateBranch {
    type Outcome = Branch;
    fn act(&self) -> Action {
        self.action()
    }
    fn go_on(self, reply: Reply) -> Progress<Self, Branch> {
        self.next(reply)
    }
}

impl Operation for SwitchBranch {
    type Outcome = Switched;
    fn act(&self) -> Action {
        self.action()
    }
    fn go_on(self, reply: Reply) -> Progress<Self, Switched> {
        self.next(reply)
    }
}

impl Operation for ListBranches {
    type Outcome = Vec<BranchInfo>;
    fn act(&self) -> Action {
        self.action()
    }
    fn go_on(self, reply: Reply) -> Progress<Self, Vec<BranchInfo>> {
        self.next(reply)
    }
}

impl Operation for GetActiveBranch {
    type Outcome = Option<String>;
    fn act(&self) -> Action {
        self.action()
    }
    fn go_on(self, reply: Reply) -> Progress<Self, Option<String>> {
        self.next(reply)
    }
}

impl Operation for MergeBranch {
    type Outcome = MergeResult;
    fn act(&self) -> Action {
        self.action()
    }
    fn go_on(self, reply: Reply) -> Progress<Self, MergeResult> {
        self.next(reply)
    }
}

impl Operation for DeleteBranch {
    type Outcome = ();
    fn act(&self) -> Action {
        self.action()
    }
    fn go_on(self, reply: Reply) -> Progress<Self, ()> {
        self.next(reply)
    }
}

impl Operation for AbandonBranch {
    type Outcome = ();
    fn act(&self) -> Action {
        self.action()
    }
    fn go_on(self, reply: Reply) -> Progress<Self, ()> {
        self.next(reply)
    }
}

/// Run an operation to its end: every reply is used, and no more are asked for.
fn run<O: Operation>(op: O, replies: Vec<Reply>) -> (Vec<String>, Result<O::Outcome, BranchError>) {
    let mut asked = vec![show(&op.act())];
    let mut op = op;
    let mut left = replies.len();
    for reply in replies {
        left -= 1;
        match op.go_on(reply) {
            Progress::Ask(next) => {
                asked.push(show(&next.act()));
                op = next;
            }
            Progress::Done(outcome) => {
                assert_eq!(left, 0, "replies left over after {:?}", asked);
                return (asked, Ok(outcome));
            }
            Progress::Failed(error) => {
                assert_eq!(left, 0, "replies left over after {:?}", asked);
                return (asked, Err(error));
            }
        }
    }
    panic!("more replies are asked for: {:?}", asked)
}

fn refusal<T>(outcome: Result<T, BranchError>) -> String {
    match outcome {
        Err(BranchError::Refused(refusal)) => refusal.message(),
        Err(BranchError::Action(_)) => panic!("an action failed"),
        Ok(_) => panic!("the operation succeeded"),
    }
}

fn failure<T>(outcome: Result<T, BranchError>) -> Option<&'static str> {
    match outcome {
        Err(BranchError::Action(context)) => context.map(|c| c.text()),
        Err(BranchError::Refused(_)) => panic!("the operation was refused"),
        Ok(_) => panic!("the operation succeeded"),
    }
}

fn all(parts: Vec<Vec<Reply>>) -> Vec<Reply> {
    parts.into_iter().flatten().collect()
}

// The service and its files

#[test]
fn test_work_dir_path() {
    let service = service();
    assert_eq!(
        service.work_dir_for_branch("feat/test"),
        PathBuf::from("/repo/.forge/work/feat/test")
    );
}

#[test]
fn the_files_of_the_service_stand_in_its_directory() {
    let layout = Layout::new(PathBuf::from("/repo/.forge"));
    assert_eq!(layout.registry_path, PathBuf::from("/repo/.forge/branches.json"));
    assert_eq!(layout.current_branch_path(), PathBuf::from("/repo/.forge/current_branch"));
    assert_eq!(layout.work_dir_for_branch("a"), PathBuf::from("/repo/.forge/work/a"));
    let copy = layout.clone();
    assert_eq!(copy.forge_dir, PathBuf::from("/repo/.forge"));
    assert_eq!(service().current_branch_path(), PathBuf::from("/repo/.forge/current_branch"));
}

#[test]
fn a_cloned_service_is_the_same() {
    let one = service();
    let two = one.clone();
    assert!(Arc::ptr_eq(one.infra(), two.infra()));
    assert_eq!(two.infra().tag, 7);
    assert_eq!(two.current_branch_path(), one.current_branch_path());
}

// Texts

#[test]
fn git_commands_are_spelled_out() {
    assert_eq!(Git::ShowRoot.command(), "git rev-parse --show-toplevel");
    assert_eq!(Git::Verify { name: "a/b" }.command(), "git rev-parse --verify refs/heads/a/b");
    assert_eq!(Git::CheckoutNew { name: "a/b" }.command(), "git checkout -b a/b");
    assert_eq!(Git::Checkout { name: "a/b" }.command(), "git checkout a/b");
    assert_eq!(Git::ShowCurrent.command(), "git branch --show-current");
    assert_eq!(Git::Status.command(), "git status --porcelain");
    assert_eq!(
        Git::Merge { name: "a/b", base: "main" }.command(),
        "git merge a/b --no-ff -m \"Merge branch 'a/b' into main\""
    );
    assert_eq!(Git::AbortMerge.command(), "git merge --abort");
    assert_eq!(Git::ShowHead.command(), "git rev-parse HEAD");
    assert_eq!(Git::Delete { name: "a/b" }.command(), "git branch -D a/b");
}

#[test]
fn refusals_have_messages() {
    let name = || "a".to_string();
    let stderr = || "fatal: no".to_string();
    assert_eq!(Refusal::NotInRepository.message(), "Not in a git repository");
    assert_eq!(Refusal::AlreadyExists { name: name() }.message(), "Branch 'a' already exists");
    assert_eq!(
        Refusal::NotCreated { stderr: stderr() }.message(),
        "Failed to create git branch: fatal: no"
    );
    assert_eq!(Refusal::DoesNotExist { name: name() }.message(), "Branch 'a' does not exist");
    assert_eq!(
        Refusal::NotCheckedOut { stderr: stderr() }.message(),
        "Failed to checkout branch: fatal: no"
    );
    assert_eq!(
        Refusal::NoBaseBranch.message(),
        "No base branch found (neither 'main' nor 'master' exists)"
    );
    assert_eq!(
        Refusal::BaseNotCheckedOut { stderr: stderr() }.message(),
        "Failed to checkout base branch: fatal: no"
    );
    assert_eq!(Refusal::IsBaseBranch.message(), "Cannot delete the base branch");
    assert_eq!(
        Refusal::NotDeleted { stderr: stderr() }.message(),
        "Failed to delete git branch: fatal: no"
    );
    assert_eq!(
        Refusal::NotRegistered { name: name() }.message(),
        "Branch 'a' not found in registry"
    );
}

#[test]
fn contexts_have_texts() {
    assert_eq!(Context::GitRoot.text(), "Failed to get git repository root");
    assert_eq!(Context::CreateBranch.text(), "Failed to create git branch");
    assert_eq!(Context::Checkout.text(), "Failed to checkout branch");
    assert_eq!(Context::CheckoutBase.text(), "Failed to checkout base branch");
    assert_eq!(Context::ParseRegistry.text(), "Failed to parse branches.json");
}

// The root of the repository

#[test]
fn the_root_is_trimmed() {
    let found = get_git_root(&ok(" \t/some/repo\u{3000}\r\n"));
    assert_eq!(found.ok(), Some(PathBuf::from("/some/repo")));
    let found = get_git_root(&ok("/with space/repo\n"));
    assert_eq!(found.ok(), Some(PathBuf::from("/with space/repo")));
}

#[test]
fn blank_output_is_no_root() {
    for blank in ["", "\n", " \u{a0}\u{2028}\t"] {
        assert_eq!(refusal(get_git_root(&ok(blank))), "Not in a git repository");
    }
    assert_eq!(refusal(get_git_root(&bad("fatal"))), "Not in a git repository");
}

#[test]
fn a_command_that_does_not_run_gives_no_root() {
    assert_eq!(failure(get_git_root(&Reply::Failed)), Some("Failed to get git repository root"));
}

// Creating

fn create(replies: Vec<Reply>) -> (Vec<String>, Result<Branch, BranchError>) {
    let op = service().create_branch(cwd(), "feat/a", "Task A", Some(AgentId::forge()));
    run(op, replies)
}

#[test]
fn creating_a_branch_records_it() {
    let before = Utc::now().naive_utc();
    let (asked, outcome) = create(all(vec![
        vec![root(), bad("fatal"), ok(""), Reply::Done],
        stored(registry(&["old"])),
        vec![Reply::Exists(false), Reply::Done, Reply::Done],
        vec![Reply::Done],
    ]));
    let after = Utc::now().naive_utc();
    assert_eq!(
        asked,
        vec![
            "/repo/sub$ git rev-parse --show-toplevel",
            "/repo$ git rev-parse --verify refs/heads/feat/a",
            "/repo$ git checkout -b feat/a",
            "mkdir /repo/.forge/work/feat/a",
            "exists /repo/.forge/branches.json",
            "read /repo/.forge/branches.json",
            "parse {}",
            "exists /repo/.forge",
            "mkdir /repo/.forge",
            "store /repo/.forge/branches.json [old:Active feat/a:Active] feat/a",
            "write /repo/.forge/current_branch feat/a",
        ]
    );
    let branch = outcome.unwrap();
    assert_eq!(branch.id, BranchId::new("feat/a"));
    assert_eq!(branch.name, "feat/a");
    assert_eq!(branch.task, "Task A");
    assert_eq!(branch.work_dir, PathBuf::from("/repo/.forge/work/feat/a"));
    assert_eq!(branch.agent_id, Some(AgentId::forge()));
    assert_eq!(branch.status, BranchStatus::Active);
    assert!(before <= branch.created_at && branch.created_at <= after);
}

#[test]
fn the_first_branch_starts_a_registry() {
    let op = service().create_branch(cwd(), "feat/a", "Task A", None);
    let (asked, outcome) = run(
        op,
        all(vec![
            vec![root(), bad(""), ok(""), Reply::Done, Reply::Exists(false)],
            saved(),
            vec![Reply::Done],
        ]),
    );
    assert_eq!(asked[6], "store /repo/.forge/branches.json [feat/a:Active] feat/a");
    assert_eq!(outcome.unwrap().agent_id, None);
}

#[test]
fn a_created_branch_takes_the_place_of_an_old_record() {
    let mut known = registry(&["feat/a", "old"]);
    known.get_mut(&BranchId::new("feat/a")).unwrap().status = BranchStatus::Merged;
    let (asked, outcome) = create(all(vec![
        vec![root(), bad("fatal"), ok(""), Reply::Done],
        stored(known),
        saved(),
        vec![Reply::Done],
    ]));
    assert_eq!(asked[8], "store /repo/.forge/branches.json [old:Active feat/a:Active] feat/a");
    assert_eq!(outcome.unwrap().task, "Task A");
}

#[test]
fn a_created_branch_can_be_dated_by_the_caller() {
    let mut op = service().create_branch(cwd(), "feat/a", "Task A", None);
    for reply in all(vec![
        vec![root(), bad(""), ok(""), Reply::Done, Reply::Exists(false)],
        saved(),
    ]) {
        op = match op.next_at(reply, day()) {
            Progress::Ask(next) => next,
            _ => panic!("the operation ended"),
        };
    }
    match op.next_at(Reply::Done, day()) {
        Progress::Done(branch) => assert_eq!(branch.created_at, day()),
        _ => panic!("the operation did not succeed"),
    }
}

#[test]
fn creating_an_existing_branch_is_refused() {
    let (asked, outcome) = create(vec![root(), ok("1234")]);
    assert_eq!(refusal(outcome), "Branch 'feat/a' already exists");
    assert_eq!(asked.len(), 2);
}

#[test]
fn creating_outside_of_a_repository_is_refused() {
    let (asked, outcome) = create(vec![bad("fatal: not a git repository")]);
    assert_eq!(refusal(outcome), "Not in a git repository");
    assert_eq!(asked.len(), 1);
}

#[test]
fn a_branch_that_git_does_not_create_is_refused() {
    let (asked, outcome) = create(vec![root(), bad(""), bad("fatal: bad name")]);
    assert_eq!(refusal(outcome), "Failed to create git branch: fatal: bad name");
    assert_eq!(asked.len(), 3);
    let killed = Reply::Output(output("", "killed", None));
    let (_, outcome) = create(vec![root(), bad(""), killed]);
    assert_eq!(refusal(outcome), "Failed to create git branch: killed");
}

#[test]
fn a_killed_check_counts_as_no_branch() {
    let killed = Reply::Output(output("", "", None));
    let (asked, outcome) = create(vec![root(), killed, bad("no")]);
    assert_eq!(asked[2], "/repo$ git checkout -b feat/a");
    assert_eq!(refusal(outcome), "Failed to create git branch: no");
}

#[test]
fn failures_while_creating_have_contexts() {
    let start = || vec![root(), bad(""), ok(""), Reply::Done];
    let context = |replies: Vec<Vec<Reply>>| failure(create(all(replies)).1);
    let fail = || vec![Reply::Failed];
    assert_eq!(context(vec![fail()]), Some("Failed to get git repository root"));
    assert_eq!(context(vec![vec![root()], fail()]), None);
    assert_eq!(
        context(vec![vec![root(), bad("")], fail()]),
        Some("Failed to create git branch")
    );
    assert_eq!(context(vec![vec![root(), bad(""), ok("")], fail()]), None);
    assert_eq!(context(vec![start(), vec![Reply::Exists(true)], fail()]), None);
    assert_eq!(
        context(vec![start(), vec![Reply::Exists(true), Reply::Text("?".to_string())], fail()]),
        Some("Failed to parse branches.json")
    );
    assert_eq!(
        context(vec![start(), stored(registry(&[])), vec![Reply::Exists(false)], fail()]),
        None
    );
    assert_eq!(
        context(vec![start(), stored(registry(&[])), vec![Reply::Exists(true)], fail()]),
        None
    );
    assert_eq!(context(vec![start(), stored(registry(&[])), saved(), fail()]), None);
}

// Switching

fn switch(replies: Vec<Reply>) -> (Vec<String>, Result<Switched, BranchError>) {
    run(service().switch_branch(cwd(), "feat/a"), replies)
}

#[test]
fn switching_marks_the_branch_and_activates_it() {
    let (asked, outcome) = switch(all(vec![
        vec![root(), ok(""), ok(""), Reply::Done],
        stored(registry(&["feat/a", "b"])),
        saved(),
    ]));
    assert_eq!(outcome.unwrap().cwd, PathBuf::from("/repo/.forge/work/feat/a"));
    assert_eq!(
        asked,
        vec![
            "/repo/sub$ git rev-parse --show-toplevel",
            "/repo$ git rev-parse --verify refs/heads/feat/a",
            "/repo$ git checkout feat/a",
            "write /repo/.forge/current_branch feat/a",
            "exists /repo/.forge/branches.json",
            "read /repo/.forge/branches.json",
            "parse {}",
            "exists /repo/.forge",
            "store /repo/.forge/branches.json [feat/a:Active b:Active] feat/a",
        ]
    );
}

#[test]
fn switching_to_an_unmanaged_branch_keeps_the_active_one() {
    let mut known = registry(&["b"]);
    known.set_active(&BranchId::new("b"));
    let (asked, outcome) = switch(all(vec![
        vec![root(), ok(""), ok(""), Reply::Done],
        stored(known),
        saved(),
    ]));
    assert_eq!(outcome.unwrap().cwd, cwd());
    assert_eq!(asked[8], "store /repo/.forge/branches.json [b:Active] b");
}

#[test]
fn switching_to_an_unknown_branch_is_refused() {
    let (asked, outcome) = switch(vec![root(), bad("fatal")]);
    assert_eq!(refusal(outcome), "Branch 'feat/a' does not exist");
    assert_eq!(asked.len(), 2);
}

#[test]
fn a_switch_that_git_does_not_make_is_refused() {
    let (_, outcome) = switch(vec![root(), ok(""), bad("error: local changes")]);
    assert_eq!(refusal(outcome), "Failed to checkout branch: error: local changes");
}

#[test]
fn failures_while_switching_have_contexts() {
    let (_, outcome) = switch(vec![root(), Reply::Failed]);
    assert_eq!(failure(outcome), None);
    let (_, outcome) = switch(vec![root(), ok(""), Reply::Failed]);
    assert_eq!(failure(outcome), Some("Failed to checkout branch"));
    let (_, outcome) = switch(vec![root(), ok(""), ok(""), Reply::Failed]);
    assert_eq!(failure(outcome), None);
}

// Looking for changes, and listing

#[test]
fn looking_for_changes_comes_back() {
    let mut check = CheckChanges::Root;
    let mut asked = vec![show(&check.action(&cwd(), "feat/a"))];
    for reply in [root(), ok(" main\n"), ok(""), ok(" M src/lib.rs\n")] {
        check = match check.next(reply) {
            Progress::Ask(next) => next,
            _ => panic!("the check ended"),
        };
        asked.push(show(&check.action(&cwd(), "feat/a")));
    }
    assert_eq!(
        asked,
        vec![
            "/repo/sub$ git rev-parse --show-toplevel",
            "/repo$ git branch --show-current",
            "/repo$ git checkout feat/a",
            "/repo$ git status --porcelain",
            "/repo$ git checkout main",
        ]
    );
    match check.next(ok("")) {
        Progress::Done(changed) => assert!(changed),
        _ => panic!("the check did not end"),
    }
}

#[test]
fn a_branch_that_is_not_checked_out_is_not_looked_at() {
    let check = CheckChanges::Status {
        root: PathBuf::from("/repo"),
        current: "main".to_string(),
    };
    assert_eq!(show(&check.action(&cwd(), "feat/a")), "/repo$ git status --porcelain");
    let check = CheckChanges::Checkout {
        root: PathBuf::from("/repo"),
        current: "main".to_string(),
    };
    let check = match check.next(bad("error: local changes")) {
        Progress::Ask(next) => next,
        _ => panic!("the check ended"),
    };
    assert_eq!(show(&check.action(&cwd(), "feat/a")), "/repo$ git checkout main");
    match check.next(ok("")) {
        Progress::Failed(error) => assert_eq!(
            refusal::<bool>(Err(error)),
            "Failed to checkout branch: error: local changes"
        ),
        _ => panic!("the check did not fail"),
    }
}

#[test]
fn a_listing_tells_of_changes_in_order() {
    let mut known = registry(&["z", "b", "merged", "a"]);
    known.get_mut(&BranchId::new("merged")).unwrap().status = BranchStatus::Merged;
    let clean = || vec![root(), ok("main\n"), ok(""), ok(" \n"), ok("")];
    let dirty = || vec![root(), ok("main\n"), ok(""), ok("?? new\n"), ok("")];
    let (asked, outcome) = run(
        service().list_branches(cwd()),
        all(vec![stored(known), dirty(), clean(), dirty(), clean()]),
    );
    assert_eq!(asked.len(), 23);
    assert_eq!(asked[0], "exists /repo/.forge/branches.json");
    assert_eq!(asked[3], "/repo/sub$ git rev-parse --show-toplevel");
    assert_eq!(asked[5], "/repo$ git checkout z");
    assert_eq!(asked[10], "/repo$ git checkout b");
    assert_eq!(asked[15], "/repo$ git checkout merged");
    assert_eq!(asked[20], "/repo$ git checkout a");
    assert!(asked.iter().all(|a| !a.starts_with("write") && !a.starts_with("store")));
    let listed: Vec<(String, BranchStatus, bool)> =
        outcome.unwrap().into_iter().map(|i| (i.name, i.status, i.has_changes)).collect();
    assert_eq!(
        listed,
        vec![
            ("a".to_string(), BranchStatus::Active, false),
            ("b".to_string(), BranchStatus::Active, false),
            ("z".to_string(), BranchStatus::Active, true),
            ("merged".to_string(), BranchStatus::Merged, true),
        ]
    );
}

#[test]
fn a_branch_that_cannot_be_looked_at_counts_as_clean() {
    let dirty = || vec![root(), ok("main\n"), ok(""), ok("?? new\n"), ok("")];
    for broken in [
        vec![Reply::Failed],
        vec![bad("")],
        vec![root(), Reply::Failed],
        vec![root(), ok("main"), Reply::Failed],
        vec![root(), ok("main"), bad("error: local changes"), ok("")],
        vec![root(), ok("main"), bad("error: local changes"), Reply::Failed],
        vec![root(), ok("main"), ok(""), Reply::Failed],
        vec![root(), ok("main"), ok(""), ok("?? new\n"), Reply::Failed],
    ] {
        let (_, outcome) = run(
            service().list_branches(cwd()),
            all(vec![stored(registry(&["a", "b"])), broken, dirty()]),
        );
        let listed = outcome.unwrap();
        assert_eq!(listed.len(), 2);
        assert!(!listed[0].has_changes);
        assert!(listed[1].has_changes);
    }
}

#[test]
fn without_a_registry_the_listing_is_empty() {
    let (asked, outcome) = run(service().list_branches(cwd()), vec![Reply::Exists(false)]);
    assert_eq!(asked.len(), 1);
    assert!(outcome.unwrap().is_empty());
}

#[test]
fn a_registry_that_cannot_be_read_cannot_be_listed() {
    let (_, outcome) = run(
        service().list_branches(cwd()),
        vec![Reply::Exists(true), Reply::Text("?".to_string()), Reply::Failed],
    );
    assert_eq!(failure(outcome), Some("Failed to parse branches.json"));
}

// The current branch

#[test]
fn the_marker_names_the_current_branch() {
    let (asked, outcome) =
        run(service().get_active_branch(), vec![Reply::Text(" feat/a\n".to_string())]);
    assert_eq!(asked, vec!["read /repo/.forge/current_branch"]);
    assert_eq!(outcome.unwrap(), Some("feat/a".to_string()));
}

#[test]
fn without_a_marker_there_is_no_current_branch() {
    let (_, outcome) = run(service().get_active_branch(), vec![Reply::Failed]);
    assert_eq!(outcome.unwrap(), None);
    let (_, outcome) = run(service().get_active_branch(), vec![Reply::Text("\n".to_string())]);
    assert_eq!(outcome.unwrap(), Some("".to_string()));
}

// Merging

fn merge(
    delete_after: bool,
    replies: Vec<Vec<Reply>>,
) -> (Vec<String>, Result<MergeResult, BranchError>) {
    run(service().merge_branch(cwd(), "feat/a", delete_after), all(replies))
}

#[test]
fn merging_into_main_marks_the_branch_as_merged() {
    let (asked, outcome) = merge(
        false,
        vec![
            vec![root(), ok("feat/a\n"), ok(""), ok(""), ok("Merge made"), ok("cafe\n"), ok("")],
            stored(registry(&["feat/a", "b"])),
            saved(),
        ],
    );
    assert_eq!(
        asked,
        vec![
            "/repo/sub$ git rev-parse --show-toplevel",
            "/repo$ git branch --show-current",
            "/repo$ git rev-parse --verify refs/heads/main",
            "/repo$ git checkout main",
            "/repo$ git merge feat/a --no-ff -m \"Merge branch 'feat/a' into main\"",
            "/repo$ git rev-parse HEAD",
            "/repo$ git checkout feat/a",
            "exists /repo/.forge/branches.json",
            "read /repo/.forge/branches.json",
            "parse {}",
            "exists /repo/.forge",
            "store /repo/.forge/branches.json [feat/a:Merged b:Active] -",
        ]
    );
    let result = outcome.unwrap();
    assert_eq!(result.branch, BranchId::new("feat/a"));
    assert!(result.success);
    assert!(!result.has_conflicts);
    assert_eq!(result.commit_hash, Some("cafe".to_string()));
    assert_eq!(result.message, "Successfully merged 'feat/a' into main");
}

#[test]
fn without_main_the_merge_goes_into_master() {
    let (asked, outcome) = merge(
        false,
        vec![
            vec![root(), ok("x"), bad(""), ok(""), ok(""), ok(""), Reply::Failed, ok("")],
            vec![Reply::Exists(false)],
            saved(),
        ],
    );
    assert_eq!(asked[2], "/repo$ git rev-parse --verify refs/heads/main");
    assert_eq!(asked[3], "/repo$ git rev-parse --verify refs/heads/master");
    assert_eq!(asked[4], "/repo$ git checkout master");
    assert_eq!(
        asked[5],
        "/repo$ git merge feat/a --no-ff -m \"Merge branch 'feat/a' into master\""
    );
    assert_eq!(asked[7], "/repo$ git checkout x");
    assert_eq!(asked[10], "store /repo/.forge/branches.json [] -");
    let result = outcome.unwrap();
    assert_eq!(result.commit_hash, None);
    assert_eq!(result.message, "Successfully merged 'feat/a' into master");
}

#[test]
fn a_conflict_gives_the_merge_up() {
    for conflict in [
        output("CONFLICT (content): Merge conflict in a.txt\n", "", Some(1)),
        output("CONFLICT (content): Merge conflict in a.txt\n", "", None),
        output("Auto-merging a.txt\nCONFLICT (content): in a.txt\n", "", Some(1)),
        output("", "there is a conflict in a file", Some(0)),
    ] {
        let conflict = Reply::Output(conflict);
        let (asked, outcome) = merge(
            true,
            vec![vec![root(), ok("feat/b\n"), ok(""), ok(""), conflict, ok(""), ok("")]],
        );
        assert_eq!(asked.len(), 7);
        assert_eq!(asked[5], "/repo$ git merge --abort");
        assert_eq!(asked[6], "/repo$ git checkout feat/b");
        let result = outcome.unwrap();
        assert!(!result.success);
        assert!(result.has_conflicts);
        assert_eq!(result.branch.as_str(), "feat/a");
        assert_eq!(result.commit_hash, None);
        assert_eq!(
            result.message,
            "Merge conflict detected. Please resolve conflicts in branch 'feat/a' and try again."
        );
    }
}

#[test]
fn a_merge_that_fails_without_conflicts_has_none() {
    let stderr = "merge: fix-conflict - not something we can merge";
    for code in [Some(1), Some(128), None] {
        let failed = Reply::Output(output("", stderr, code));
        let (asked, outcome) = merge(
            false,
            vec![vec![root(), ok("feat/b\n"), ok(""), ok(""), failed, bad("no merge"), ok("")]],
        );
        assert_eq!(asked.len(), 7);
        assert_eq!(asked[5], "/repo$ git merge --abort");
        assert_eq!(asked[6], "/repo$ git checkout feat/b");
        let result = outcome.unwrap();
        assert!(!result.success);
        assert!(!result.has_conflicts);
        assert_eq!(result.branch.as_str(), "feat/a");
        assert_eq!(result.commit_hash, None);
        assert_eq!(
            result.message,
            "Failed to merge 'feat/a' into main: merge: fix-conflict - not something we can merge"
        );
    }
}

#[test]
fn a_base_branch_that_git_does_not_check_out_is_not_merged_into() {
    let (asked, outcome) = merge(
        false,
        vec![vec![root(), ok("x"), ok(""), bad("error: local changes"), bad("")]],
    );
    assert_eq!(asked.len(), 5);
    assert_eq!(asked[4], "/repo$ git checkout x");
    assert_eq!(refusal(outcome), "Failed to checkout base branch: error: local changes");
    let (asked, outcome) = merge(
        true,
        vec![vec![root(), ok("x"), bad(""), ok(""), bad("error"), ok("")]],
    );
    assert_eq!(asked.len(), 6);
    assert_eq!(asked[5], "/repo$ git checkout x");
    assert_eq!(refusal(outcome), "Failed to checkout base branch: error");
    let (_, outcome) = merge(
        false,
        vec![vec![root(), ok("x"), ok(""), bad("error"), Reply::Failed]],
    );
    assert_eq!(failure(outcome), None);
}

#[test]
fn conflicts_are_told_of_by_what_git_writes() {
    assert!(has_conflicts(&output("", "conflicting", Some(0))));
    assert!(has_conflicts(&output("CONFLICT (add/add)", "", Some(1))));
    assert!(has_conflicts(&output("", "CONFLICT (add/add)", None)));
    assert!(!has_conflicts(&output("CONFLICT.md | 2 +-", "CONFLICT Conflict", Some(0))));
    assert!(has_conflicts(&output("Auto-merging a\nCONFLICT (content)", "", Some(1))));
    assert!(!has_conflicts(&output("conflict", "Conflict conflict", Some(1))));
    assert!(!has_conflicts(&output("a CONFLICT", "merge: CONFLICT - no", Some(1))));
    assert!(!has_conflicts(&output("", "", Some(1))));
    assert!(!has_conflicts(&output("", "", None)));
}

#[test]
fn results_of_merges_are_spelled_out() {
    let result = merge_conflict("a");
    assert_eq!(
        result.message,
        "Merge conflict detected. Please resolve conflicts in branch 'a' and try again."
    );
    let result = merge_failure("a", "main", &output("", "fatal: no", Some(128)));
    assert_eq!(result.message, "Failed to merge 'a' into main: fatal: no");
    assert!(!result.has_conflicts);
    let result = merge_failure("a", "main", &output("CONFLICT", "", Some(1)));
    assert!(result.has_conflicts);
    assert!(!result.success);
    let result = merge_success("a", "main", Some("cafe".to_string()));
    assert_eq!(result.message, "Successfully merged 'a' into main");
    assert_eq!(result.commit_hash, Some("cafe".to_string()));
}

#[test]
fn merging_can_delete_the_branch() {
    let start =
        || vec![root(), ok("main\n"), ok(""), ok(""), ok(""), ok("cafe\n"), ok("")];
    let (asked, outcome) = merge(
        true,
        vec![
            start(),
            vec![root(), ok("")],
            stored(registry(&["feat/a"])),
            saved(),
            vec![Reply::Text("main".to_string())],
        ],
    );
    assert!(outcome.unwrap().success);
    assert_eq!(asked[7], "/repo/sub$ git rev-parse --show-toplevel");
    assert_eq!(asked[8], "/repo$ git branch -D feat/a");
    assert_eq!(asked[13], "store /repo/.forge/branches.json [] -");
    assert_eq!(asked[14], "read /repo/.forge/current_branch");

    // The merge stands, whatever becomes of the deletion, and nothing follows it.
    for refused in [vec![root(), bad("error")], vec![Reply::Failed], vec![bad("")]] {
        let n = 7 + refused.len();
        let (asked, outcome) = merge(true, vec![start(), refused]);
        let result = outcome.unwrap();
        assert!(result.success);
        assert_eq!(result.message, "Successfully merged 'feat/a' into main");
        assert_eq!(asked.len(), n);
    }
    let (asked, outcome) = run(
        service().merge_branch(cwd(), "master", true),
        all(vec![start(), vec![root()]]),
    );
    assert!(outcome.unwrap().success);
    assert_eq!(asked.len(), 8);
    assert_eq!(asked[7], "/repo/sub$ git rev-parse --show-toplevel");
}

#[test]
fn without_a_base_branch_the_merge_is_refused() {
    let (asked, outcome) = merge(false, vec![vec![root(), ok("x"), bad(""), bad("")]]);
    assert_eq!(asked.len(), 4);
    assert_eq!(
        refusal(outcome),
        "No base branch found (neither 'main' nor 'master' exists)"
    );
}

#[test]
fn failures_while_merging_have_contexts() {
    let context = |replies: Vec<Reply>| failure(merge(false, vec![replies]).1);
    assert_eq!(context(vec![Reply::Failed]), Some("Failed to get git repository root"));
    assert_eq!(context(vec![root(), Reply::Failed]), None);
    assert_eq!(context(vec![root(), ok("x"), Reply::Failed]), None);
    assert_eq!(context(vec![root(), ok("x"), bad(""), Reply::Failed]), None);
    assert_eq!(
        context(vec![root(), ok("x"), ok(""), Reply::Failed]),
        Some("Failed to checkout base branch")
    );
    assert_eq!(context(vec![root(), ok("x"), ok(""), ok(""), Reply::Failed]), None);
    assert_eq!(context(vec![root(), ok("x"), ok(""), ok(""), bad(""), Reply::Failed]), None);
    let merged = || vec![root(), ok("x"), ok(""), ok(""), ok(""), ok(""), ok("")];
    assert_eq!(
        failure(merge(false, vec![merged(), vec![Reply::Exists(true), Reply::Failed]]).1),
        None
    );
    assert_eq!(
        failure(
            merge(
                false,
                vec![merged(), stored(registry(&[])), vec![Reply::Exists(true), Reply::Failed]]
            )
            .1
        ),
        None
    );
    assert_eq!(
        context(vec![root(), ok("x"), ok(""), ok(""), bad(""), ok(""), Reply::Failed]),
        None
    );
    assert_eq!(
        context(vec![root(), ok("x"), ok(""), ok(""), ok(""), ok(""), Reply::Failed]),
        None
    );
}

// Deleting

fn delete(
    delete_workdir: bool,
    replies: Vec<Vec<Reply>>,
) -> (Vec<String>, Result<(), BranchError>) {
    run(service().delete_branch(cwd(), "feat/a", delete_workdir), all(replies))
}

#[test]
fn deleting_the_current_branch_clears_the_marker() {
    let mut known = registry(&["feat/a", "b"]);
    known.set_active(&BranchId::new("feat/a"));
    let (asked, outcome) = delete(
        false,
        vec![
            vec![root(), ok("")],
            stored(known),
            saved(),
            vec![Reply::Text("feat/a\n".to_string()), Reply::Exists(true), Reply::Done],
        ],
    );
    assert!(outcome.is_ok());
    assert_eq!(
        asked,
        vec![
            "/repo/sub$ git rev-parse --show-toplevel",
            "/repo$ git branch -D feat/a",
            "exists /repo/.forge/branches.json",
            "read /repo/.forge/branches.json",
            "parse {}",
            "exists /repo/.forge",
            "store /repo/.forge/branches.json [b:Active] -",
            "read /repo/.forge/current_branch",
            "exists /repo/.forge/current_branch",
            "remove /repo/.forge/current_branch",
        ]
    );
}

#[test]
fn deleting_another_branch_keeps_the_marker() {
    for marker in [Reply::Text("b\n".to_string()), Reply::Failed] {
        let (asked, outcome) = delete(
            false,
            vec![vec![root(), ok("")], stored(registry(&["b"])), saved(), vec![marker]],
        );
        assert!(outcome.is_ok());
        assert_eq!(asked.len(), 8);
        assert_eq!(asked[6], "store /repo/.forge/branches.json [b:Active] -");
    }
}

#[test]
fn a_marker_that_is_gone_is_not_removed() {
    let (asked, outcome) = delete(
        false,
        vec![
            vec![root(), ok("")],
            stored(registry(&["feat/a"])),
            saved(),
            vec![Reply::Text("feat/a".to_string()), Reply::Exists(false)],
        ],
    );
    assert!(outcome.is_ok());
    assert_eq!(asked.last().unwrap(), "exists /repo/.forge/current_branch");
}

#[test]
fn deleting_can_remove_the_work_directory() {
    let rest = || {
        all(vec![stored(registry(&["feat/a"])), saved(), vec![Reply::Text("b".to_string())]])
    };
    let (asked, outcome) = delete(
        true,
        vec![vec![root(), ok(""), Reply::Exists(true), Reply::Done], rest()],
    );
    assert!(outcome.is_ok());
    assert_eq!(asked[2], "exists /repo/.forge/work/feat/a");
    assert_eq!(asked[3], "rmdir /repo/.forge/work/feat/a");
    assert_eq!(asked[4], "exists /repo/.forge/branches.json");

    let (asked, outcome) = delete(true, vec![vec![root(), ok(""), Reply::Exists(false)], rest()]);
    assert!(outcome.is_ok());
    assert_eq!(asked[2], "exists /repo/.forge/work/feat/a");
    assert_eq!(asked[3], "exists /repo/.forge/branches.json");

    let (_, outcome) =
        delete(true, vec![vec![root(), ok(""), Reply::Exists(true), Reply::Failed]]);
    assert_eq!(failure(outcome), None);
}

#[test]
fn the_base_branch_is_not_deleted() {
    for base in ["main", "master"] {
        let (asked, outcome) = run(service().delete_branch(cwd(), base, true), vec![root()]);
        assert_eq!(asked, vec!["/repo/sub$ git rev-parse --show-toplevel"]);
        assert_eq!(refusal(outcome), "Cannot delete the base branch");
    }
    let (asked, _) = run(service().delete_branch(cwd(), "Main", false), vec![root(), bad("")]);
    assert_eq!(asked[1], "/repo$ git branch -D Main");
}

#[test]
fn deleting_a_branch_that_does_not_exist_is_refused() {
    let (asked, outcome) = delete(true, vec![vec![root(), bad("error: branch not found")]]);
    assert_eq!(refusal(outcome), "Failed to delete git branch: error: branch not found");
    assert_eq!(asked.len(), 2);
}

#[test]
fn deleting_undoes_creating_in_the_registry() {
    let mut known = registry(&["old"]);
    known.add_branch(branch("feat/a"));
    known.set_active(&BranchId::new("feat/a"));
    known.remove(&BranchId::new("feat/a"));
    assert_eq!(show_registry(&known), "[old:Active] -");
}

// Abandoning

#[test]
fn abandoning_marks_the_branch() {
    let mut known = registry(&["feat/a", "b"]);
    known.set_active(&BranchId::new("feat/a"));
    let (asked, outcome) =
        run(service().abandon_branch("feat/a"), all(vec![stored(known), saved()]));
    assert!(outcome.is_ok());
    assert_eq!(
        asked,
        vec![
            "exists /repo/.forge/branches.json",
            "read /repo/.forge/branches.json",
            "parse {}",
            "exists /repo/.forge",
            "store /repo/.forge/branches.json [feat/a:Abandoned b:Active] feat/a",
        ]
    );
}

#[test]
fn abandoning_an_unknown_branch_is_refused() {
    let (asked, outcome) = run(service().abandon_branch("feat/a"), stored(registry(&["b"])));
    assert_eq!(refusal(outcome), "Branch 'feat/a' not found in registry");
    assert_eq!(asked.len(), 3);
    let (_, outcome) = run(service().abandon_branch("feat/a"), vec![Reply::Exists(false)]);
    assert_eq!(refusal(outcome), "Branch 'feat/a' not found in registry");
}

// The registry's file

#[test]
fn loading_gives_back_what_was_saved() {
    let layout = Layout::new(PathBuf::from("/repo/.forge"));
    let mut known = registry(&["b", "a"]);
    known.set_active(&BranchId::new("a"));
    let save = SaveRegistry::begin(known);
    assert_eq!(show(&save.action(&layout)), "exists /repo/.forge");
    let save = match save.next(&Reply::Exists(true)) {
        Progress::Ask(next) => next,
        _ => panic!("the saving ended"),
    };
    let stored = match save.action(&layout) {
        Action::Store { path, registry } => {
            assert_eq!(path, PathBuf::from("/repo/.forge/branches.json"));
            registry
        }
        _ => panic!("nothing is stored"),
    };
    assert!(matches!(save.next(&Reply::Done), Progress::Done(())));

    let mut load = LoadRegistry::Find;
    let mut asked = vec![show(&load.action(&layout))];
    for reply in [Reply::Exists(true), Reply::Text("{}".to_string())] {
        load = match load.next(reply) {
            Progress::Ask(next) => next,
            _ => panic!("the loading ended"),
        };
        asked.push(show(&load.action(&layout)));
    }
    assert_eq!(
        asked,
        vec![
            "exists /repo/.forge/branches.json",
            "read /repo/.forge/branches.json",
            "parse {}",
        ]
    );
    match load.next(Reply::Parsed(stored)) {
        Progress::Done(loaded) => assert_eq!(show_registry(&loaded), "[b:Active a:Active] a"),
        _ => panic!("the loading did not end"),
    }
}

// Replies

#[test]
fn replies_answer_in_kind() {
    assert!(Reply::Exists(true).is_found());
    assert!(!Reply::Exists(false).is_found());
    assert!(!Reply::Done.is_found());
    assert!(Reply::Done.is_done());
    assert!(!Reply::Failed.is_done());
    assert!(output("", "", Some(0)).succeeded());
    assert!(!output("", "", Some(128)).succeeded());
    assert!(!output("", "", None).succeeded());
}

#[test]
fn a_reply_of_another_kind_is_a_failure() {
    let (_, outcome) = create(vec![root(), bad(""), ok(""), Reply::Exists(true)]);
    assert_eq!(failure(outcome), None);
    let (_, outcome) = switch(vec![Reply::Done]);
    assert_eq!(failure(outcome), Some("Failed to get git repository root"));
}
