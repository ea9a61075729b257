//! Branches, the registry and the order of a listing.

use chrono::{NaiveDate, NaiveDateTime, Utc};
use forge_branch::listing::sort_infos;
use forge_branch::{
    AgentId, Branch, BranchId, BranchInfo, BranchRegistry, BranchStatus, MergeResult,
};
use std::path::PathBuf;

fn day(d: u32) -> NaiveDateTime {
    NaiveDate::from_ymd_opt(2024, 5, d).unwrap().and_hms_opt(12, 30, 0).unwrap()
}

fn branch(name: &str, task: &str) -> Branch {
    Branch::created(name, task, PathBuf::from("/w").join(name), day(1))
}

fn info(name: &str, task: &str, status: BranchStatus) -> BranchInfo {
    BranchInfo::from(&branch(name, task).status(status))
}

fn names(infos: &[BranchInfo]) -> Vec<String> {
    infos.iter().map(|i| i.name.clone()).collect()
}

#[test]
fn test_branch_creation() {
    let work_dir = PathBuf::from("/tmp/test-branch");
    let branch = Branch::new("feat/test", "Implement test feature", work_dir.clone());

    assert_eq!(branch.name, "feat/test");
    assert_eq!(branch.task, "Implement test feature");
    assert_eq!(branch.work_dir, work_dir);
    assert_eq!(branch.status, BranchStatus::Active);
    assert!(branch.agent_id.is_none());
}

#[test]
fn test_branch_with_agent() {
    let branch = Branch::new("feat/test", "Task", PathBuf::from("/tmp")).agent(AgentId::forge());

    assert_eq!(branch.agent_id, Some(AgentId::forge()));
}

#[test]
fn test_branch_registry() {
    let mut registry = BranchRegistry::new();
    let branch = Branch::new("feat/a", "Task A", PathBuf::from("/tmp/a"));
    let branch_id = branch.id.clone();

    registry.add_branch(branch);
    assert_eq!(registry.list().len(), 1);

    registry.set_active(&branch_id);
    assert_eq!(registry.active_branch, Some(branch_id.clone()));

    let removed = registry.remove(&branch_id);
    assert!(removed.is_some());
    assert!(registry.active_branch.is_none());
}

#[test]
fn test_branch_info_from_branch() {
    let work_dir = PathBuf::from("/tmp/test");
    let branch = Branch::new("bug/fix", "Fix bug", work_dir);
    let info = BranchInfo::from(&branch);

    assert_eq!(info.name, "bug/fix");
    assert_eq!(info.task, "Fix bug");
    assert_eq!(info.status, BranchStatus::Active);
    assert!(!info.has_changes);
}

#[test]
fn test_branch_id_display() {
    let id = BranchId::new("feat/test");
    assert_eq!(id.to_string(), "feat/test");
    assert_eq!(id.as_str(), "feat/test");
}

#[test]
fn test_branch_status_default() {
    assert_eq!(BranchStatus::default(), BranchStatus::Active);
}

#[test]
fn a_branch_is_named_by_its_id() {
    let b = branch("feat/x", "X");
    assert_eq!(b.id, BranchId::new("feat/x"));
    assert_eq!(b.id.as_str(), b.name);
    assert!(!b.is_dirty());
}

#[test]
fn ids_are_equal_where_their_text_is() {
    assert_eq!(BranchId::new("a"), BranchId::new("a"));
    assert_ne!(BranchId::new("a"), BranchId::new("A"));
    assert_eq!(AgentId::new("forge"), AgentId::forge());
    assert_ne!(AgentId::new("muse"), AgentId::forge());
    assert_eq!(AgentId::forge().as_str(), "forge");
}

#[test]
fn a_new_branch_is_dated_by_the_clock() {
    let before = Utc::now().naive_utc();
    let b = Branch::new("feat/now", "Now", PathBuf::from("/w"));
    let after = Utc::now().naive_utc();
    assert!(before <= b.created_at);
    assert!(b.created_at <= after);
}

#[test]
fn a_branch_can_be_dated_by_the_caller() {
    assert_eq!(branch("feat/x", "X").created_at, day(1));
}

#[test]
fn an_optional_agent_is_set_only_where_given() {
    let b = branch("feat/x", "X").agent_opt(None);
    assert_eq!(b.agent_id, None);
    let b = b.agent_opt(Some(AgentId::new("muse")));
    assert_eq!(b.agent_id, Some(AgentId::new("muse")));
    let b = b.agent_opt(None);
    assert_eq!(b.agent_id, Some(AgentId::new("muse")));
}

#[test]
fn setters_change_one_field_each() {
    let b = branch("feat/x", "X")
        .id(BranchId::new("id"))
        .name("name".to_string())
        .task("task".to_string())
        .work_dir(PathBuf::from("/elsewhere"))
        .agent_id(AgentId::forge())
        .created_at(day(2))
        .status(BranchStatus::Merged);
    assert_eq!(b.id, BranchId::new("id"));
    assert_eq!(b.name, "name");
    assert_eq!(b.task, "task");
    assert_eq!(b.work_dir, PathBuf::from("/elsewhere"));
    assert_eq!(b.agent_id, Some(AgentId::forge()));
    assert_eq!(b.created_at, day(2));
    assert_eq!(b.status, BranchStatus::Merged);
}

#[test]
fn a_branch_info_tells_of_its_branch() {
    let b = branch("feat/x", "X").agent(AgentId::forge()).status(BranchStatus::Abandoned);
    let i = BranchInfo::from(&b);
    assert_eq!(i.id, b.id);
    assert_eq!(i.name, "feat/x");
    assert_eq!(i.task, "X");
    assert_eq!(i.work_dir, PathBuf::from("/w/feat/x"));
    assert_eq!(i.agent_id, Some(AgentId::forge()));
    assert_eq!(i.status, BranchStatus::Abandoned);
    assert_eq!(i.created_at, day(1));
    assert!(!i.has_changes);
    let copy = i.clone();
    assert_eq!(copy.name, "feat/x");
    assert_eq!(copy.work_dir, PathBuf::from("/w/feat/x"));
}

#[test]
fn clones_hold_the_same() {
    let b = branch("feat/x", "X").agent(AgentId::forge());
    let c = b.clone();
    assert_eq!(c.id, b.id);
    assert_eq!(c.work_dir, b.work_dir);
    assert_eq!(c.agent_id, b.agent_id);
    assert_eq!(c.created_at, b.created_at);

    let mut r = BranchRegistry::default();
    r.add_branch(b);
    r.set_active(&BranchId::new("feat/x"));
    let s = r.clone();
    assert_eq!(s.list().len(), 1);
    assert_eq!(s.list()[0].name, "feat/x");
    assert_eq!(s.active_branch, Some(BranchId::new("feat/x")));

    let m = MergeResult {
        branch: BranchId::new("feat/x"),
        success: true,
        has_conflicts: false,
        commit_hash: Some("abc".to_string()),
        message: "ok".to_string(),
    };
    let n = m.clone();
    assert_eq!(n.branch, m.branch);
    assert_eq!(n.commit_hash, Some("abc".to_string()));
    assert_eq!(n.message, "ok");
}

#[test]
fn the_first_branch_under_an_id_is_found() {
    let mut r = BranchRegistry::new();
    r.add_branch(branch("a", "one"));
    r.add_branch(branch("b", "two"));
    r.add_branch(branch("a", "three"));
    assert_eq!(r.get(&BranchId::new("a")).unwrap().task, "one");
    assert_eq!(r.get(&BranchId::new("b")).unwrap().task, "two");
    assert!(r.get(&BranchId::new("c")).is_none());
}

#[test]
fn a_branch_can_be_changed_in_place() {
    let mut r = BranchRegistry::new();
    r.add_branch(branch("a", "one"));
    r.add_branch(branch("b", "two"));
    r.get_mut(&BranchId::new("b")).unwrap().status = BranchStatus::Merged;
    assert!(r.get_mut(&BranchId::new("c")).is_none());
    assert_eq!(r.list()[0].status, BranchStatus::Active);
    assert_eq!(r.list()[1].status, BranchStatus::Merged);
}

#[test]
fn removing_undoes_adding() {
    let mut r = BranchRegistry::new();
    r.add_branch(branch("a", "one"));
    r.add_branch(branch("b", "two"));
    let removed = r.remove(&BranchId::new("b")).unwrap();
    assert_eq!(removed.task, "two");
    assert_eq!(r.list().len(), 1);
    assert_eq!(r.list()[0].name, "a");
    assert!(r.remove(&BranchId::new("b")).is_none());
    assert_eq!(r.list().len(), 1);
}

#[test]
fn removing_takes_the_first_and_keeps_the_order() {
    let mut r = BranchRegistry::new();
    r.add_branch(branch("a", "one"));
    r.add_branch(branch("b", "two"));
    r.add_branch(branch("a", "three"));
    assert_eq!(r.remove(&BranchId::new("a")).unwrap().task, "one");
    assert_eq!(r.list()[0].task, "two");
    assert_eq!(r.list()[1].task, "three");
    assert_eq!(r.get(&BranchId::new("a")).unwrap().task, "three");
}

#[test]
fn removing_another_branch_keeps_the_active_one() {
    let mut r = BranchRegistry::new();
    r.add_branch(branch("a", "one"));
    r.add_branch(branch("b", "two"));
    r.set_active(&BranchId::new("a"));
    r.remove(&BranchId::new("b"));
    assert_eq!(r.active_branch, Some(BranchId::new("a")));
}

#[test]
fn an_unknown_active_branch_is_cleared_by_its_removal() {
    let mut r = BranchRegistry::new();
    r.active_branch = Some(BranchId::new("gone"));
    assert!(r.remove(&BranchId::new("gone")).is_none());
    assert_eq!(r.active_branch, None);
}

#[test]
fn only_known_branches_become_active() {
    let mut r = BranchRegistry::new();
    r.add_branch(branch("a", "one"));
    assert!(r.set_active(&BranchId::new("b")).is_none());
    assert_eq!(r.active_branch, None);
    assert_eq!(r.set_active(&BranchId::new("a")).unwrap().task, "one");
    assert!(r.set_active(&BranchId::new("b")).is_none());
    assert_eq!(r.active_branch, Some(BranchId::new("a")));
}

#[test]
fn the_last_activation_counts() {
    let mut r = BranchRegistry::new();
    r.add_branch(branch("a", "one"));
    r.add_branch(branch("b", "two"));
    r.set_active(&BranchId::new("a"));
    r.set_active(&BranchId::new("b"));
    assert_eq!(r.active_branch, Some(BranchId::new("b")));
}

#[test]
fn active_branches_are_listed_in_order() {
    let mut r = BranchRegistry::new();
    r.add_branch(branch("c", "1"));
    r.add_branch(branch("b", "2").status(BranchStatus::Merged));
    r.add_branch(branch("a", "3"));
    r.add_branch(branch("d", "4").status(BranchStatus::Abandoned));
    let active: Vec<&str> = r.active_branches().iter().map(|b| b.name.as_str()).collect();
    assert_eq!(active, vec!["c", "a"]);
    assert_eq!(r.list().len(), 4);
}

#[test]
fn a_listing_goes_by_status_then_by_name() {
    let sorted = sort_infos(vec![
        info("z", "", BranchStatus::Active),
        info("a", "", BranchStatus::Abandoned),
        info("m", "", BranchStatus::Merged),
        info("b", "", BranchStatus::Active),
        info("c", "", BranchStatus::Merged),
    ]);
    assert_eq!(names(&sorted), vec!["b", "z", "c", "m", "a"]);
}

#[test]
fn names_are_ordered_by_their_bytes() {
    let sorted = sort_infos(vec![
        info("b", "", BranchStatus::Active),
        info("ab", "", BranchStatus::Active),
        info("\u{e9}", "", BranchStatus::Active),
        info("a", "", BranchStatus::Active),
        info("Z", "", BranchStatus::Active),
        info("", "", BranchStatus::Active),
        info("z", "", BranchStatus::Active),
        info("\u{ffff}", "", BranchStatus::Active),
        info("\u{10000}", "", BranchStatus::Active),
    ]);
    assert_eq!(
        names(&sorted),
        vec!["", "Z", "a", "ab", "b", "z", "\u{e9}", "\u{ffff}", "\u{10000}"]
    );
}

#[test]
fn a_listing_keeps_the_order_of_ties() {
    let sorted = sort_infos(vec![
        info("a", "first", BranchStatus::Active),
        info("b", "other", BranchStatus::Active),
        info("a", "second", BranchStatus::Active),
        info("a", "third", BranchStatus::Active),
    ]);
    let tasks: Vec<&str> = sorted.iter().map(|i| i.task.as_str()).collect();
    assert_eq!(tasks, vec!["first", "second", "third", "other"]);
}

#[test]
fn a_listing_of_nothing_is_empty() {
    assert!(sort_infos(Vec::new()).is_empty());
}
