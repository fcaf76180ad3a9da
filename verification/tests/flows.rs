use g_cli::error::GError;
use g_cli::flow::{GitCommand, GitQuery, Kind, Query, Reply, Step, Workflow};
use g_cli::pull::PullFlow;
use g_cli::revert::RevertInfo;
use g_cli::time_travel::TravelFlow;

fn ran_ok() -> Reply {
    Reply::Ran(Ok(()))
}

#[test]
fn git_arguments() {
    assert_eq!(GitCommand::AddAll.args(), vec!["add", "-A"]);
    assert_eq!(GitCommand::Commit("m".to_string()).args(), vec!["commit", "-m", "m"]);
    assert_eq!(GitCommand::PushSetUpstream.args(), vec!["push", "--set-upstream", "origin", "HEAD"]);
    assert_eq!(GitCommand::PullRebase.args(), vec!["pull", "--rebase"]);
    assert_eq!(GitCommand::UndoLastCommit.args(), vec!["reset", "--soft", "HEAD~1"]);
    assert_eq!(GitCommand::DropLastCommit.args(), vec!["reset", "--hard", "HEAD~1"]);
    assert_eq!(GitCommand::Revert("abc".to_string()).args(), vec!["revert", "--no-edit", "abc"]);
    assert_eq!(GitCommand::Checkout("main".to_string()).args(), vec!["checkout", "main"]);
    assert_eq!(GitQuery::StatusPorcelain.args(), vec!["status", "--porcelain"]);
    assert_eq!(GitQuery::Unpushed.args(), vec!["log", "@{u}..HEAD", "--oneline"]);
    assert_eq!(GitQuery::Verify("main".to_string()).args(), vec!["rev-parse", "--verify", "main"]);
}

#[test]
fn commit_with_co_authors_and_a_tracked_remote() {
    let (mut w, step) = Workflow::commit("msg".to_string(), true);
    assert!(matches!(step, Step::Ask(Query::Rebasing)));
    assert!(matches!(w.advance(Reply::Answer(false)), Step::Ask(Query::DetachedHead)));
    assert!(matches!(w.advance(Reply::Answer(false)), Step::FormatPostfix));
    assert!(matches!(
        w.advance(Reply::Postfix(Ok("\n\n(Solo-work)".to_string()))),
        Step::Run(GitCommand::AddAll)
    ));
    match w.advance(ran_ok()) {
        Step::Run(GitCommand::Commit(m)) => assert_eq!(m, "msg\n\n(Solo-work)"),
        _ => panic!("expected the commit"),
    }
    assert!(matches!(w.advance(ran_ok()), Step::Ask(Query::HasRemote)));
    assert!(matches!(w.advance(Reply::Answer(true)), Step::Ask(Query::HasRemoteTracking)));
    assert!(matches!(w.advance(Reply::Answer(true)), Step::Run(GitCommand::PullRebase)));
    assert!(matches!(w.advance(ran_ok()), Step::Run(GitCommand::Push)));
    assert!(matches!(w.advance(ran_ok()), Step::Done(Ok(()))));
}

#[test]
fn commit_guards_refuse() {
    let (mut w, _) = Workflow::commit("m".to_string(), false);
    assert!(matches!(w.advance(Reply::Answer(true)), Step::Done(Err(GError::Rebasing))));
    let (mut w, _) = Workflow::commit("m".to_string(), false);
    w.advance(Reply::Answer(false));
    assert!(matches!(w.advance(Reply::Answer(true)), Step::Done(Err(GError::TimeTravelling))));
    let (mut w, _) = Workflow::commit("m".to_string(), false);
    w.advance(Reply::Answer(false));
    assert!(matches!(w.advance(Reply::Answer(false)), Step::Ask(Query::CoAuthorsRequired)));
    assert!(matches!(w.advance(Reply::Answer(true)), Step::Done(Err(GError::CoAuthorsMissing))));
}

#[test]
fn commit_without_remote_or_tracking() {
    let (mut w, _) = Workflow::commit("m".to_string(), false);
    w.advance(Reply::Answer(false));
    w.advance(Reply::Answer(false));
    assert!(matches!(w.advance(Reply::Answer(false)), Step::FormatPostfix));
    w.advance(Reply::Postfix(Ok(String::new())));
    w.advance(ran_ok());
    w.advance(ran_ok());
    assert!(matches!(w.advance(Reply::Answer(false)), Step::Done(Ok(()))));

    let (mut w, _) = Workflow::commit("m".to_string(), true);
    w.advance(Reply::Answer(false));
    w.advance(Reply::Answer(false));
    w.advance(Reply::Postfix(Ok(String::new())));
    w.advance(ran_ok());
    w.advance(ran_ok());
    w.advance(Reply::Answer(true));
    assert!(matches!(w.advance(Reply::Answer(false)), Step::Run(GitCommand::PushSetUpstream)));
    assert!(matches!(w.advance(ran_ok()), Step::Done(Ok(()))));
}

#[test]
fn commit_failures_end_the_run() {
    let (mut w, _) = Workflow::commit("m".to_string(), true);
    w.advance(Reply::Answer(false));
    w.advance(Reply::Answer(false));
    assert!(matches!(
        w.advance(Reply::Postfix(Err(GError::UnknownAlias("z".to_string())))),
        Step::Done(Err(GError::UnknownAlias(_)))
    ));
    let (mut w, _) = Workflow::commit("m".to_string(), true);
    w.advance(Reply::Answer(false));
    w.advance(Reply::Answer(false));
    w.advance(Reply::Postfix(Ok(String::new())));
    match w.advance(Reply::Ran(Err("nothing to add".to_string()))) {
        Step::Done(Err(GError::Failed(m))) => assert_eq!(m, "nothing to add"),
        _ => panic!("expected a failure"),
    }
}

#[test]
fn pull_conflict_warns_then_fails() {
    let (mut w, _) = Workflow::commit("m".to_string(), true);
    w.advance(Reply::Answer(false));
    w.advance(Reply::Answer(false));
    w.advance(Reply::Postfix(Ok(String::new())));
    w.advance(ran_ok());
    w.advance(ran_ok());
    w.advance(Reply::Answer(true));
    w.advance(Reply::Answer(true));
    match w.advance(Reply::Ran(Err("conflict".to_string()))) {
        Step::Warn(text) => assert_eq!(
            text,
            "\nAfter resolving the conflict, run\n  g c --resolve\nOr run\n  g c --abort\nTo give up (will softly reset your commit)"
        ),
        _ => panic!("expected a warning"),
    }
    assert!(matches!(w.advance(Reply::Shown), Step::Done(Err(GError::RebaseConflict))));
}

#[test]
fn interactive_revert_asks_first() {
    let (mut w, step) = Workflow::revert("HEAD".to_string(), true);
    assert!(matches!(step, Step::Ask(Query::DetachedHead)));
    match w.advance(Reply::Answer(false)) {
        Step::Describe(r) => assert_eq!(r, "HEAD"),
        _ => panic!("expected a description"),
    }
    let info = RevertInfo::from_commit("abc", Some("Fix".to_string()), Some("Ann".to_string()));
    match w.advance(Reply::Described(Ok(info))) {
        Step::Confirm(q) => assert_eq!(
            q,
            "\u{23ea} Revert Commit: abc - \"Fix\" (by Ann)\nAre you sure you want to revert this commit?"
        ),
        _ => panic!("expected a confirmation"),
    }
    match w.advance(Reply::Confirmed(Ok(true))) {
        Step::FullHash(r) => assert_eq!(r, "HEAD"),
        _ => panic!("expected the hash"),
    }
    match w.advance(Reply::Output(Ok("abcdef0123\n".to_string()))) {
        Step::Run(GitCommand::Revert(h)) => assert_eq!(h, "abcdef0123"),
        _ => panic!("expected the revert"),
    }
    assert!(matches!(w.advance(ran_ok()), Step::Ask(Query::HasRemote)));
    assert!(matches!(w.advance(Reply::Answer(false)), Step::Done(Ok(()))));
}

#[test]
fn declined_revert_says_aborted() {
    let (mut w, _) = Workflow::revert("HEAD".to_string(), true);
    w.advance(Reply::Answer(false));
    let info = RevertInfo::from_commit("abc", None, None);
    w.advance(Reply::Described(Ok(info)));
    match w.advance(Reply::Confirmed(Ok(false))) {
        Step::Say(s) => assert_eq!(s, "Aborted."),
        _ => panic!("expected a note"),
    }
    assert!(matches!(w.advance(Reply::Shown), Step::Done(Ok(()))));
}

#[test]
fn noninteractive_revert_goes_straight_to_the_hash() {
    let (mut w, _) = Workflow::revert("abc".to_string(), false);
    w.advance(Reply::Answer(false));
    let info = RevertInfo::from_commit("abc", None, None);
    assert!(matches!(w.advance(Reply::Described(Ok(info))), Step::FullHash(_)));
    let (mut w, _) = Workflow::revert("abc".to_string(), false);
    assert!(matches!(w.advance(Reply::Answer(true)), Step::Done(Err(GError::TimeTravelling))));
}

#[test]
fn resolve_and_abort() {
    let (mut w, step) = Workflow::resolve(Kind::Commit);
    assert!(matches!(step, Step::Ask(Query::ConflictMarkers)));
    match w.advance(Reply::Answer(true)) {
        Step::Done(Err(GError::ConflictMarkersLeft(c))) => assert_eq!(c, "g c"),
        _ => panic!("expected markers left"),
    }
    let (mut w, _) = Workflow::resolve(Kind::Revert);
    assert!(matches!(w.advance(Reply::Answer(false)), Step::Run(GitCommand::AddAll)));
    assert!(matches!(w.advance(ran_ok()), Step::Run(GitCommand::RebaseContinue)));
    assert!(matches!(w.advance(ran_ok()), Step::Run(GitCommand::Push)));
    assert!(matches!(w.advance(ran_ok()), Step::Done(Ok(()))));

    let (mut w, step) = Workflow::abort(Kind::Commit);
    assert!(matches!(step, Step::Run(GitCommand::RebaseAbort)));
    assert!(matches!(w.advance(ran_ok()), Step::Run(GitCommand::UndoLastCommit)));
    assert!(matches!(w.advance(ran_ok()), Step::Done(Ok(()))));
    let (mut w, _) = Workflow::abort(Kind::Revert);
    assert!(matches!(w.advance(ran_ok()), Step::Run(GitCommand::DropLastCommit)));
}

#[test]
fn pull_checks_before_pulling() {
    let (mut p, step) = PullFlow::start();
    assert!(matches!(step, Step::Capture(GitQuery::StatusPorcelain)));
    assert!(matches!(p.advance(Reply::Output(Ok("\n".to_string()))), Step::Capture(GitQuery::Unpushed)));
    assert!(matches!(p.advance(Reply::Output(Ok(String::new()))), Step::Run(GitCommand::PullRebase)));
    assert!(matches!(p.advance(ran_ok()), Step::Done(Ok(()))));

    let (mut p, _) = PullFlow::start();
    assert!(matches!(
        p.advance(Reply::Output(Ok(" M a.txt\n".to_string()))),
        Step::Done(Err(GError::UncommittedChanges))
    ));
    let (mut p, _) = PullFlow::start();
    p.advance(Reply::Output(Ok(String::new())));
    assert!(matches!(
        p.advance(Reply::Output(Ok("abc1 one\n".to_string()))),
        Step::Done(Err(GError::UnpushedCommits))
    ));
    let (mut p, _) = PullFlow::start();
    p.advance(Reply::Output(Ok(String::new())));
    assert!(matches!(
        p.advance(Reply::Output(Err("no upstream".to_string()))),
        Step::Run(GitCommand::PullRebase)
    ));
}

#[test]
fn travel_now_finds_the_default_branch() {
    let (mut t, step) = TravelFlow::start("now".to_string());
    assert!(matches!(step, Step::Capture(GitQuery::OriginHead)));
    match t.advance(Reply::Output(Ok("refs/remotes/origin/trunk\n".to_string()))) {
        Step::Run(GitCommand::Checkout(b)) => assert_eq!(b, "trunk"),
        _ => panic!("expected a checkout"),
    }
    assert!(matches!(t.advance(ran_ok()), Step::Done(Ok(()))));

    let (mut t, _) = TravelFlow::start("now".to_string());
    assert!(matches!(t.advance(Reply::Output(Err("none".to_string()))), Step::Capture(GitQuery::Verify(_))));
    assert!(matches!(t.advance(Reply::Output(Err("none".to_string()))), Step::Capture(GitQuery::Verify(_))));
    match t.advance(Reply::Output(Err("none".to_string()))) {
        Step::Run(GitCommand::Checkout(b)) => assert_eq!(b, "main"),
        _ => panic!("expected main"),
    }
}

#[test]
fn travel_to_a_time_or_a_revision() {
    let (mut t, step) = TravelFlow::start("2 hours ago".to_string());
    assert!(matches!(step, Step::IsBranch(_)));
    assert!(matches!(t.advance(Reply::Checked(Ok(false))), Step::WalkHistory));
    let walk = vec![("new".to_string(), 9_000), ("old".to_string(), 2_000)];
    match t.advance(Reply::History(10_000, walk)) {
        Step::Run(GitCommand::Checkout(h)) => assert_eq!(h, "old"),
        _ => panic!("expected a checkout"),
    }

    let (mut t, _) = TravelFlow::start("main".to_string());
    match t.advance(Reply::Checked(Ok(true))) {
        Step::Done(Err(GError::BranchName(n))) => assert_eq!(n, "main"),
        _ => panic!("expected a branch refusal"),
    }

    let (mut t, _) = TravelFlow::start("abc123".to_string());
    assert!(matches!(t.advance(Reply::Checked(Ok(false))), Step::Capture(GitQuery::Verify(_))));
    match t.advance(Reply::Output(Ok("abc123ff\n".to_string()))) {
        Step::Peel(h) => assert_eq!(h, "abc123ff"),
        _ => panic!("expected a peel"),
    }
    match t.advance(Reply::Peeled(Ok(None))) {
        Step::Done(Err(GError::NotACommit(n))) => assert_eq!(n, "abc123"),
        _ => panic!("expected not a commit"),
    }
}
