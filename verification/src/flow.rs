//! The steps of `g c` and `g rv` (with `--resolve` and `--abort`): a state
//! machine that decides, from each answer the driver hands back, what to do
//! next. The driver performs the steps (runs git, asks the user, prints) and
//! owns nothing of the decisions.
use vstd::prelude::*;
use vstd::string::StringExecFns;
use crate::error::GError;
use crate::revert::{prompt_text, revert_prompt, RevertInfo};
use crate::text::{trim, trimmed};

verus! {

/// A yes/no question about the repository or the settings.
pub enum Query {
    /// A rebase is in progress.
    Rebasing,
    /// HEAD is detached.
    DetachedHead,
    /// The settings require co-authors.
    CoAuthorsRequired,
    /// A remote is configured.
    HasRemote,
    /// The current branch tracks a remote branch.
    HasRemoteTracking,
    /// A conflicted file still holds conflict markers.
    ConflictMarkers,
}

/// A git command whose output goes to the user.
pub enum GitCommand {
    AddAll,
    Commit(String),
    PushSetUpstream,
    PullRebase,
    Push,
    RebaseContinue,
    RebaseAbort,
    /// `reset --soft HEAD~1`: undo the last commit, keep its changes.
    UndoLastCommit,
    /// `reset --hard HEAD~1`: drop the last commit and its changes.
    DropLastCommit,
    Revert(String),
    Log,
    Status,
    Diff,
    /// Run quietly: `g tt` prints nothing of git's own.
    Checkout(String),
}

/// A git command whose output the driver hands back.
pub enum GitQuery {
    /// `status --porcelain`
    StatusPorcelain,
    /// `log @{u}..HEAD --oneline`
    Unpushed,
    /// `symbolic-ref refs/remotes/origin/HEAD`, run quietly.
    OriginHead,
    /// `rev-parse --verify`, run quietly for the `main`/`master` probes.
    Verify(String),
}

/// What the driver must do next.
pub enum Step {
    /// Answer the question with `Reply::Answer`.
    Ask(Query),
    /// Run the git command; hand back `Reply::Ran`.
    Run(GitCommand),
    /// Run `git rev-parse` on the reference; hand back `Reply::Output`.
    FullHash(String),
    /// Run the git query; hand back `Reply::Output`.
    Capture(GitQuery),
    /// Say whether the name is a local or remote branch; hand back
    /// `Reply::Checked` (an error when the repository cannot be opened).
    IsBranch(String),
    /// Walk HEAD's history newest first; hand back `Reply::History` with the
    /// current time (an empty walk when HEAD cannot be walked).
    WalkHistory,
    /// Resolve the revision to a commit id; hand back `Reply::Peeled`.
    Peel(String),
    /// Format the co-author postfix; hand back `Reply::Postfix`.
    FormatPostfix,
    /// Describe the commit the reference names; hand back `Reply::Described`.
    Describe(String),
    /// Ask the user to confirm; hand back `Reply::Confirmed`.
    Confirm(String),
    /// Print the line on standard output; hand back `Reply::Shown`.
    Say(String),
    /// Print the text on standard error; hand back `Reply::Shown`.
    Warn(String),
    /// The command is over, with this outcome.
    Done(Result<(), GError>),
}

/// What the driver hands back for a step.
pub enum Reply {
    Answer(bool),
    /// The command succeeded, or failed with this message.
    Ran(Result<(), String>),
    Output(Result<String, String>),
    Postfix(Result<String, GError>),
    Described(Result<RevertInfo, String>),
    Confirmed(Result<bool, String>),
    Shown,
    Checked(Result<bool, String>),
    /// Seconds since the epoch, and `(commit id, commit time)` newest first.
    History(u64, Vec<(String, i64)>),
    /// The commit id; `None` when the revision names no commit; an error
    /// when it cannot be parsed.
    Peeled(Result<Option<String>, String>),
}

/// The arguments git is run with for a command.
pub open spec fn git_args(c: GitCommand) -> Seq<Seq<char>> {
    match c {
        GitCommand::AddAll => seq!["add"@, "-A"@],
        GitCommand::Commit(m) => seq!["commit"@, "-m"@, m@],
        GitCommand::PushSetUpstream => seq!["push"@, "--set-upstream"@, "origin"@, "HEAD"@],
        GitCommand::PullRebase => seq!["pull"@, "--rebase"@],
        GitCommand::Push => seq!["push"@],
        GitCommand::RebaseContinue => seq!["rebase"@, "--continue"@],
        GitCommand::RebaseAbort => seq!["rebase"@, "--abort"@],
        GitCommand::UndoLastCommit => seq!["reset"@, "--soft"@, "HEAD~1"@],
        GitCommand::DropLastCommit => seq!["reset"@, "--hard"@, "HEAD~1"@],
        GitCommand::Revert(h) => seq!["revert"@, "--no-edit"@, h@],
        GitCommand::Log => seq!["log"@],
        GitCommand::Status => seq!["status"@],
        GitCommand::Diff => seq!["diff"@],
        GitCommand::Checkout(t) => seq!["checkout"@, t@],
    }
}

/// The arguments git is run with for a query.
pub open spec fn query_args(q: GitQuery) -> Seq<Seq<char>> {
    match q {
        GitQuery::StatusPorcelain => seq!["status"@, "--porcelain"@],
        GitQuery::Unpushed => seq!["log"@, "@{u}..HEAD"@, "--oneline"@],
        GitQuery::OriginHead => seq!["symbolic-ref"@, "refs/remotes/origin/HEAD"@],
        GitQuery::Verify(r) => seq!["rev-parse"@, "--verify"@, r@],
    }
}

/// The views of a sequence of strings.
pub open spec fn arg_views(v: Seq<String>) -> Seq<Seq<char>> {
    v.map_values(|s: String| s@)
}

fn strings(parts: Vec<&str>) -> (r: Vec<String>)
    ensures
        arg_views(r@) == parts@.map_values(|p: &str| p@),
{
    let mut r: Vec<String> = Vec::new();
    let mut i: usize = 0;
    while i < parts.len()
        invariant
            i <= parts@.len(),
            r@.len() == i,
            arg_views(r@) == parts@.take(i as int).map_values(|p: &str| p@),
        decreases parts@.len() - i,
    {
        let ghost before = r@;
        let piece = String::from_str(parts[i]);
        r.push(piece);
        proof {
            assert forall|j: int| 0 <= j < i + 1 implies #[trigger] arg_views(r@)[j]
                == parts@.take(i + 1 as int).map_values(|p: &str| p@)[j] by {
                if j < i {
                    assert(r@[j] == before[j]);
                    assert(arg_views(before)[j] == parts@.take(i as int).map_values(|p: &str| p@)[j]);
                } else {
                    assert(r@[j] == piece);
                }
            }
        }
        i = i + 1;
        assert(arg_views(r@) =~= parts@.take(i as int).map_values(|p: &str| p@));
    }
    assert(parts@.take(i as int) =~= parts@);
    r
}

impl GitCommand {
    /// The arguments git is run with.
    pub fn args(&self) -> (r: Vec<String>)
        ensures
            arg_views(r@) == git_args(*self),
    {
        let r = match self {
            GitCommand::AddAll => strings(vec!["add", "-A"]),
            GitCommand::Commit(m) => strings(vec!["commit", "-m", m.as_str()]),
            GitCommand::PushSetUpstream => strings(vec!["push", "--set-upstream", "origin", "HEAD"]),
            GitCommand::PullRebase => strings(vec!["pull", "--rebase"]),
            GitCommand::Push => strings(vec!["push"]),
            GitCommand::RebaseContinue => strings(vec!["rebase", "--continue"]),
            GitCommand::RebaseAbort => strings(vec!["rebase", "--abort"]),
            GitCommand::UndoLastCommit => strings(vec!["reset", "--soft", "HEAD~1"]),
            GitCommand::DropLastCommit => strings(vec!["reset", "--hard", "HEAD~1"]),
            GitCommand::Revert(h) => strings(vec!["revert", "--no-edit", h.as_str()]),
            GitCommand::Log => strings(vec!["log"]),
            GitCommand::Status => strings(vec!["status"]),
            GitCommand::Diff => strings(vec!["diff"]),
            GitCommand::Checkout(t) => strings(vec!["checkout", t.as_str()]),
        };
        assert(arg_views(r@) =~= git_args(*self));
        r
    }
}

impl GitQuery {
    /// The arguments git is run with.
    pub fn args(&self) -> (r: Vec<String>)
        ensures
            arg_views(r@) == query_args(*self),
    {
        let r = match self {
            GitQuery::StatusPorcelain => strings(vec!["status", "--porcelain"]),
            GitQuery::Unpushed => strings(vec!["log", "@{u}..HEAD", "--oneline"]),
            GitQuery::OriginHead => strings(vec!["symbolic-ref", "refs/remotes/origin/HEAD"]),
            GitQuery::Verify(r) => strings(vec!["rev-parse", "--verify", r.as_str()]),
        };
        assert(arg_views(r@) =~= query_args(*self));
        r
    }
}

/// Which command a workflow belongs to.
#[derive(Clone, Copy)]
pub enum Kind {
    Commit,
    Revert,
}

/// Where a workflow stands: the step it issued last and awaits the reply to.
#[derive(Clone, Copy)]
pub enum Stage {
    CheckRebasing,
    CheckDetached,
    CheckRequired,
    AwaitPostfix,
    Adding,
    Committing,
    Describing,
    Confirming,
    SaidAborted,
    FetchingHash,
    Reverting,
    CheckRemote,
    CheckTracking,
    SettingUpstream,
    Pulling,
    Warned,
    Pushing,
    CheckMarkers,
    ResolveAdding,
    Continuing,
    AbortingRebase,
    Resetting,
    Finished,
}

/// A `g c` or `g rv` run in progress.
pub struct Workflow {
    pub kind: Kind,
    pub stage: Stage,
    /// The commit message (and, once formatted, with its postfix), or the
    /// reference to revert.
    pub text: String,
    /// Co-authors or `SOLO` were given.
    pub explicit: bool,
    /// The user is asked before reverting.
    pub interactive: bool,
}

/// The reply a stage awaits.
pub open spec fn expects(stage: Stage, reply: Reply) -> bool {
    match stage {
        Stage::CheckRebasing | Stage::CheckDetached | Stage::CheckRequired | Stage::CheckRemote
        | Stage::CheckTracking | Stage::CheckMarkers => reply is Answer,
        Stage::AwaitPostfix => reply is Postfix,
        Stage::Describing => reply is Described,
        Stage::Confirming => reply is Confirmed,
        Stage::FetchingHash => reply is Output,
        Stage::SaidAborted | Stage::Warned => reply is Shown,
        Stage::Finished => false,
        _ => reply is Ran,
    }
}

/// The text printed when pulling after a local change fails.
pub open spec fn conflict_help(kind: Kind) -> Seq<char> {
    match kind {
        Kind::Commit => "\nAfter resolving the conflict, run\n  g c --resolve\nOr run\n  g c --abort\nTo give up (will softly reset your commit)"@,
        Kind::Revert => "\nAfter resolving the conflict, run\n  g rv --resolve\nOr run\n  g rv --abort\nTo give up (will permanently delete the revert commit)"@,
    }
}

/// The command to run again after resolving.
pub open spec fn command_name(kind: Kind) -> Seq<char> {
    match kind {
        Kind::Commit => "g c"@,
        Kind::Revert => "g rv"@,
    }
}

/// A git failure as a command outcome.
pub open spec fn failed(message: String) -> Step {
    Step::Done(Err(GError::Failed(message)))
}

/// The step after a git command: on failure the command ends with its
/// message; on success, `then`.
pub open spec fn after_git(reply: Reply, then: Step, step: Step) -> bool {
    match reply {
        Reply::Ran(Err(m)) => step == failed(m),
        _ => step == then,
    }
}

/// One move of a workflow: from `old` and the driver's `reply`, the
/// workflow becomes `new` and asks for `step`. Everything but the stage and
/// the text stays as it was.
pub open spec fn moves(old: Workflow, reply: Reply, new: Workflow, step: Step) -> bool {
    &&& new.kind == old.kind
    &&& new.explicit == old.explicit
    &&& new.interactive == old.interactive
    &&& (new.stage != Stage::Finished <==> !(step is Done))
    &&& match old.stage {
        Stage::CheckRebasing => if reply == Reply::Answer(true) {
            step == Step::Done(Err(GError::Rebasing))
        } else {
            new.stage == Stage::CheckDetached && step == Step::Ask(Query::DetachedHead)
                && new.text == old.text
        },
        Stage::CheckDetached => if reply == Reply::Answer(true) {
            step == Step::Done(Err(GError::TimeTravelling))
        } else {
            match old.kind {
                Kind::Commit => if old.explicit {
                    new.stage == Stage::AwaitPostfix && step == Step::FormatPostfix && new.text
                        == old.text
                } else {
                    new.stage == Stage::CheckRequired && step == Step::Ask(
                        Query::CoAuthorsRequired,
                    ) && new.text == old.text
                },
                Kind::Revert => new.stage == Stage::Describing && new.text == old.text && (
                step matches Step::Describe(h) && h@ == old.text@),
            }
        },
        Stage::CheckRequired => if reply == Reply::Answer(true) {
            step == Step::Done(Err(GError::CoAuthorsMissing))
        } else {
            new.stage == Stage::AwaitPostfix && step == Step::FormatPostfix && new.text == old.text
        },
        Stage::AwaitPostfix => match reply {
            Reply::Postfix(Ok(p)) => new.stage == Stage::Adding && step == Step::Run(
                GitCommand::AddAll,
            ) && new.text@ == old.text@ + p@,
            Reply::Postfix(Err(e)) => step == Step::Done(Err(e)),
            _ => false,
        },
        Stage::Adding => new.text == old.text && after_git(
            reply,
            Step::Run(GitCommand::Commit(old.text)),
            step,
        ) && (step is Run ==> new.stage == Stage::Committing),
        Stage::Committing | Stage::Reverting => after_git(reply, Step::Ask(Query::HasRemote), step)
            && (step is Ask ==> new.stage == Stage::CheckRemote),
        Stage::Describing => match reply {
            Reply::Described(Ok(info)) => if old.interactive {
                new.stage == Stage::Confirming && new.text == old.text && (step matches Step::Confirm(
                    q,
                ) && q@ == prompt_text(info))
            } else {
                new.stage == Stage::FetchingHash && new.text == old.text && (
                step matches Step::FullHash(h) && h@ == old.text@)
            },
            Reply::Described(Err(m)) => step == failed(m),
            _ => false,
        },
        Stage::Confirming => match reply {
            Reply::Confirmed(Ok(true)) => new.stage == Stage::FetchingHash && new.text == old.text
                && (step matches Step::FullHash(h) && h@ == old.text@),
            Reply::Confirmed(Ok(false)) => new.stage == Stage::SaidAborted && (
            step matches Step::Say(s) && s@ == "Aborted."@),
            Reply::Confirmed(Err(m)) => step == failed(m),
            _ => false,
        },
        Stage::SaidAborted => step == Step::Done(Ok(())),
        Stage::FetchingHash => match reply {
            Reply::Output(Ok(out)) => new.stage == Stage::Reverting && (step matches Step::Run(
                GitCommand::Revert(h),
            ) && h@ == trim(out@)),
            Reply::Output(Err(m)) => step == failed(m),
            _ => false,
        },
        Stage::CheckRemote => if reply == Reply::Answer(true) {
            new.stage == Stage::CheckTracking && step == Step::Ask(Query::HasRemoteTracking)
        } else {
            step == Step::Done(Ok(()))
        },
        Stage::CheckTracking => if reply == Reply::Answer(true) {
            new.stage == Stage::Pulling && step == Step::Run(GitCommand::PullRebase)
        } else {
            new.stage == Stage::SettingUpstream && step == Step::Run(GitCommand::PushSetUpstream)
        },
        Stage::SettingUpstream | Stage::Pushing | Stage::Resetting => after_git(
            reply,
            Step::Done(Ok(())),
            step,
        ),
        Stage::Pulling => match reply {
            Reply::Ran(Err(_)) => new.stage == Stage::Warned && (step matches Step::Warn(w) && w@
                == conflict_help(old.kind)),
            _ => new.stage == Stage::Pushing && step == Step::Run(GitCommand::Push),
        },
        Stage::Warned => step == Step::Done(Err(GError::RebaseConflict)),
        Stage::CheckMarkers => if reply == Reply::Answer(true) {
            step matches Step::Done(Err(GError::ConflictMarkersLeft(c))) && c@ == command_name(
                old.kind,
            )
        } else {
            new.stage == Stage::ResolveAdding && step == Step::Run(GitCommand::AddAll)
        },
        Stage::ResolveAdding => after_git(reply, Step::Run(GitCommand::RebaseContinue), step) && (
        step is Run ==> new.stage == Stage::Continuing),
        Stage::Continuing => after_git(reply, Step::Run(GitCommand::Push), step) && (step is Run
            ==> new.stage == Stage::Pushing),
        Stage::AbortingRebase => after_git(
            reply,
            Step::Run(
                match old.kind {
                    Kind::Commit => GitCommand::UndoLastCommit,
                    Kind::Revert => GitCommand::DropLastCommit,
                },
            ),
            step,
        ) && (step is Run ==> new.stage == Stage::Resetting),
        Stage::Finished => false,
    }
}

/// How many more replies a workflow can take at most.
pub open spec fn remaining(stage: Stage) -> nat {
    match stage {
        Stage::CheckRebasing => 10,
        Stage::CheckDetached => 9,
        Stage::CheckRequired | Stage::Describing => 8,
        Stage::AwaitPostfix | Stage::Confirming => 7,
        Stage::Adding | Stage::FetchingHash => 6,
        Stage::Committing | Stage::Reverting => 5,
        Stage::CheckRemote | Stage::CheckMarkers => 4,
        Stage::CheckTracking | Stage::ResolveAdding => 3,
        Stage::Pulling | Stage::Continuing | Stage::AbortingRebase => 2,
        Stage::SettingUpstream | Stage::Pushing | Stage::Resetting | Stage::Warned
        | Stage::SaidAborted => 1,
        Stage::Finished => 0,
    }
}

/// Law: every move brings the workflow closer to its end, so every `g c`
/// and `g rv` run (with or without `--resolve`/`--abort`) ends after at most
/// ten replies.
pub proof fn lemma_workflow_ends(old: Workflow, reply: Reply, new: Workflow, step: Step)
    requires
        moves(old, reply, new, step),
    ensures
        remaining(new.stage) < remaining(old.stage),
{
}

/// A run of a workflow: `ws[i]` takes `replies[i]` (of the kind it
/// awaits), becomes `ws[i + 1]` and
/// asks for `steps[i]`.
pub open spec fn is_run(ws: Seq<Workflow>, replies: Seq<Reply>, steps: Seq<Step>) -> bool {
    &&& ws.len() == replies.len() + 1
    &&& steps.len() == replies.len()
    &&& forall|i: int|
        0 <= i < replies.len() ==> expects(#[trigger] ws[i].stage, replies[i]) && moves(
            ws[i],
            replies[i],
            ws[i + 1],
            steps[i],
        )
}

/// The guards of `g c` were passed in the first replies: no rebase in
/// progress, HEAD not detached, and co-authors given or not required.
pub open spec fn commit_guards_passed(explicit: bool, replies: Seq<Reply>) -> bool {
    &&& replies.len() >= 2
    &&& replies[0] == Reply::Answer(false)
    &&& replies[1] == Reply::Answer(false)
    &&& explicit || (replies.len() >= 3 && replies[2] == Reply::Answer(false))
}

/// What holds of the `k`-th workflow of a `g c` run.
pub open spec fn commit_run_holds(explicit: bool, replies: Seq<Reply>, k: int, w: Workflow) -> bool {
    &&& w.kind == Kind::Commit
    &&& w.explicit == explicit
    &&& match w.stage {
        Stage::CheckRebasing => k == 0,
        Stage::CheckDetached => k == 1 && replies[0] == Reply::Answer(false),
        Stage::CheckRequired => k == 2 && !explicit && replies[0] == Reply::Answer(false)
            && replies[1] == Reply::Answer(false),
        Stage::AwaitPostfix => k >= 2 && commit_guards_passed(explicit, replies.take(k)),
        Stage::Adding | Stage::Committing | Stage::CheckRemote | Stage::CheckTracking
        | Stage::SettingUpstream | Stage::Pulling | Stage::Warned | Stage::Pushing => k >= 3
            && commit_guards_passed(explicit, replies.take(k)),
        Stage::Finished => true,
        _ => false,
    }
}

proof fn lemma_commit_run_step(explicit: bool, replies: Seq<Reply>, k: int, w: Workflow, r: Reply, next: Workflow, step: Step)
    requires
        0 <= k < replies.len(),
        replies[k] == r,
        commit_run_holds(explicit, replies, k, w),
        expects(w.stage, r),
        moves(w, r, next, step),
    ensures
        commit_run_holds(explicit, replies, k + 1, next),
        step matches Step::Run(GitCommand::Commit(_)) ==> commit_guards_passed(explicit, replies.take(k)),
{
    if k >= 2 {
        assert(replies.take(k + 1).take(k) =~= replies.take(k));
        assert forall|j: int| 0 <= j < k implies replies.take(k + 1)[j] == #[trigger] replies.take(k)[j] by {}
    }
    if w.stage == Stage::CheckRequired || (w.stage == Stage::CheckDetached && explicit) {
        assert(replies.take(k + 1)[0] == replies[0]);
        assert(replies.take(k + 1)[1] == replies[1]);
        if !explicit {
            assert(replies.take(k + 1)[2] == replies[2]);
        }
    }
}

proof fn lemma_commit_run_reaches(ws: Seq<Workflow>, replies: Seq<Reply>, steps: Seq<Step>, k: int)
    requires
        is_run(ws, replies, steps),
        ws[0].kind == Kind::Commit,
        ws[0].stage == Stage::CheckRebasing,
        0 <= k <= replies.len(),
    ensures
        commit_run_holds(ws[0].explicit, replies, k, ws[k]),
    decreases k,
{
    if k > 0 {
        lemma_commit_run_reaches(ws, replies, steps, k - 1);
        assert(expects(ws[k - 1].stage, replies[k - 1]) && moves(ws[k - 1], replies[k - 1], ws[k], steps[k - 1]));
        lemma_commit_run_step(ws[0].explicit, replies, k - 1, ws[k - 1], replies[k - 1], ws[k], steps[k - 1]);
    }
}

/// Law: a `g c` run asks git to commit only after it was told that no
/// rebase is in progress, that HEAD is not detached, and (unless co-authors
/// or `SOLO` were given) that co-authors are not required.
pub proof fn lemma_commit_only_after_guards(
    ws: Seq<Workflow>,
    replies: Seq<Reply>,
    steps: Seq<Step>,
    i: int,
)
    requires
        is_run(ws, replies, steps),
        ws[0].kind == Kind::Commit,
        ws[0].stage == Stage::CheckRebasing,
        0 <= i < steps.len(),
        steps[i] matches Step::Run(GitCommand::Commit(_)),
    ensures
        commit_guards_passed(ws[0].explicit, replies),
{
    let explicit = ws[0].explicit;
    lemma_commit_run_reaches(ws, replies, steps, i);
    assert(expects(ws[i].stage, replies[i]) && moves(ws[i], replies[i], ws[i + 1], steps[i]));
    lemma_commit_run_step(explicit, replies, i, ws[i], replies[i], ws[i + 1], steps[i]);
    let t = replies.take(i);
    assert(t[0] == replies[0]);
    assert(t[1] == replies[1]);
    if !explicit {
        assert(t[2] == replies[2]);
    }
}

/// The guards of `g rv` were passed: HEAD is not detached and, when the
/// revert is interactive, the user confirmed it.
pub open spec fn revert_guards_passed(interactive: bool, replies: Seq<Reply>) -> bool {
    &&& replies.len() >= 1
    &&& replies[0] == Reply::Answer(false)
    &&& interactive ==> replies.len() >= 3 && replies[2] == Reply::Confirmed(Ok(true))
}

/// What holds of the `k`-th workflow of a `g rv` run.
pub open spec fn revert_run_holds(interactive: bool, replies: Seq<Reply>, k: int, w: Workflow) -> bool {
    &&& w.kind == Kind::Revert
    &&& w.interactive == interactive
    &&& match w.stage {
        Stage::CheckDetached => k == 0,
        Stage::Describing => k == 1 && replies[0] == Reply::Answer(false),
        Stage::Confirming => k == 2 && interactive && replies[0] == Reply::Answer(false),
        Stage::FetchingHash => (if interactive {
            k == 3
        } else {
            k == 2
        }) && revert_guards_passed(interactive, replies.take(k)),
        Stage::Reverting | Stage::CheckRemote | Stage::CheckTracking | Stage::SettingUpstream
        | Stage::Pulling | Stage::Warned | Stage::Pushing => k >= 3 && revert_guards_passed(
            interactive,
            replies.take(k),
        ),
        Stage::SaidAborted | Stage::Finished => true,
        _ => false,
    }
}

proof fn lemma_revert_run_step(
    interactive: bool,
    replies: Seq<Reply>,
    k: int,
    w: Workflow,
    r: Reply,
    next: Workflow,
    step: Step,
)
    requires
        0 <= k < replies.len(),
        replies[k] == r,
        revert_run_holds(interactive, replies, k, w),
        expects(w.stage, r),
        moves(w, r, next, step),
    ensures
        revert_run_holds(interactive, replies, k + 1, next),
        step matches Step::Run(GitCommand::Revert(_)) ==> revert_guards_passed(
            interactive,
            replies.take(k),
        ),
{
    let t = replies.take(k + 1);
    assert forall|j: int| 0 <= j < k implies t[j] == #[trigger] replies.take(k)[j] by {}
    assert(t[k] == r);
    if k >= 1 {
        assert(t[0] == replies[0]);
    }
}

proof fn lemma_revert_run_reaches(ws: Seq<Workflow>, replies: Seq<Reply>, steps: Seq<Step>, k: int)
    requires
        is_run(ws, replies, steps),
        ws[0].kind == Kind::Revert,
        ws[0].stage == Stage::CheckDetached,
        0 <= k <= replies.len(),
    ensures
        revert_run_holds(ws[0].interactive, replies, k, ws[k]),
    decreases k,
{
    if k > 0 {
        lemma_revert_run_reaches(ws, replies, steps, k - 1);
        assert(expects(ws[k - 1].stage, replies[k - 1]) && moves(
            ws[k - 1],
            replies[k - 1],
            ws[k],
            steps[k - 1],
        ));
        lemma_revert_run_step(
            ws[0].interactive,
            replies,
            k - 1,
            ws[k - 1],
            replies[k - 1],
            ws[k],
            steps[k - 1],
        );
    }
}

/// Law: a `g rv` run asks git to revert only after it was told that HEAD is
/// not detached and, in interactive mode, after the user confirmed.
pub proof fn lemma_revert_only_after_guards(
    ws: Seq<Workflow>,
    replies: Seq<Reply>,
    steps: Seq<Step>,
    i: int,
)
    requires
        is_run(ws, replies, steps),
        ws[0].kind == Kind::Revert,
        ws[0].stage == Stage::CheckDetached,
        0 <= i < steps.len(),
        steps[i] matches Step::Run(GitCommand::Revert(_)),
    ensures
        revert_guards_passed(ws[0].interactive, replies),
{
    lemma_revert_run_reaches(ws, replies, steps, i);
    assert(expects(ws[i].stage, replies[i]) && moves(ws[i], replies[i], ws[i + 1], steps[i]));
    lemma_revert_run_step(ws[0].interactive, replies, i, ws[i], replies[i], ws[i + 1], steps[i]);
    let t = replies.take(i);
    assert(t[0] == replies[0]);
    if ws[0].interactive {
        assert(t[2] == replies[2]);
    }
}

/// The stages a `g rv` run passes through before it asks for the full hash
/// of its reference.
pub open spec fn before_hash(stage: Stage) -> bool {
    stage == Stage::CheckRebasing || stage == Stage::CheckDetached || stage == Stage::Describing
        || stage == Stage::Confirming
}

proof fn lemma_reference_kept(ws: Seq<Workflow>, replies: Seq<Reply>, steps: Seq<Step>, k: int)
    requires
        is_run(ws, replies, steps),
        before_hash(ws[0].stage),
        0 <= k <= replies.len(),
    ensures
        before_hash(ws[k].stage) ==> ws[k].text == ws[0].text,
    decreases k,
{
    if k > 0 {
        lemma_reference_kept(ws, replies, steps, k - 1);
        assert(expects(ws[k - 1].stage, replies[k - 1]) && moves(
            ws[k - 1],
            replies[k - 1],
            ws[k],
            steps[k - 1],
        ));
    }
}

/// Law: whatever the interactive flag, the full hash a `g rv` run fetches,
/// and so the commit it reverts, is that of the reference the run was
/// started with.
pub proof fn lemma_revert_hashes_its_reference(
    ws: Seq<Workflow>,
    replies: Seq<Reply>,
    steps: Seq<Step>,
    i: int,
)
    requires
        is_run(ws, replies, steps),
        ws[0].kind == Kind::Revert,
        ws[0].stage == Stage::CheckDetached,
        0 <= i < steps.len(),
    ensures
        steps[i] matches Step::FullHash(h) ==> h@ == ws[0].text@,
{
    lemma_reference_kept(ws, replies, steps, i);
    assert(expects(ws[i].stage, replies[i]) && moves(ws[i], replies[i], ws[i + 1], steps[i]));
}

/// Law: for either command, once `git rebase --continue` was asked for and
/// succeeded, the next step pushes.
pub proof fn lemma_continue_then_push(
    w0: Workflow,
    r0: Reply,
    w1: Workflow,
    w2: Workflow,
    step: Step,
)
    requires
        moves(w0, r0, w1, Step::Run(GitCommand::RebaseContinue)),
        moves(w1, Reply::Ran(Ok(())), w2, step),
    ensures
        step == Step::Run(GitCommand::Push),
{
}

fn is_yes(reply: &Reply) -> (r: bool)
    ensures
        r == (*reply == Reply::Answer(true)),
{
    match reply {
        Reply::Answer(b) => *b,
        _ => false,
    }
}

fn git_failed(m: String) -> (r: Step)
    ensures
        r == failed(m),
{
    Step::Done(Err(GError::Failed(m)))
}

impl Workflow {
    /// `g c` with a message: first make sure no rebase is in progress.
    pub fn commit(message: String, explicit: bool) -> (r: (Self, Step))
        ensures
            r.0.kind == Kind::Commit,
            r.0.stage == Stage::CheckRebasing,
            r.0.text == message,
            r.0.explicit == explicit,
            r.1 == Step::Ask(Query::Rebasing),
    {
        (
            Workflow {
                kind: Kind::Commit,
                stage: Stage::CheckRebasing,
                text: message,
                explicit,
                interactive: false,
            },
            Step::Ask(Query::Rebasing),
        )
    }

    /// `g rv` of a reference: first make sure HEAD is not detached.
    pub fn revert(reference: String, interactive: bool) -> (r: (Self, Step))
        ensures
            r.0.kind == Kind::Revert,
            r.0.stage == Stage::CheckDetached,
            r.0.text == reference,
            r.0.interactive == interactive,
            r.1 == Step::Ask(Query::DetachedHead),
    {
        (
            Workflow {
                kind: Kind::Revert,
                stage: Stage::CheckDetached,
                text: reference,
                explicit: true,
                interactive,
            },
            Step::Ask(Query::DetachedHead),
        )
    }

    /// `--resolve`: first make sure no conflict markers are left.
    pub fn resolve(kind: Kind) -> (r: (Self, Step))
        ensures
            r.0.kind == kind,
            r.0.stage == Stage::CheckMarkers,
            r.1 == Step::Ask(Query::ConflictMarkers),
    {
        (
            Workflow {
                kind,
                stage: Stage::CheckMarkers,
                text: String::new(),
                explicit: true,
                interactive: false,
            },
            Step::Ask(Query::ConflictMarkers),
        )
    }

    /// `--abort`: abort the rebase, then undo the local commit.
    pub fn abort(kind: Kind) -> (r: (Self, Step))
        ensures
            r.0.kind == kind,
            r.0.stage == Stage::AbortingRebase,
            r.1 == Step::Run(GitCommand::RebaseAbort),
    {
        (
            Workflow {
                kind,
                stage: Stage::AbortingRebase,
                text: String::new(),
                explicit: true,
                interactive: false,
            },
            Step::Run(GitCommand::RebaseAbort),
        )
    }

    /// Whether the workflow awaits this kind of reply.
    pub fn accepts(&self, reply: &Reply) -> (r: bool)
        ensures
            r == expects(self.stage, *reply),
    {
        match self.stage {
            Stage::CheckRebasing | Stage::CheckDetached | Stage::CheckRequired | Stage::CheckRemote
            | Stage::CheckTracking | Stage::CheckMarkers => match reply {
                Reply::Answer(_) => true,
                _ => false,
            },
            Stage::AwaitPostfix => match reply {
                Reply::Postfix(_) => true,
                _ => false,
            },
            Stage::Describing => match reply {
                Reply::Described(_) => true,
                _ => false,
            },
            Stage::Confirming => match reply {
                Reply::Confirmed(_) => true,
                _ => false,
            },
            Stage::FetchingHash => match reply {
                Reply::Output(_) => true,
                _ => false,
            },
            Stage::SaidAborted | Stage::Warned => match reply {
                Reply::Shown => true,
                _ => false,
            },
            Stage::Finished => false,
            _ => match reply {
                Reply::Ran(_) => true,
                _ => false,
            },
        }
    }

    /// Takes the driver's reply to the last step and says what to do next.
    pub fn advance(&mut self, reply: Reply) -> (step: Step)
        requires
            expects(old(self).stage, reply),
        ensures
            moves(*old(self), reply, *final(self), step),
    {
        let stage = self.stage;
        let kind = self.kind;
        let step = match stage {
            Stage::CheckRebasing => {
                if is_yes(&reply) {
                    Step::Done(Err(GError::Rebasing))
                } else {
                    self.stage = Stage::CheckDetached;
                    Step::Ask(Query::DetachedHead)
                }
            },
            Stage::CheckDetached => {
                if is_yes(&reply) {
                    Step::Done(Err(GError::TimeTravelling))
                } else {
                    match kind {
                        Kind::Commit => {
                            if self.explicit {
                                self.stage = Stage::AwaitPostfix;
                                Step::FormatPostfix
                            } else {
                                self.stage = Stage::CheckRequired;
                                Step::Ask(Query::CoAuthorsRequired)
                            }
                        },
                        Kind::Revert => {
                            self.stage = Stage::Describing;
                            Step::Describe(self.text.clone())
                        },
                    }
                }
            },
            Stage::CheckRequired => {
                if is_yes(&reply) {
                    Step::Done(Err(GError::CoAuthorsMissing))
                } else {
                    self.stage = Stage::AwaitPostfix;
                    Step::FormatPostfix
                }
            },
            Stage::AwaitPostfix => match reply {
                Reply::Postfix(Ok(p)) => {
                    self.text.append(p.as_str());
                    self.stage = Stage::Adding;
                    Step::Run(GitCommand::AddAll)
                },
                Reply::Postfix(Err(e)) => Step::Done(Err(e)),
                _ => Step::Done(Ok(())),
            },
            Stage::Adding => match reply {
                Reply::Ran(Err(m)) => git_failed(m),
                _ => {
                    self.stage = Stage::Committing;
                    Step::Run(GitCommand::Commit(self.text.clone()))
                },
            },
            Stage::Committing | Stage::Reverting => match reply {
                Reply::Ran(Err(m)) => git_failed(m),
                _ => {
                    self.stage = Stage::CheckRemote;
                    Step::Ask(Query::HasRemote)
                },
            },
            Stage::Describing => match reply {
                Reply::Described(Ok(info)) => {
                    if self.interactive {
                        self.stage = Stage::Confirming;
                        Step::Confirm(revert_prompt(&info))
                    } else {
                        self.stage = Stage::FetchingHash;
                        Step::FullHash(self.text.clone())
                    }
                },
                Reply::Described(Err(m)) => git_failed(m),
                _ => Step::Done(Ok(())),
            },
            Stage::Confirming => match reply {
                Reply::Confirmed(Ok(true)) => {
                    self.stage = Stage::FetchingHash;
                    Step::FullHash(self.text.clone())
                },
                Reply::Confirmed(Ok(false)) => {
                    self.stage = Stage::SaidAborted;
                    Step::Say(String::from_str("Aborted."))
                },
                Reply::Confirmed(Err(m)) => git_failed(m),
                _ => Step::Done(Ok(())),
            },
            Stage::SaidAborted => Step::Done(Ok(())),
            Stage::FetchingHash => match reply {
                Reply::Output(Ok(out)) => {
                    self.stage = Stage::Reverting;
                    Step::Run(GitCommand::Revert(trimmed(out.as_str())))
                },
                Reply::Output(Err(m)) => git_failed(m),
                _ => Step::Done(Ok(())),
            },
            Stage::CheckRemote => {
                if is_yes(&reply) {
                    self.stage = Stage::CheckTracking;
                    Step::Ask(Query::HasRemoteTracking)
                } else {
                    Step::Done(Ok(()))
                }
            },
            Stage::CheckTracking => {
                if is_yes(&reply) {
                    self.stage = Stage::Pulling;
                    Step::Run(GitCommand::PullRebase)
                } else {
                    self.stage = Stage::SettingUpstream;
                    Step::Run(GitCommand::PushSetUpstream)
                }
            },
            Stage::SettingUpstream | Stage::Pushing | Stage::Resetting => match reply {
                Reply::Ran(Err(m)) => git_failed(m),
                _ => Step::Done(Ok(())),
            },
            Stage::Pulling => match reply {
                Reply::Ran(Err(_)) => {
                    self.stage = Stage::Warned;
                    Step::Warn(conflict_help_text(kind))
                },
                _ => {
                    self.stage = Stage::Pushing;
                    Step::Run(GitCommand::Push)
                },
            },
            Stage::Warned => Step::Done(Err(GError::RebaseConflict)),
            Stage::CheckMarkers => {
                if is_yes(&reply) {
                    Step::Done(Err(GError::ConflictMarkersLeft(command_name_text(kind))))
                } else {
                    self.stage = Stage::ResolveAdding;
                    Step::Run(GitCommand::AddAll)
                }
            },
            Stage::ResolveAdding => match reply {
                Reply::Ran(Err(m)) => git_failed(m),
                _ => {
                    self.stage = Stage::Continuing;
                    Step::Run(GitCommand::RebaseContinue)
                },
            },
            Stage::Continuing => match reply {
                Reply::Ran(Err(m)) => git_failed(m),
                _ => {
                    self.stage = Stage::Pushing;
                    Step::Run(GitCommand::Push)
                },
            },
            Stage::AbortingRebase => match reply {
                Reply::Ran(Err(m)) => git_failed(m),
                _ => {
                    self.stage = Stage::Resetting;
                    match kind {
                        Kind::Commit => Step::Run(GitCommand::UndoLastCommit),
                        Kind::Revert => Step::Run(GitCommand::DropLastCommit),
                    }
                },
            },
            Stage::Finished => Step::Done(Ok(())),
        };
        match step {
            Step::Done(_) => {
                self.stage = Stage::Finished;
            },
            _ => {},
        }
        step
    }
}

fn conflict_help_text(kind: Kind) -> (r: String)
    ensures
        r@ == conflict_help(kind),
{
    match kind {
        Kind::Commit => String::from_str(
            "\nAfter resolving the conflict, run\n  g c --resolve\nOr run\n  g c --abort\nTo give up (will softly reset your commit)",
        ),
        Kind::Revert => String::from_str(
            "\nAfter resolving the conflict, run\n  g rv --resolve\nOr run\n  g rv --abort\nTo give up (will permanently delete the revert commit)",
        ),
    }
}

fn command_name_text(kind: Kind) -> (r: String)
    ensures
        r@ == command_name(kind),
{
    match kind {
        Kind::Commit => String::from_str("g c"),
        Kind::Revert => String::from_str("g rv"),
    }
}

} // verus!
