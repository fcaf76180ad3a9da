//! `g p`: pull (rebasing) only with a clean working tree and nothing unpushed.
use vstd::prelude::*;
use crate::error::GError;
use crate::flow::{after_git, failed, GitCommand, GitQuery, Reply, Step};
use crate::repo::prints_something;
use crate::text::trim;

verus! {

#[derive(Clone, Copy)]
pub enum PullStage {
    CheckClean,
    CheckPushed,
    Pulling,
    Finished,
}

/// A `g p` run in progress.
pub struct PullFlow {
    pub stage: PullStage,
}

pub open spec fn pull_expects(stage: PullStage, reply: Reply) -> bool {
    match stage {
        PullStage::CheckClean | PullStage::CheckPushed => reply is Output,
        PullStage::Pulling => reply is Ran,
        PullStage::Finished => false,
    }
}

/// One move of `g p`.
pub open spec fn pull_moves(old: PullFlow, reply: Reply, new: PullFlow, step: Step) -> bool {
    &&& (new.stage != PullStage::Finished <==> !(step is Done))
    &&& match old.stage {
        PullStage::CheckClean => match reply {
            Reply::Output(Ok(s)) => if trim(s@).len() > 0 {
                step == Step::Done(Err(GError::UncommittedChanges))
            } else {
                new.stage == PullStage::CheckPushed && step == Step::Capture(GitQuery::Unpushed)
            },
            Reply::Output(Err(m)) => step == failed(m),
            _ => false,
        },
        PullStage::CheckPushed => match reply {
            Reply::Output(Ok(s)) if trim(s@).len() > 0 => step == Step::Done(
                Err(GError::UnpushedCommits),
            ),
            _ => new.stage == PullStage::Pulling && step == Step::Run(GitCommand::PullRebase),
        },
        PullStage::Pulling => after_git(reply, Step::Done(Ok(())), step),
        PullStage::Finished => false,
    }
}

/// A run of `g p`: `fs[i]` takes `replies[i]` (of the kind it awaits),
/// becomes `fs[i + 1]` and asks for `steps[i]`.
pub open spec fn is_pull_run(fs: Seq<PullFlow>, replies: Seq<Reply>, steps: Seq<Step>) -> bool {
    &&& fs.len() == replies.len() + 1
    &&& steps.len() == replies.len()
    &&& forall|i: int|
        0 <= i < replies.len() ==> pull_expects(#[trigger] fs[i].stage, replies[i]) && pull_moves(
            fs[i],
            replies[i],
            fs[i + 1],
            steps[i],
        )
}

/// git reported `reply` as output that holds more than whitespace.
pub open spec fn reports_something(reply: Reply) -> bool {
    reply matches Reply::Output(Ok(s)) && trim(s@).len() > 0
}

/// The working tree was reported clean: the status command succeeded and
/// printed nothing but whitespace.
pub open spec fn reports_clean(reply: Reply) -> bool {
    reply matches Reply::Output(Ok(s)) && trim(s@).len() == 0
}

/// Where the `k`-th flow of a `g p` run can stand.
pub open spec fn pull_run_holds(replies: Seq<Reply>, k: int, f: PullFlow) -> bool {
    match f.stage {
        PullStage::CheckClean => k == 0,
        PullStage::CheckPushed => k == 1 && reports_clean(replies[0]),
        PullStage::Pulling => k == 2 && reports_clean(replies[0]) && !reports_something(replies[1]),
        PullStage::Finished => true,
    }
}

proof fn lemma_pull_run_reaches(fs: Seq<PullFlow>, replies: Seq<Reply>, steps: Seq<Step>, k: int)
    requires
        is_pull_run(fs, replies, steps),
        fs[0].stage == PullStage::CheckClean,
        0 <= k <= replies.len(),
    ensures
        pull_run_holds(replies, k, fs[k]),
    decreases k,
{
    if k > 0 {
        lemma_pull_run_reaches(fs, replies, steps, k - 1);
        assert(pull_expects(fs[k - 1].stage, replies[k - 1]) && pull_moves(
            fs[k - 1],
            replies[k - 1],
            fs[k],
            steps[k - 1],
        ));
    }
}

/// Law: `g p` pulls only after git reported a clean working tree and did
/// not report unpushed commits, in that order, as the run's first two replies.
pub proof fn lemma_pull_only_when_clean(
    fs: Seq<PullFlow>,
    replies: Seq<Reply>,
    steps: Seq<Step>,
    i: int,
)
    requires
        is_pull_run(fs, replies, steps),
        fs[0].stage == PullStage::CheckClean,
        0 <= i < steps.len(),
        steps[i] == Step::Run(GitCommand::PullRebase),
    ensures
        i == 1,
        reports_clean(replies[0]),
        !reports_something(replies[1]),
{
    lemma_pull_run_reaches(fs, replies, steps, i);
    assert(pull_expects(fs[i].stage, replies[i]) && pull_moves(fs[i], replies[i], fs[i + 1], steps[i]));
}

/// Law: `g p` ends as `git pull --rebase` does: with git's failure when the
/// pull fails, with success when it succeeds.
pub proof fn lemma_pull_reports_git(old: PullFlow, reply: Reply, new: PullFlow, step: Step)
    requires
        reply is Ran,
        pull_expects(old.stage, reply),
        pull_moves(old, reply, new, step),
    ensures
        reply matches Reply::Ran(Err(m)) ==> step == Step::Done(Err(GError::Failed(m))),
        reply matches Reply::Ran(Ok(_)) ==> step == Step::Done(Ok::<(), GError>(())),
{
}

impl PullFlow {
    /// `g p`: first look at the working tree.
    pub fn start() -> (r: (Self, Step))
        ensures
            r.0.stage == PullStage::CheckClean,
            r.1 == Step::Capture(GitQuery::StatusPorcelain),
    {
        (PullFlow { stage: PullStage::CheckClean }, Step::Capture(GitQuery::StatusPorcelain))
    }

    pub fn accepts(&self, reply: &Reply) -> (r: bool)
        ensures
            r == pull_expects(self.stage, *reply),
    {
        match self.stage {
            PullStage::CheckClean | PullStage::CheckPushed => match reply {
                Reply::Output(_) => true,
                _ => false,
            },
            PullStage::Pulling => match reply {
                Reply::Ran(_) => true,
                _ => false,
            },
            PullStage::Finished => false,
        }
    }

    /// Takes the reply to the last step and says what to do next. A failure
    /// to list unpushed commits (no upstream) counts as none.
    pub fn advance(&mut self, reply: Reply) -> (step: Step)
        requires
            pull_expects(old(self).stage, reply),
        ensures
            pull_moves(*old(self), reply, *final(self), step),
    {
        let step = match self.stage {
            PullStage::CheckClean => match reply {
                Reply::Output(Ok(s)) => {
                    if prints_something(s.as_str()) {
                        Step::Done(Err(GError::UncommittedChanges))
                    } else {
                        self.stage = PullStage::CheckPushed;
                        Step::Capture(GitQuery::Unpushed)
                    }
                },
                Reply::Output(Err(m)) => Step::Done(Err(GError::Failed(m))),
                _ => Step::Done(Ok(())),
            },
            PullStage::CheckPushed => {
                let unpushed = match &reply {
                    Reply::Output(Ok(s)) => prints_something(s.as_str()),
                    _ => false,
                };
                if unpushed {
                    Step::Done(Err(GError::UnpushedCommits))
                } else {
                    self.stage = PullStage::Pulling;
                    Step::Run(GitCommand::PullRebase)
                }
            },
            PullStage::Pulling => match reply {
                Reply::Ran(Err(m)) => Step::Done(Err(GError::Failed(m))),
                _ => Step::Done(Ok(())),
            },
            PullStage::Finished => Step::Done(Ok(())),
        };
        match step {
            Step::Done(_) => {
                self.stage = PullStage::Finished;
            },
            _ => {},
        }
        step
    }
}

} // verus!
