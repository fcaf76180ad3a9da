//! `g tt`: reading "N units ago", choosing the commit it reaches, and the
//! branch that "now" returns to.
use vstd::prelude::*;
use vstd::string::StringExecFns;
use crate::error::GError;
use crate::flow::{after_git, failed, GitCommand, GitQuery, Reply, Step};
use crate::numbers::{parse_i64, parsed_integer};
use crate::text::{
    chars_of, has_prefix, is_white_space, lemma_leading_ws_bound, lemma_leading_ws_is,
    leading_ws, slice_chars, starts_with_chars, string_of, trim, trimmed, white_space,
};

verus! {

/// What `str::to_lowercase` returns for a text.
pub uninterp spec fn lowercase(s: Seq<char>) -> Seq<char>;

/// Every character of `s` is ASCII.
pub open spec fn is_ascii_text(s: Seq<char>) -> bool {
    forall|k: int| 0 <= k < s.len() ==> (#[trigger] s[k] as u32) < 128
}

/// `c` with `A`..`Z` lowered to `a`..`z`.
pub open spec fn ascii_lower(c: char) -> char {
    if 'A' <= c <= 'Z' {
        ((c as u32) + 32) as char
    } else {
        c
    }
}

/// `str::to_lowercase` (Unicode lowercase mapping). Its documentation defines
/// the result by Unicode's `Lowercase` property; of it this states that a text
/// of ASCII characters has each of `A`..`Z` lowered and the rest kept.
#[verifier::external_body]
fn to_lowercase(s: &str) -> (r: String)
    ensures
        r@ == lowercase(s@),
        is_ascii_text(s@) ==> r@ == s@.map_values(|c: char| ascii_lower(c)),
{
    s.to_lowercase()
}

/// Index of the first whitespace character, or `s.len()`.
pub open spec fn first_ws(s: Seq<char>) -> nat
    decreases s.len(),
{
    if s.len() == 0 || is_white_space(s[0]) {
        0
    } else {
        1 + first_ws(s.drop_first())
    }
}

/// `str::split_whitespace`: the maximal runs of non-whitespace characters.
pub open spec fn words(s: Seq<char>) -> Seq<Seq<char>>
    decreases s.len(),
{
    let t = s.skip(leading_ws(s) as int);
    if leading_ws(s) >= s.len() {
        seq![]
    } else {
        let i = first_ws(t);
        if i == 0 {
            seq![]
        } else {
            proof {
                lemma_first_ws_bound(t);
            }
            seq![t.take(i as int)] + words(t.skip(i as int))
        }
    }
}

pub proof fn lemma_first_ws_bound(s: Seq<char>)
    ensures
        first_ws(s) <= s.len(),
    decreases s.len(),
{
    if s.len() > 0 && !is_white_space(s[0]) {
        lemma_first_ws_bound(s.drop_first());
    }
}

proof fn lemma_first_ws_is(t: Seq<char>, j: int)
    requires
        0 <= j <= t.len(),
        forall|k: int| 0 <= k < j ==> !is_white_space(#[trigger] t[k]),
        j < t.len() ==> is_white_space(t[j]),
    ensures
        first_ws(t) == j,
    decreases j,
{
    if j > 0 {
        let u = t.drop_first();
        assert forall|k: int| 0 <= k < j - 1 implies !is_white_space(#[trigger] u[k]) by {
            assert(u[k] == t[k + 1]);
        }
        if j - 1 < u.len() {
            assert(u[j - 1] == t[j]);
        }
        lemma_first_ws_is(u, j - 1);
    }
}

/// `split_whitespace` on a character vector.
fn split_words(s: &Vec<char>) -> (r: Vec<Vec<char>>)
    ensures
        r@.map_values(|w: Vec<char>| w@) == words(s@),
{
    let mut out: Vec<Vec<char>> = Vec::new();
    let mut pos: usize = 0;
    assert(s@.skip(0) =~= s@);
    while pos < s.len()
        invariant
            pos <= s@.len(),
            words(s@) == out@.map_values(|w: Vec<char>| w@) + words(s@.skip(pos as int)),
        decreases s@.len() - pos,
    {
        let ghost u = s@.skip(pos as int);
        let mut a = pos;
        while a < s.len() && white_space(s[a])
            invariant
                pos <= a <= s@.len(),
                forall|k: int| pos <= k < a ==> is_white_space(#[trigger] s@[k]),
            decreases s@.len() - a,
        {
            a = a + 1;
        }
        proof {
            assert forall|k: int| 0 <= k < a - pos implies is_white_space(#[trigger] u[k]) by {
                assert(u[k] == s@[k + pos]);
            }
            if a < s@.len() {
                assert(u[a - pos] == s@[a as int]);
            }
            lemma_leading_ws_is(u, a - pos);
        }
        if a == s.len() {
            assert(words(u) =~= Seq::<Seq<char>>::empty());
            pos = a;
            assert(s@.skip(pos as int) =~= Seq::<char>::empty());
            assert(words(s@.skip(pos as int)) =~= Seq::<Seq<char>>::empty());
        } else {
            let ghost t = u.skip(a - pos);
            assert(t =~= s@.skip(a as int));
            let mut b = a;
            while b < s.len() && !white_space(s[b])
                invariant
                    a <= b <= s@.len(),
                    forall|k: int| a <= k < b ==> !is_white_space(#[trigger] s@[k]),
                decreases s@.len() - b,
            {
                b = b + 1;
            }
            proof {
                assert forall|k: int| 0 <= k < b - a implies !is_white_space(#[trigger] t[k]) by {
                    assert(t[k] == s@[k + a]);
                }
                if b < s@.len() {
                    assert(t[b - a] == s@[b as int]);
                }
                lemma_first_ws_is(t, b - a);
                assert(!is_white_space(s@[a as int]));
            }
            let w = slice_chars(s, a, b);
            let ghost before = out@;
            out.push(w);
            proof {
                assert(t.take(b - a) =~= w@);
                assert(t.skip(b - a) =~= s@.skip(b as int));
                assert(words(u) == seq![t.take(b - a)] + words(t.skip(b - a)));
                assert(out@.map_values(|x: Vec<char>| x@) =~= before.map_values(
                    |x: Vec<char>| x@,
                ) + seq![w@]);
            }
            pos = b;
        }
    }
    assert(s@.skip(pos as int) =~= Seq::<char>::empty());
    assert(words(s@.skip(pos as int)) =~= Seq::<Seq<char>>::empty());
    assert(out@.map_values(|w: Vec<char>| w@) + Seq::<Seq<char>>::empty() =~= out@.map_values(
        |w: Vec<char>| w@,
    ));
    out
}

/// Drops every trailing `'s'` (`trim_end_matches('s')`).
pub open spec fn without_trailing_s(s: Seq<char>) -> Seq<char>
    decreases s.len(),
{
    if s.len() > 0 && s.last() == 's' {
        without_trailing_s(s.drop_last())
    } else {
        s
    }
}

/// Seconds in one of the units `g tt` knows.
pub open spec fn unit_seconds(unit: Seq<char>) -> Option<i64> {
    if unit == "second"@ {
        Some(1)
    } else if unit == "minute"@ {
        Some(60)
    } else if unit == "hour"@ {
        Some(3600)
    } else if unit == "day"@ {
        Some(86400)
    } else if unit == "week"@ {
        Some(604800)
    } else {
        None
    }
}

/// How many seconds back `"N unit(s) ago"` reaches: at least three words,
/// the last one `ago`, the first an `i64`, the second (lowercased, without
/// trailing `s`) a known unit; the product wraps around as `i64`
/// multiplication does in a release build.
pub open spec fn seconds_ago(text: Seq<char>) -> Option<i64> {
    let ws = words(text);
    if ws.len() < 3 || ws.last() != "ago"@ {
        None
    } else {
        match parsed_integer(ws[0], true, i64::MIN as int, i64::MAX as int) {
            None => None,
            Some(n) => match unit_seconds(without_trailing_s(lowercase(ws[1]))) {
                None => None,
                Some(u) => Some((n as i64).wrapping_mul(u)),
            },
        }
    }
}

fn drop_trailing_s(v: &Vec<char>) -> (r: Vec<char>)
    ensures
        r@ == without_trailing_s(v@),
{
    let mut end = v.len();
    assert(v@.take(end as int) =~= v@);
    while end > 0 && v[end - 1] == 's'
        invariant
            end <= v@.len(),
            without_trailing_s(v@.take(end as int)) == without_trailing_s(v@),
        decreases end,
    {
        assert(v@.take(end as int).drop_last() =~= v@.take(end - 1));
        end = end - 1;
    }
    let ghost t = v@.take(end as int);
    if end > 0 {
        assert(t.last() == v@[end - 1]);
    }
    assert(without_trailing_s(t) == t);
    let r = slice_chars(v, 0, end);
    assert(r@ =~= v@.take(end as int));
    r
}

fn unit_multiplier(unit: &String) -> (r: Option<i64>)
    ensures
        r == unit_seconds(unit@),
{
    if *unit == String::from_str("second") {
        Some(1)
    } else if *unit == String::from_str("minute") {
        Some(60)
    } else if *unit == String::from_str("hour") {
        Some(3600)
    } else if *unit == String::from_str("day") {
        Some(86400)
    } else if *unit == String::from_str("week") {
        Some(604800)
    } else {
        None
    }
}

/// Reads `"N unit(s) ago"` (units: second, minute, hour, day, week) as a
/// number of seconds back from now.
pub fn parse_time_ago(text: &str) -> (r: Option<i64>)
    ensures
        r == seconds_ago(text@),
{
    let cs = chars_of(text);
    let ws = split_words(&cs);
    let ghost wv = ws@.map_values(|w: Vec<char>| w@);
    if ws.len() < 3 {
        return None;
    }
    let last = string_of(ws[ws.len() - 1].as_slice());
    assert(wv.last() == last@);
    if !(last == String::from_str("ago")) {
        return None;
    }
    let first = string_of(ws[0].as_slice());
    assert(wv[0] == first@);
    let n = match parse_i64(first.as_str()) {
        Some(n) => n,
        None => {
            return None;
        },
    };
    let second = string_of(ws[1].as_slice());
    assert(wv[1] == second@);
    let lower = to_lowercase(second.as_str());
    let trimmed_unit = drop_trailing_s(&chars_of(lower.as_str()));
    let unit = string_of(trimmed_unit.as_slice());
    match unit_multiplier(&unit) {
        Some(m) => Some(n.wrapping_mul(m)),
        None => None,
    }
}

/// The time a "N units ago" target stands for, computed as
/// `now as i64 - seconds` is in a release build (wrapping).
pub open spec fn target_time_of(now_secs: u64, seconds: i64) -> i64 {
    (now_secs as i64).wrapping_sub(seconds)
}

pub fn target_time(now_secs: u64, seconds: i64) -> (r: i64)
    ensures
        r == target_time_of(now_secs, seconds),
{
    (now_secs as i64).wrapping_sub(seconds)
}

/// Index of the first commit of a newest-first walk whose time is at or
/// before `target` (`walk.len()` when there is none).
pub open spec fn first_at_or_before(walk: Seq<(String, i64)>, target: i64) -> nat
    decreases walk.len(),
{
    if walk.len() == 0 {
        0
    } else if walk[0].1 <= target {
        0
    } else {
        1 + first_at_or_before(walk.drop_first(), target)
    }
}

proof fn lemma_first_at_or_before_is(walk: Seq<(String, i64)>, target: i64, i: int)
    requires
        0 <= i <= walk.len(),
        forall|j: int| 0 <= j < i ==> #[trigger] walk[j].1 > target,
        i < walk.len() ==> walk[i].1 <= target,
    ensures
        first_at_or_before(walk, target) == i,
    decreases i,
{
    if i > 0 {
        let rest = walk.drop_first();
        assert forall|j: int| 0 <= j < i - 1 implies #[trigger] rest[j].1 > target by {
            assert(rest[j] == walk[j + 1]);
        }
        if i - 1 < rest.len() {
            assert(rest[i - 1] == walk[i]);
        }
        lemma_first_at_or_before_is(rest, target, i - 1);
    }
}

/// The commit HEAD was at at time `target`: the first commit of a
/// newest-first walk whose time is at or before it.
pub fn commit_at_or_before(walk: &Vec<(String, i64)>, target: i64) -> (r: Option<String>)
    ensures
        ({
            let i = first_at_or_before(walk@, target);
            match r {
                Some(h) => i < walk@.len() && h@ == walk@[i as int].0@,
                None => i == walk@.len(),
            }
        }),
{
    let mut i: usize = 0;
    while i < walk.len()
        invariant
            i <= walk@.len(),
            forall|j: int| 0 <= j < i ==> #[trigger] walk@[j].1 > target,
        decreases walk@.len() - i,
    {
        if walk[i].1 <= target {
            proof {
                lemma_first_at_or_before_is(walk@, target, i as int);
            }
            return Some(walk[i].0.clone());
        }
        i = i + 1;
    }
    proof {
        lemma_first_at_or_before_is(walk@, target, i as int);
    }
    None
}

/// The branch `refs/remotes/origin/HEAD` points to, read from the output of
/// `git symbolic-ref refs/remotes/origin/HEAD`.
pub fn branch_from_origin_head(output: &str) -> (r: Option<String>)
    ensures
        match r {
            Some(b) => has_prefix(trim(output@), "refs/remotes/origin/"@) && b@ == trim(output@).skip(
                "refs/remotes/origin/"@.len() as int,
            ),
            None => !has_prefix(trim(output@), "refs/remotes/origin/"@),
        },
{
    let t = chars_of(trimmed(output).as_str());
    let prefix = chars_of("refs/remotes/origin/");
    if starts_with_chars(&t, &prefix) {
        let rest = slice_chars(&t, prefix.len(), t.len());
        assert(rest@ =~= t@.skip(prefix@.len() as int));
        Some(string_of(rest.as_slice()))
    } else {
        None
    }
}

#[derive(Clone, Copy)]
pub enum TravelStage {
    /// Finding the default branch: where `origin/HEAD` points.
    OriginHead,
    /// Finding the default branch: does `main` exist?
    ProbeMain,
    /// Finding the default branch: does `master` exist?
    ProbeMaster,
    CheckBranch,
    WalkHistory,
    VerifyTarget,
    Peeling,
    CheckingOut,
    Finished,
}

/// A `g tt` run in progress.
pub struct TravelFlow {
    pub stage: TravelStage,
    pub target: String,
    /// For a "N units ago" target, how many seconds back it reaches.
    pub seconds: i64,
}

pub open spec fn travel_expects(stage: TravelStage, reply: Reply) -> bool {
    match stage {
        TravelStage::OriginHead | TravelStage::ProbeMain | TravelStage::ProbeMaster
        | TravelStage::VerifyTarget => reply is Output,
        TravelStage::CheckBranch => reply is Checked,
        TravelStage::WalkHistory => reply is History,
        TravelStage::Peeling => reply is Peeled,
        TravelStage::CheckingOut => reply is Ran,
        TravelStage::Finished => false,
    }
}

/// `step` checks out `name` quietly and the flow waits for it.
pub open spec fn checks_out(new: TravelFlow, step: Step, name: Seq<char>) -> bool {
    new.stage == TravelStage::CheckingOut && (step matches Step::Run(GitCommand::Checkout(b))
        && b@ == name)
}

/// `step` resolves the target with `git rev-parse --verify`.
pub open spec fn verifies_target(old: TravelFlow, new: TravelFlow, step: Step) -> bool {
    new.stage == TravelStage::VerifyTarget && (step matches Step::Capture(GitQuery::Verify(t))
        && t@ == old.target@)
}

/// One move of `g tt`.
pub open spec fn travel_moves(old: TravelFlow, reply: Reply, new: TravelFlow, step: Step) -> bool {
    &&& new.target == old.target
    &&& (new.stage != TravelStage::Finished <==> !(step is Done))
    &&& match old.stage {
        TravelStage::OriginHead => match reply {
            Reply::Output(Ok(out)) if has_prefix(trim(out@), "refs/remotes/origin/"@) => checks_out(
                new,
                step,
                trim(out@).skip("refs/remotes/origin/"@.len() as int),
            ),
            _ => new.stage == TravelStage::ProbeMain && (step matches Step::Capture(
                GitQuery::Verify(b),
            ) && b@ == "main"@),
        },
        TravelStage::ProbeMain => match reply {
            Reply::Output(Ok(_)) => checks_out(new, step, "main"@),
            _ => new.stage == TravelStage::ProbeMaster && (step matches Step::Capture(
                GitQuery::Verify(b),
            ) && b@ == "master"@),
        },
        TravelStage::ProbeMaster => match reply {
            Reply::Output(Ok(_)) => checks_out(new, step, "master"@),
            _ => checks_out(new, step, "main"@),
        },
        TravelStage::CheckBranch => match reply {
            Reply::Checked(Err(m)) => step == failed(m),
            Reply::Checked(Ok(true)) => step matches Step::Done(Err(GError::BranchName(n))) && n@
                == old.target@,
            _ => match seconds_ago(old.target@) {
                Some(secs) => new.stage == TravelStage::WalkHistory && new.seconds == secs && step
                    == Step::WalkHistory,
                None => verifies_target(old, new, step),
            },
        },
        TravelStage::WalkHistory => match reply {
            Reply::History(now, walk) => {
                let i = first_at_or_before(walk@, target_time_of(now, old.seconds));
                if i < walk@.len() {
                    checks_out(new, step, walk@[i as int].0@)
                } else {
                    verifies_target(old, new, step)
                }
            },
            _ => false,
        },
        TravelStage::VerifyTarget => match reply {
            Reply::Output(Ok(out)) => new.stage == TravelStage::Peeling && (step matches Step::Peel(
                h,
            ) && h@ == trim(out@)),
            Reply::Output(Err(m)) => step == failed(m),
            _ => false,
        },
        TravelStage::Peeling => match reply {
            Reply::Peeled(Ok(Some(id))) => checks_out(new, step, id@),
            Reply::Peeled(Ok(None)) => step matches Step::Done(Err(GError::NotACommit(n))) && n@
                == old.target@,
            Reply::Peeled(Err(m)) => step == failed(m),
            _ => false,
        },
        TravelStage::CheckingOut => after_git(reply, Step::Done(Ok(())), step),
        TravelStage::Finished => false,
    }
}

/// A run of `g tt`: `ts[i]` takes `replies[i]` (of the kind it awaits),
/// becomes `ts[i + 1]` and asks for `steps[i]`.
pub open spec fn is_travel_run(ts: Seq<TravelFlow>, replies: Seq<Reply>, steps: Seq<Step>) -> bool {
    &&& ts.len() == replies.len() + 1
    &&& steps.len() == replies.len()
    &&& forall|i: int|
        0 <= i < replies.len() ==> travel_expects(#[trigger] ts[i].stage, replies[i])
            && travel_moves(ts[i], replies[i], ts[i + 1], steps[i])
}

/// Where the `k`-th flow of a `g tt` run that began by asking whether the
/// target is a branch can stand.
pub open spec fn travel_run_holds(replies: Seq<Reply>, k: int, t: TravelFlow) -> bool {
    match t.stage {
        TravelStage::CheckBranch => k == 0,
        TravelStage::WalkHistory | TravelStage::VerifyTarget | TravelStage::Peeling
        | TravelStage::CheckingOut => k >= 1 && replies[0] == Reply::Checked(Ok(false)),
        TravelStage::Finished => true,
        _ => false,
    }
}

proof fn lemma_travel_run_reaches(ts: Seq<TravelFlow>, replies: Seq<Reply>, steps: Seq<Step>, k: int)
    requires
        is_travel_run(ts, replies, steps),
        ts[0].stage == TravelStage::CheckBranch,
        0 <= k <= replies.len(),
    ensures
        travel_run_holds(replies, k, ts[k]),
    decreases k,
{
    if k > 0 {
        lemma_travel_run_reaches(ts, replies, steps, k - 1);
        assert(travel_expects(ts[k - 1].stage, replies[k - 1]) && travel_moves(
            ts[k - 1],
            replies[k - 1],
            ts[k],
            steps[k - 1],
        ));
    }
}

/// Law: `g does not support branches`. A `g tt` run to anything but `now`
/// checks a commit out only after it was told that the target names no
/// local or remote branch.
pub proof fn lemma_travel_checks_out_no_branch(
    ts: Seq<TravelFlow>,
    replies: Seq<Reply>,
    steps: Seq<Step>,
    i: int,
)
    requires
        is_travel_run(ts, replies, steps),
        ts[0].stage == TravelStage::CheckBranch,
        0 <= i < steps.len(),
        steps[i] matches Step::Run(GitCommand::Checkout(_)),
    ensures
        replies[0] == Reply::Checked(Ok(false)),
{
    lemma_travel_run_reaches(ts, replies, steps, i);
    assert(travel_expects(ts[i].stage, replies[i]) && travel_moves(ts[i], replies[i], ts[i + 1], steps[i]));
}

/// Law: a `g tt` run to a revision that names a commit checks that commit
/// out: once the revision is peeled to commit `id`, the next step checks
/// `id` out, and a successful checkout ends the run successfully.
pub proof fn lemma_peeled_commit_is_checked_out(
    t0: TravelFlow,
    id: String,
    t1: TravelFlow,
    step: Step,
    t2: TravelFlow,
    last: Step,
)
    requires
        travel_expects(t0.stage, Reply::Peeled(Ok(Some(id)))),
        travel_moves(t0, Reply::Peeled(Ok(Some(id))), t1, step),
        travel_moves(t1, Reply::Ran(Ok(())), t2, last),
    ensures
        step matches Step::Run(GitCommand::Checkout(c)) && c@ == id@,
        last == Step::Done(Ok::<(), GError>(())),
{
}

impl TravelFlow {
    /// `g tt target`: `now` goes back to the default branch; anything else
    /// must not be a branch name.
    pub fn start(target: String) -> (r: (Self, Step))
        ensures
            r.0.target == target,
            target@ == "now"@ ==> r.0.stage == TravelStage::OriginHead && r.1 == Step::Capture(
                GitQuery::OriginHead,
            ),
            target@ != "now"@ ==> r.0.stage == TravelStage::CheckBranch && (r.1 matches Step::IsBranch(
                n,
            ) && n@ == target@),
    {
        if target == String::from_str("now") {
            (
                TravelFlow { stage: TravelStage::OriginHead, target, seconds: 0 },
                Step::Capture(GitQuery::OriginHead),
            )
        } else {
            let name = target.clone();
            (TravelFlow { stage: TravelStage::CheckBranch, target, seconds: 0 }, Step::IsBranch(name))
        }
    }

    pub fn accepts(&self, reply: &Reply) -> (r: bool)
        ensures
            r == travel_expects(self.stage, *reply),
    {
        match self.stage {
            TravelStage::OriginHead | TravelStage::ProbeMain | TravelStage::ProbeMaster
            | TravelStage::VerifyTarget => match reply {
                Reply::Output(_) => true,
                _ => false,
            },
            TravelStage::CheckBranch => match reply {
                Reply::Checked(_) => true,
                _ => false,
            },
            TravelStage::WalkHistory => match reply {
                Reply::History(_, _) => true,
                _ => false,
            },
            TravelStage::Peeling => match reply {
                Reply::Peeled(_) => true,
                _ => false,
            },
            TravelStage::CheckingOut => match reply {
                Reply::Ran(_) => true,
                _ => false,
            },
            TravelStage::Finished => false,
        }
    }

    fn check_out(&mut self, name: String) -> (step: Step)
        ensures
            checks_out(*final(self), step, name@),
            final(self).target == old(self).target,
    {
        self.stage = TravelStage::CheckingOut;
        Step::Run(GitCommand::Checkout(name))
    }

    fn verify_target(&mut self) -> (step: Step)
        ensures
            verifies_target(*old(self), *final(self), step),
            final(self).target == old(self).target,
    {
        self.stage = TravelStage::VerifyTarget;
        Step::Capture(GitQuery::Verify(self.target.clone()))
    }

    /// Takes the reply to the last step and says what to do next.
    pub fn advance(&mut self, reply: Reply) -> (step: Step)
        requires
            travel_expects(old(self).stage, reply),
        ensures
            travel_moves(*old(self), reply, *final(self), step),
    {
        let step = match self.stage {
            TravelStage::OriginHead => {
                let branch = match &reply {
                    Reply::Output(Ok(out)) => branch_from_origin_head(out.as_str()),
                    _ => None,
                };
                match branch {
                    Some(b) => self.check_out(b),
                    None => {
                        self.stage = TravelStage::ProbeMain;
                        Step::Capture(GitQuery::Verify(String::from_str("main")))
                    },
                }
            },
            TravelStage::ProbeMain => match reply {
                Reply::Output(Ok(_)) => self.check_out(String::from_str("main")),
                _ => {
                    self.stage = TravelStage::ProbeMaster;
                    Step::Capture(GitQuery::Verify(String::from_str("master")))
                },
            },
            TravelStage::ProbeMaster => match reply {
                Reply::Output(Ok(_)) => self.check_out(String::from_str("master")),
                _ => self.check_out(String::from_str("main")),
            },
            TravelStage::CheckBranch => match reply {
                Reply::Checked(Err(m)) => Step::Done(Err(GError::Failed(m))),
                Reply::Checked(Ok(true)) => Step::Done(Err(GError::BranchName(self.target.clone()))),
                _ => match parse_time_ago(self.target.as_str()) {
                    Some(secs) => {
                        self.stage = TravelStage::WalkHistory;
                        self.seconds = secs;
                        Step::WalkHistory
                    },
                    None => self.verify_target(),
                },
            },
            TravelStage::WalkHistory => match reply {
                Reply::History(now, walk) => {
                    let at = target_time(now, self.seconds);
                    match commit_at_or_before(&walk, at) {
                        Some(h) => self.check_out(h),
                        None => self.verify_target(),
                    }
                },
                _ => Step::Done(Ok(())),
            },
            TravelStage::VerifyTarget => match reply {
                Reply::Output(Ok(out)) => {
                    self.stage = TravelStage::Peeling;
                    Step::Peel(trimmed(out.as_str()))
                },
                Reply::Output(Err(m)) => Step::Done(Err(GError::Failed(m))),
                _ => Step::Done(Ok(())),
            },
            TravelStage::Peeling => match reply {
                Reply::Peeled(Ok(Some(id))) => self.check_out(id),
                Reply::Peeled(Ok(None)) => Step::Done(Err(GError::NotACommit(self.target.clone()))),
                Reply::Peeled(Err(m)) => Step::Done(Err(GError::Failed(m))),
                _ => Step::Done(Ok(())),
            },
            TravelStage::CheckingOut => match reply {
                Reply::Ran(Err(m)) => Step::Done(Err(GError::Failed(m))),
                _ => Step::Done(Ok(())),
            },
            TravelStage::Finished => Step::Done(Ok(())),
        };
        match step {
            Step::Done(_) => {
                self.stage = TravelStage::Finished;
            },
            _ => {},
        }
        step
    }
}

} // verus!
