//! The failures a command can end in, and the text shown for each.
use vstd::prelude::*;
use vstd::string::StringExecFns;

verus! {

/// Why a command failed.
pub enum GError {
    /// A rebase is in progress (`g c` while resolving a conflict).
    Rebasing,
    /// HEAD is detached: the user is time travelling.
    TimeTravelling,
    /// Co-authors are required and none (nor `SOLO`) were given.
    CoAuthorsMissing,
    /// A co-author alias that the aliases file does not declare.
    UnknownAlias(String),
    /// `SOLO` given together with co-authors.
    SoloCombined,
    /// A co-author argument that is neither `@alias` nor `SOLO`.
    InvalidCoAuthor,
    /// `git pull --rebase` failed after a local commit.
    RebaseConflict,
    /// `--resolve` while files still hold conflict markers; the text is the
    /// command to run again (`g c` or `g rv`).
    ConflictMarkersLeft(String),
    /// `g p` with uncommitted changes.
    UncommittedChanges,
    /// `g p` with unpushed commits.
    UnpushedCommits,
    /// `g tt` given a branch name.
    BranchName(String),
    /// `g tt` given something that names no commit.
    NotACommit(String),
    /// `--local` configuration outside a git repository.
    NoRepository,
    /// A failure reported by git or by the system, with its text.
    Failed(String),
}

impl GError {
    /// The text shown for the failure.
    pub open spec fn text(self) -> Seq<char> {
        match self {
            GError::Rebasing => "You are in the middle of resolving a conflict. Resolve the conflict and then run\n  g c --resolve"@,
            GError::TimeTravelling => "You are currently time travelling. Run `g tt now` to return to the present before making changes."@,
            GError::CoAuthorsMissing => "You must either specify co-authors as @jane @john or specify that this is solo work with SOLO"@,
            GError::UnknownAlias(alias) => "Unknown co-author alias: @"@ + alias@
                + ". Please add it to ~/.config/trunk/aliases in the format alias:Name <email@example.com>\n"@,
            GError::SoloCombined => "SOLO cannot be combined with other co-authors."@,
            GError::InvalidCoAuthor => "Invalid co-author format. Use @alias or SOLO."@,
            GError::RebaseConflict => "Conflict during rebase \u{2014} see instructions above"@,
            GError::ConflictMarkersLeft(command) => "Your files contain unresolved conflict markers. Please resolve all conflicts before running `"@
                + command@ + " --resolve`."@,
            GError::UncommittedChanges => "You have uncommitted changes. Please commit them with `g c` before pulling."@,
            GError::UnpushedCommits => "You have unpushed commits. Please push them with `g c` before pulling."@,
            GError::BranchName(name) => "'"@ + name@ + "' is a branch name. g does not support branches."@,
            GError::NotACommit(spec) => "'"@ + spec@ + "' does not resolve to a commit"@,
            GError::NoRepository => "Not inside a git repository, so there is no repo to attach a local config to. Run this from within a git repo, or omit --local to set the global config."@,
            GError::Failed(text) => text@,
        }
    }

    /// The text shown for the failure.
    pub fn message(&self) -> (r: String)
        ensures
            r@ == self.text(),
    {
        match self {
            GError::Rebasing => String::from_str(
                "You are in the middle of resolving a conflict. Resolve the conflict and then run\n  g c --resolve",
            ),
            GError::TimeTravelling => String::from_str(
                "You are currently time travelling. Run `g tt now` to return to the present before making changes.",
            ),
            GError::CoAuthorsMissing => String::from_str(
                "You must either specify co-authors as @jane @john or specify that this is solo work with SOLO",
            ),
            GError::UnknownAlias(alias) => {
                let mut s = String::from_str("Unknown co-author alias: @");
                s.append(alias.as_str());
                s.append(
                    ". Please add it to ~/.config/trunk/aliases in the format alias:Name <email@example.com>\n",
                );
                s
            },
            GError::SoloCombined => String::from_str("SOLO cannot be combined with other co-authors."),
            GError::InvalidCoAuthor => String::from_str("Invalid co-author format. Use @alias or SOLO."),
            GError::RebaseConflict => String::from_str(
                "Conflict during rebase \u{2014} see instructions above",
            ),
            GError::ConflictMarkersLeft(command) => {
                let mut s = String::from_str(
                    "Your files contain unresolved conflict markers. Please resolve all conflicts before running `",
                );
                s.append(command.as_str());
                s.append(" --resolve`.");
                s
            },
            GError::UncommittedChanges => String::from_str(
                "You have uncommitted changes. Please commit them with `g c` before pulling.",
            ),
            GError::UnpushedCommits => String::from_str(
                "You have unpushed commits. Please push them with `g c` before pulling.",
            ),
            GError::BranchName(name) => {
                let mut s = String::from_str("'");
                s.append(name.as_str());
                s.append("' is a branch name. g does not support branches.");
                s
            },
            GError::NotACommit(spec) => {
                let mut s = String::from_str("'");
                s.append(spec.as_str());
                s.append("' does not resolve to a commit");
                s
            },
            GError::NoRepository => String::from_str(
                "Not inside a git repository, so there is no repo to attach a local config to. Run this from within a git repo, or omit --local to set the global config.",
            ),
            GError::Failed(text) => text.clone(),
        }
    }
}

pub open spec fn solo_text() -> Seq<char> {
    seq!['S', 'O', 'L', 'O']
}

} // verus!
