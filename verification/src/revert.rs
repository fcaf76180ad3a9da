//! `g rv`: what the command line asks of a revert, and how the commit to
//! revert is presented.
use vstd::prelude::*;
use vstd::string::StringExecFns;
use std::path::PathBuf;
use crate::text::{trim, trimmed};

verus! {

/// The commit a revert would undo, as shown to the user.
pub struct RevertInfo {
    pub short_hash: String,
    pub subject: String,
    pub author: String,
}

impl RevertInfo {
    /// Assembles the description from what git reports: the output of
    /// `git rev-parse --short`, and the commit's summary and author name when
    /// git has them.
    pub fn from_commit(short_hash_output: &str, summary: Option<String>, author: Option<String>) -> (r: Self)
        ensures
            r.short_hash@ == trim(short_hash_output@),
            r.subject@ == match summary {
                Some(s) => s@,
                None => "<no message>"@,
            },
            r.author@ == match author {
                Some(a) => a@,
                None => "Unknown"@,
            },
    {
        let subject = match summary {
            Some(s) => s,
            None => String::from_str("<no message>"),
        };
        let author = match author {
            Some(a) => a,
            None => String::from_str("Unknown"),
        };
        RevertInfo { short_hash: trimmed(short_hash_output), subject, author }
    }
}

/// The question put to the user before an interactive revert.
pub open spec fn prompt_text(info: RevertInfo) -> Seq<char> {
    "\u{23ea} Revert Commit: "@ + info.short_hash@ + " - \""@ + info.subject@ + "\" (by "@
        + info.author@ + ")\nAre you sure you want to revert this commit?"@
}

/// The question put to the user before an interactive revert.
pub fn revert_prompt(info: &RevertInfo) -> (r: String)
    ensures
        r@ == prompt_text(*info),
{
    let mut s = String::from_str("\u{23ea} Revert Commit: ");
    s.append(info.short_hash.as_str());
    s.append(" - \"");
    s.append(info.subject.as_str());
    s.append("\" (by ");
    s.append(info.author.as_str());
    s.append(")\nAre you sure you want to revert this commit?");
    s
}

/// What `g rv` is asked to do.
pub enum RevertOpt {
    /// Revert the commit this reference names.
    Ref(String),
    Resolve,
    Abort,
}

/// A `g rv` request.
pub struct RevertInput {
    pub repo: PathBuf,
    pub opt: RevertOpt,
    pub interactive: bool,
}

impl RevertInput {
    /// Builds the request from the command line: `--abort` wins over
    /// `--resolve`; otherwise the commit is `hash`, or `HEAD` when none is given.
    pub fn from_cli(
        repo: PathBuf,
        hash: Option<String>,
        resolve: bool,
        abort: bool,
        interactive: bool,
    ) -> (r: Self)
        ensures
            r.repo == repo,
            r.interactive == interactive,
            abort ==> r.opt is Abort,
            !abort && resolve ==> r.opt is Resolve,
            !abort && !resolve ==> (r.opt matches RevertOpt::Ref(h) && h@ == match hash {
                Some(given) => given@,
                None => "HEAD"@,
            }),
    {
        let opt = if abort {
            RevertOpt::Abort
        } else if resolve {
            RevertOpt::Resolve
        } else {
            match hash {
                Some(h) => RevertOpt::Ref(h),
                None => RevertOpt::Ref(String::from_str("HEAD")),
            }
        };
        RevertInput { repo, opt, interactive }
    }
}

} // verus!
