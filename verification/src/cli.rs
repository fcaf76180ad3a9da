//! The commands of `g`, what holds for all of them, and what each one sets
//! in motion.
use vstd::prelude::*;
use vstd::string::StringExecFns;
use crate::aliases::{alias_name, leading_ats};
use crate::commit::{marks_alias, parse_co_authors, texts, CoAuthorChoice};
use crate::error::{solo_text, GError};
use crate::flow::{GitCommand, Kind, Query, Stage, Step, Workflow};

verus! {

/// A parsed command line.
pub struct Cli {
    pub command: Commands,
}

/// The subcommands of `g`.
pub enum Commands {
    /// `g c`: commit, pull --rebase, and push.
    Commit { message: Option<String>, co_authors: Vec<String>, resolve: bool, abort: bool },
    /// `g p`: pull, only with a clean working tree and nothing unpushed.
    Pull,
    /// `g l`
    Log,
    /// `g s`
    Status,
    /// `g d`
    Diff,
    /// `g tt`: go to a commit by hash or by relative time.
    TimeTravel { target: String },
    /// `g r`: hard reset.
    Reset,
    /// `g rv`: revert a commit and sync.
    Revert { hash: Option<String>, resolve: bool, abort: bool, noninteractive: bool },
    /// `g fart`
    Fart,
    /// The stash-alarm daemon (internal).
    FartDaemon,
    /// `g add-alias`
    AddAlias { alias: String, name: String, email: String },
    /// `g config`
    Config { co_authors_required: Option<bool>, auto_update_period: Option<u64>, local: bool },
    /// `g update`
    Update,
}

/// Every command but `g fart` first sounds the alarm when a stash exists.
pub fn alarms_on_stash(command: &Commands) -> (r: bool)
    ensures
        r == !(command is Fart),
{
    match command {
        Commands::Fart => false,
        _ => true,
    }
}

/// Every command but `g update` first updates `g` when an update is due.
pub fn checks_for_update(command: &Commands) -> (r: bool)
    ensures
        r == !(command is Update),
{
    match command {
        Commands::Update => false,
        _ => true,
    }
}

/// What a command sets in motion.
pub enum Plan {
    /// Drive `workflow`, which asks for `first` to begin with; a `g c` that
    /// commits carries its co-authors, for the message's postfix.
    Drive { workflow: Workflow, first: Step, co_authors: Option<CoAuthorChoice> },
    /// `g p`.
    Pull,
    /// Run a read-only git command, its output shown.
    Show(GitCommand),
    /// `g tt` to this target.
    TimeTravel(String),
    /// `g r`.
    Reset,
    /// Play the alarm sound once.
    Fart,
    /// Run the alarm daemon.
    FartDaemon,
    /// Record a co-author alias (without its leading `@`s).
    AddAlias { alias: String, name: String, email: String },
    /// Record the given settings, at the repository level when `local`.
    Configure { co_authors_required: Option<bool>, auto_update_period: Option<u64>, local: bool },
    /// Install the latest version.
    Update,
}

/// The co-author arguments are accepted: `SOLO` alone, or `@alias`es only
/// (none at all included).
pub open spec fn co_authors_accepted(args: Seq<Seq<char>>) -> bool {
    ||| args.contains(solo_text()) && args.len() == 1
    ||| !args.contains(solo_text()) && forall|i: int| 0 <= i < args.len() ==> marks_alias(#[trigger] args[i])
}

/// `c` is what the accepted arguments `args` choose.
pub open spec fn chosen(c: CoAuthorChoice, args: Seq<Seq<char>>) -> bool {
    &&& args.len() == 0 <==> c is Unstated
    &&& args.contains(solo_text()) <==> c is Solo
    &&& c matches CoAuthorChoice::Named(n) ==> n.arguments() == args
}

/// `p` drives a workflow of `kind` that starts at `stage` by asking for
/// `first`, with no co-authors.
pub open spec fn drives(p: Plan, kind: Kind, stage: Stage, first: Step) -> bool {
    p matches Plan::Drive { workflow: w, first: s, co_authors: None } && w.kind == kind && w.stage
        == stage && s == first
}

/// What `command` sets in motion.
pub open spec fn planned(command: Commands, r: Result<Plan, GError>) -> bool {
    match command {
        Commands::Commit { message, co_authors, resolve, abort } => if abort {
            r matches Ok(p) && drives(p, Kind::Commit, Stage::AbortingRebase, Step::Run(GitCommand::RebaseAbort))
        } else if resolve {
            r matches Ok(p) && drives(p, Kind::Commit, Stage::CheckMarkers, Step::Ask(Query::ConflictMarkers))
        } else {
            let args = texts(co_authors@);
            &&& r is Ok <==> co_authors_accepted(args)
            &&& r matches Ok(p) ==> p matches Plan::Drive { workflow: w, first: s, co_authors: Some(c) }
                && w.kind == Kind::Commit && w.stage == Stage::CheckRebasing && w.text@ == message->Some_0@
                && w.explicit == !(c is Unstated) && s == Step::Ask(Query::Rebasing) && chosen(c, args)
            &&& r matches Err(e) ==> (args.contains(solo_text()) ==> e is SoloCombined) && (
            !args.contains(solo_text()) ==> e is InvalidCoAuthor)
        },
        Commands::Revert { hash, resolve, abort, noninteractive } => if abort {
            r matches Ok(p) && drives(p, Kind::Revert, Stage::AbortingRebase, Step::Run(GitCommand::RebaseAbort))
        } else if resolve {
            r matches Ok(p) && drives(p, Kind::Revert, Stage::CheckMarkers, Step::Ask(Query::ConflictMarkers))
        } else {
            r matches Ok(Plan::Drive { workflow: w, first: s, co_authors: None }) && w.kind == Kind::Revert
                && w.stage == Stage::CheckDetached && w.interactive == !noninteractive && w.text@ == match hash {
                Some(h) => h@,
                None => "HEAD"@,
            } && s == Step::Ask(Query::DetachedHead)
        },
        Commands::Pull => r == Ok::<Plan, GError>(Plan::Pull),
        Commands::Log => r == Ok::<Plan, GError>(Plan::Show(GitCommand::Log)),
        Commands::Status => r == Ok::<Plan, GError>(Plan::Show(GitCommand::Status)),
        Commands::Diff => r == Ok::<Plan, GError>(Plan::Show(GitCommand::Diff)),
        Commands::TimeTravel { target } => r == Ok::<Plan, GError>(Plan::TimeTravel(target)),
        Commands::Reset => r == Ok::<Plan, GError>(Plan::Reset),
        Commands::Fart => r == Ok::<Plan, GError>(Plan::Fart),
        Commands::FartDaemon => r == Ok::<Plan, GError>(Plan::FartDaemon),
        Commands::AddAlias { alias, name, email } => r matches Ok(
            Plan::AddAlias { alias: a, name: n, email: e },
        ) && a@ == alias@.skip(leading_ats(alias@) as int) && n == name && e == email,
        Commands::Config { co_authors_required, auto_update_period, local } => r == Ok::<Plan, GError>(
            Plan::Configure { co_authors_required, auto_update_period, local },
        ),
        Commands::Update => r == Ok::<Plan, GError>(Plan::Update),
    }
}

/// What `command` sets in motion; `g c` with co-author arguments it does
/// not accept is refused.
pub fn plan(command: Commands) -> (r: Result<Plan, GError>)
    requires
        command matches Commands::Commit { message, resolve, abort, .. } ==> (!abort && !resolve
            ==> message is Some),
    ensures
        planned(command, r),
{
    match command {
        Commands::Commit { message, co_authors, resolve, abort } => {
            if abort {
                let (workflow, first) = Workflow::abort(Kind::Commit);
                Ok(Plan::Drive { workflow, first, co_authors: None })
            } else if resolve {
                let (workflow, first) = Workflow::resolve(Kind::Commit);
                Ok(Plan::Drive { workflow, first, co_authors: None })
            } else {
                let message = match message {
                    Some(m) => m,
                    None => {
                        assert(false);
                        String::new()
                    },
                };
                let ghost args = texts(co_authors@);
                match parse_co_authors(co_authors) {
                    Ok(c) => {
                        let explicit = match &c {
                            CoAuthorChoice::Unstated(_) => false,
                            _ => true,
                        };
                        proof {
                            if args.contains(solo_text()) {
                                assert(args.len() >= 1);
                            }
                        }
                        let (workflow, first) = Workflow::commit(message, explicit);
                        Ok(Plan::Drive { workflow, first, co_authors: Some(c) })
                    },
                    Err(e) => Err(e),
                }
            }
        },
        Commands::Revert { hash, resolve, abort, noninteractive } => {
            if abort {
                let (workflow, first) = Workflow::abort(Kind::Revert);
                Ok(Plan::Drive { workflow, first, co_authors: None })
            } else if resolve {
                let (workflow, first) = Workflow::resolve(Kind::Revert);
                Ok(Plan::Drive { workflow, first, co_authors: None })
            } else {
                let reference = match hash {
                    Some(h) => h,
                    None => String::from_str("HEAD"),
                };
                proof {
                    reveal_strlit("HEAD");
                }
                let (workflow, first) = Workflow::revert(reference, !noninteractive);
                Ok(Plan::Drive { workflow, first, co_authors: None })
            }
        },
        Commands::Pull => Ok(Plan::Pull),
        Commands::Log => Ok(Plan::Show(GitCommand::Log)),
        Commands::Status => Ok(Plan::Show(GitCommand::Status)),
        Commands::Diff => Ok(Plan::Show(GitCommand::Diff)),
        Commands::TimeTravel { target } => Ok(Plan::TimeTravel(target)),
        Commands::Reset => Ok(Plan::Reset),
        Commands::Fart => Ok(Plan::Fart),
        Commands::FartDaemon => Ok(Plan::FartDaemon),
        Commands::AddAlias { alias, name, email } => {
            let alias = alias_name(alias.as_str());
            Ok(Plan::AddAlias { alias, name, email })
        },
        Commands::Config { co_authors_required, auto_update_period, local } => Ok(
            Plan::Configure { co_authors_required, auto_update_period, local },
        ),
        Commands::Update => Ok(Plan::Update),
    }
}

} // verus!
