use std::cell::{Cell, RefCell};
use std::collections::HashMap;
use std::path::PathBuf;

use g_cli::aliases::{alias_name, alias_record, lookup_alias};
use g_cli::alarm::{daemon_pause_secs, pick_sound_file, sound_file_name};
use g_cli::cli::{alarms_on_stash, checks_for_update, Commands};
use g_cli::commit::{
    co_author_trailers, parse_co_authors, CoAuthorAliases, CoAuthorChoice, CommitAction,
    CommitInput, MessagePostfix,
};
use g_cli::config::{
    apply_repo_override, config_changes, default_auto_update_period,
    default_co_authors_required, Config, ConfigChange, ConfigHandler, LocalTrunkConfig,
    PartialConfig, TrunkConfig, DEFAULT_AUTO_UPDATE_PERIOD,
};
use g_cli::daemon::{daemon_entry, daemon_pids, register_daemon, unregister_daemon};
use g_cli::error::GError;
use g_cli::handler::Handler;
use g_cli::numbers::{decimal_u64, parse_i32, parse_i64, parse_u64};
use g_cli::repo::{
    any_conflict_marker, has_conflict_marker, head_is_detached, prints_something,
    untracked_to_remove,
};
use g_cli::revert::{revert_prompt, RevertInfo, RevertInput, RevertOpt};
use g_cli::text::{text_contains, trimmed};
use g_cli::time_travel::{
    branch_from_origin_head, commit_at_or_before, parse_time_ago, target_time,
};
use g_cli::update::{
    last_update_record, read_last_update, should_update, Clock, LastUpdateStore, Updater,
};

// ── helpers ──

struct MapAliases(HashMap<String, String>);

impl MapAliases {
    fn new(pairs: &[(&str, &str)]) -> Self {
        MapAliases(pairs.iter().map(|(a, f)| (a.to_string(), f.to_string())).collect())
    }
}

impl CoAuthorAliases for MapAliases {
    fn format_alias(&self, alias: &str) -> Option<String> {
        self.0.get(alias).cloned()
    }
    fn add_alias(&self, _alias: &str, _name: &str, _email: &str) -> Result<(), GError> {
        Ok(())
    }
}

fn strings(v: &[&str]) -> Vec<String> {
    v.iter().map(|s| s.to_string()).collect()
}

// ── aliases ──

#[test]
fn alias_lookup_finds_trimmed_entry() {
    let content = "jane: Jane Doe <jane@example.com>\njohn:John Roe <john@example.com>\n";
    assert_eq!(lookup_alias(content, "jane"), Some("Jane Doe <jane@example.com>".to_string()));
    assert_eq!(lookup_alias(content, "john"), Some("John Roe <john@example.com>".to_string()));
    assert_eq!(lookup_alias(content, "joe"), None);
    assert_eq!(lookup_alias("", "jane"), None);
}

#[test]
fn alias_lookup_last_declaration_wins() {
    let content = "a:First <f@x>\nnot an entry\na:Second <s@x>";
    assert_eq!(lookup_alias(content, "a"), Some("Second <s@x>".to_string()));
}

#[test]
fn recorded_alias_is_found_again() {
    let mut content = String::from("old:Old One <old@x>\n");
    content.push_str(&alias_record("jd", "Jane Doe", "jane@example.com"));
    assert_eq!(alias_record("jd", "Jane Doe", "jane@example.com"), "jd:Jane Doe <jane@example.com>\n");
    assert_eq!(lookup_alias(&content, "jd"), Some("Jane Doe <jane@example.com>".to_string()));
    assert_eq!(lookup_alias(&content, "old"), Some("Old One <old@x>".to_string()));
}

#[test]
fn alias_name_drops_leading_ats() {
    assert_eq!(alias_name("@jane"), "jane");
    assert_eq!(alias_name("@@jane"), "jane");
    assert_eq!(alias_name("jane@"), "jane@");
    assert_eq!(alias_name(""), "");
}

// ── numbers ──

#[test]
fn numbers_parse_as_std_does() {
    assert_eq!(parse_u64("42"), Some(42));
    assert_eq!(parse_u64("+7"), Some(7));
    assert_eq!(parse_u64("-1"), None);
    assert_eq!(parse_u64(""), None);
    assert_eq!(parse_u64("18446744073709551615"), Some(u64::MAX));
    assert_eq!(parse_u64("18446744073709551616"), None);
    assert_eq!(parse_u64(" 1"), None);
    assert_eq!(parse_i64("-5"), Some(-5));
    assert_eq!(parse_i64("-9223372036854775808"), Some(i64::MIN));
    assert_eq!(parse_i64("-"), None);
    assert_eq!(parse_i32("2147483647"), Some(i32::MAX));
    assert_eq!(parse_i32("2147483648"), None);
    assert_eq!(decimal_u64(0), "0");
    assert_eq!(decimal_u64(1234), "1234");
}

// ── text ──

#[test]
fn text_helpers() {
    assert_eq!(trimmed("  a b \n"), "a b");
    assert_eq!(trimmed("\u{3000}x\u{85}"), "x");
    assert!(text_contains("hello world", "o w"));
    assert!(!text_contains("hello", "hello!"));
}

// ── errors ──

#[test]
fn error_messages_are_exact() {
    assert_eq!(
        GError::Rebasing.message(),
        "You are in the middle of resolving a conflict. Resolve the conflict and then run\n  g c --resolve"
    );
    assert_eq!(
        GError::TimeTravelling.message(),
        "You are currently time travelling. Run `g tt now` to return to the present before making changes."
    );
    assert_eq!(
        GError::CoAuthorsMissing.message(),
        "You must either specify co-authors as @jane @john or specify that this is solo work with SOLO"
    );
    assert_eq!(
        GError::UnknownAlias("zed".to_string()).message(),
        "Unknown co-author alias: @zed. Please add it to ~/.config/trunk/aliases in the format alias:Name <email@example.com>\n"
    );
    assert_eq!(GError::SoloCombined.message(), "SOLO cannot be combined with other co-authors.");
    assert_eq!(GError::InvalidCoAuthor.message(), "Invalid co-author format. Use @alias or SOLO.");
    assert_eq!(GError::RebaseConflict.message(), "Conflict during rebase \u{2014} see instructions above");
    assert_eq!(
        GError::ConflictMarkersLeft("g c".to_string()).message(),
        "Your files contain unresolved conflict markers. Please resolve all conflicts before running `g c --resolve`."
    );
    assert_eq!(
        GError::UncommittedChanges.message(),
        "You have uncommitted changes. Please commit them with `g c` before pulling."
    );
    assert_eq!(
        GError::UnpushedCommits.message(),
        "You have unpushed commits. Please push them with `g c` before pulling."
    );
    assert_eq!(
        GError::BranchName("main".to_string()).message(),
        "'main' is a branch name. g does not support branches."
    );
    assert_eq!(
        GError::NotACommit("xyz".to_string()).message(),
        "'xyz' does not resolve to a commit"
    );
    assert!(GError::NoRepository.message().starts_with("Not inside a git repository"));
    assert_eq!(GError::Failed("boom".to_string()).message(), "boom");
}

// ── commit ──

#[test]
fn co_author_arguments_are_read() {
    assert!(matches!(parse_co_authors(strings(&["SOLO"])), Ok(CoAuthorChoice::Solo(_))));
    assert!(matches!(parse_co_authors(strings(&["SOLO", "@a"])), Err(GError::SoloCombined)));
    assert!(matches!(parse_co_authors(strings(&["@a", "SOLO"])), Err(GError::SoloCombined)));
    assert!(matches!(parse_co_authors(strings(&["jane"])), Err(GError::InvalidCoAuthor)));
    assert!(matches!(parse_co_authors(strings(&["@a", ""])), Err(GError::InvalidCoAuthor)));
    assert!(matches!(parse_co_authors(strings(&["@a", "@b"])), Ok(CoAuthorChoice::Named(_))));
    assert!(matches!(parse_co_authors(vec![]), Ok(CoAuthorChoice::Unstated(_))));
}

#[test]
fn postfixes_are_formatted() {
    let aliases = MapAliases::new(&[("a", "Ann <a@x>"), ("b", "Bob <b@x>")]);
    let named = parse_co_authors(strings(&["@a", "@b"])).ok().unwrap();
    assert!(named.is_explicit());
    assert_eq!(
        named.format_postfix(&aliases).ok().unwrap(),
        "\n\nCo-authored-by: Ann <a@x>\nCo-authored-by: Bob <b@x>"
    );
    let solo = parse_co_authors(strings(&["SOLO"])).ok().unwrap();
    assert!(solo.is_explicit());
    assert_eq!(solo.format_postfix(&aliases).ok().unwrap(), "\n\n(Solo-work)");
    let none = parse_co_authors(vec![]).ok().unwrap();
    assert!(!none.is_explicit());
    assert_eq!(none.format_postfix(&aliases).ok().unwrap(), "");
    let unknown = parse_co_authors(strings(&["@a", "@zed"])).ok().unwrap();
    match unknown.format_postfix(&aliases) {
        Err(GError::UnknownAlias(a)) => assert_eq!(a, "zed"),
        _ => panic!("expected an unknown alias"),
    }
    assert_eq!(co_author_trailers(&strings(&["X <x@y>"])), "\n\nCo-authored-by: X <x@y>");
    assert_eq!(co_author_trailers(&vec![]), "\n\n");
}

#[test]
fn commit_input_from_cli() {
    let repo = PathBuf::from("/tmp/repo");
    let abort = CommitInput::from_cli(repo.clone(), None, vec![], true, true).ok().unwrap();
    assert!(matches!(abort.action, CommitAction::Abort));
    assert_eq!(abort.repo, repo);
    let resolve = CommitInput::from_cli(repo.clone(), None, vec![], true, false).ok().unwrap();
    assert!(matches!(resolve.action, CommitAction::Resolve));
    let commit =
        CommitInput::from_cli(repo.clone(), Some("msg".to_string()), strings(&["SOLO"]), false, false)
            .ok()
            .unwrap();
    match commit.action {
        CommitAction::Commit { message, co_authors } => {
            assert_eq!(message, "msg");
            assert!(matches!(co_authors, CoAuthorChoice::Solo(_)));
        }
        _ => panic!("expected a commit"),
    }
    assert!(matches!(
        CommitInput::from_cli(repo, Some("m".to_string()), strings(&["x"]), false, false),
        Err(GError::InvalidCoAuthor)
    ));
}

// ── revert ──

#[test]
fn revert_description_and_prompt() {
    let info = RevertInfo::from_commit("abc1234\n", Some("Fix it".to_string()), Some("Ann".to_string()));
    assert_eq!(info.short_hash, "abc1234");
    assert_eq!(
        revert_prompt(&info),
        "\u{23ea} Revert Commit: abc1234 - \"Fix it\" (by Ann)\nAre you sure you want to revert this commit?"
    );
    let bare = RevertInfo::from_commit("abc", None, None);
    assert_eq!(bare.subject, "<no message>");
    assert_eq!(bare.author, "Unknown");
}

#[test]
fn revert_input_from_cli() {
    let repo = PathBuf::from("/r");
    let head = RevertInput::from_cli(repo.clone(), None, false, false, true);
    assert!(matches!(head.opt, RevertOpt::Ref(ref h) if h == "HEAD"));
    assert!(head.interactive);
    let given = RevertInput::from_cli(repo.clone(), Some("abc".to_string()), false, false, false);
    assert!(matches!(given.opt, RevertOpt::Ref(ref h) if h == "abc"));
    assert!(matches!(RevertInput::from_cli(repo.clone(), None, true, true, false).opt, RevertOpt::Abort));
    assert!(matches!(RevertInput::from_cli(repo, None, true, false, false).opt, RevertOpt::Resolve));
}

// ── config ──

#[test]
fn config_defaults_and_overrides() {
    assert!(default_co_authors_required());
    assert_eq!(default_auto_update_period(), 604800);
    assert_eq!(DEFAULT_AUTO_UPDATE_PERIOD, 604800);
    let c = Config::default();
    assert!(c.co_authors_required);
    assert_eq!(c.auto_update_period, 604800);
    let p = PartialConfig { co_authors_required: Some(false), auto_update_period: None };
    let merged = apply_repo_override(c, &p);
    assert!(!merged.co_authors_required);
    assert_eq!(merged.auto_update_period, 604800);
    let untouched = apply_repo_override(c, &PartialConfig::default());
    assert!(untouched.co_authors_required);
    let changed = c.with_change(ConfigChange::AutoUpdatePeriod(60));
    assert_eq!(changed.auto_update_period, 60);
    assert!(changed.co_authors_required);
    let local = PartialConfig::default().with_change(ConfigChange::CoAuthorsRequired(false));
    assert_eq!(local.co_authors_required, Some(false));
    assert_eq!(local.auto_update_period, None);
}

#[test]
fn config_changes_in_order() {
    let both = config_changes(Some(true), Some(5));
    assert_eq!(both.len(), 2);
    assert!(matches!(both[0], ConfigChange::CoAuthorsRequired(true)));
    assert!(matches!(both[1], ConfigChange::AutoUpdatePeriod(5)));
    assert!(matches!(config_changes(None, Some(9))[..], [ConfigChange::AutoUpdatePeriod(9)]));
    assert!(config_changes(None, None).is_empty());
}

struct RecordingConfig {
    log: RefCell<Vec<String>>,
    fail_period: bool,
}

impl TrunkConfig for RecordingConfig {
    fn load(&self) -> Config {
        Config::default()
    }
    fn set_co_authors_required(&self, required: bool) -> Result<(), GError> {
        self.log.borrow_mut().push(format!("global required={required}"));
        Ok(())
    }
    fn set_auto_update_period(&self, period: u64) -> Result<(), GError> {
        if self.fail_period {
            return Err(GError::Failed("disk full".to_string()));
        }
        self.log.borrow_mut().push(format!("global period={period}"));
        Ok(())
    }
}

impl LocalTrunkConfig for RecordingConfig {
    fn set_local_co_authors_required(&self, required: bool) -> Result<(), GError> {
        self.log.borrow_mut().push(format!("local required={required}"));
        Ok(())
    }
    fn set_local_auto_update_period(&self, period: u64) -> Result<(), GError> {
        self.log.borrow_mut().push(format!("local period={period}"));
        Ok(())
    }
}

#[test]
fn config_handler_records_at_the_chosen_level() {
    let tc = RecordingConfig { log: RefCell::new(vec![]), fail_period: false };
    let handler = ConfigHandler::new(&tc);
    assert!(handler.handle((Some(false), Some(10), false)).is_ok());
    assert!(handler.handle((Some(true), None, true)).is_ok());
    assert_eq!(
        *tc.log.borrow(),
        vec!["global required=false", "global period=10", "local required=true"]
    );
    let failing = RecordingConfig { log: RefCell::new(vec![]), fail_period: true };
    let handler = ConfigHandler::new(&failing);
    assert!(matches!(handler.handle((Some(true), Some(1), false)), Err(GError::Failed(_))));
    assert_eq!(*failing.log.borrow(), vec!["global required=true"]);
}

// ── update ──

#[test]
fn update_is_due_after_the_period() {
    assert!(should_update(10, 100, None));
    assert!(should_update(10, 100, Some(90)));
    assert!(!should_update(10, 100, Some(95)));
    assert!(!should_update(0, 100, None));
    // a clock that went backwards wraps around, as in a release build
    assert!(should_update(10, 5, Some(6)));
}

#[test]
fn last_update_record_round_trip() {
    assert_eq!(last_update_record(1700000000), "1700000000");
    assert_eq!(read_last_update(&last_update_record(1700000000)), Some(1700000000));
    assert_eq!(read_last_update(" 42\n"), Some(42));
    assert_eq!(read_last_update("soon"), None);
    assert_eq!(read_last_update(""), None);
}

struct FixedClock(u64);
impl Clock for FixedClock {
    fn now_secs(&self) -> u64 {
        self.0
    }
}

struct MemoryStore(RefCell<Option<u64>>);
impl LastUpdateStore for MemoryStore {
    fn read(&self) -> Option<u64> {
        *self.0.borrow()
    }
    fn write(&self, timestamp: u64) -> Result<(), GError> {
        *self.0.borrow_mut() = Some(timestamp);
        Ok(())
    }
}

struct CountingUpdater {
    clock: FixedClock,
    store: MemoryStore,
    updates: Cell<u32>,
}

impl Updater for CountingUpdater {
    type C = FixedClock;
    type S = MemoryStore;
    fn update(&self) -> Result<(), GError> {
        self.updates.set(self.updates.get() + 1);
        Ok(())
    }
    fn clock(&self) -> &FixedClock {
        &self.clock
    }
    fn last_update_store(&self) -> &MemoryStore {
        &self.store
    }
}

struct PeriodConfig(u64);
impl TrunkConfig for PeriodConfig {
    fn load(&self) -> Config {
        Config { co_authors_required: true, auto_update_period: self.0 }
    }
    fn set_co_authors_required(&self, _required: bool) -> Result<(), GError> {
        Ok(())
    }
    fn set_auto_update_period(&self, _period: u64) -> Result<(), GError> {
        Ok(())
    }
}

#[test]
fn auto_update_records_then_updates_when_due() {
    let u = CountingUpdater {
        clock: FixedClock(1000),
        store: MemoryStore(RefCell::new(None)),
        updates: Cell::new(0),
    };
    assert!(u.auto_update(&PeriodConfig(100)).is_ok());
    assert_eq!(u.updates.get(), 1);
    assert_eq!(*u.store.0.borrow(), Some(1000));
    assert!(u.auto_update(&PeriodConfig(100)).is_ok());
    assert_eq!(u.updates.get(), 1);
    assert!(u.auto_update(&PeriodConfig(0)).is_ok());
    assert_eq!(u.updates.get(), 1);
}

// ── time travel ──

#[test]
fn time_ago_is_read() {
    assert_eq!(parse_time_ago("3 days ago"), Some(3 * 86_400));
    assert_eq!(parse_time_ago("1 Week ago"), Some(604_800));
    assert_eq!(parse_time_ago("  2   hours   ago "), Some(7200));
    assert_eq!(parse_time_ago("10 minutes ago"), Some(600));
    assert_eq!(parse_time_ago("5 second ago"), Some(5));
    assert_eq!(parse_time_ago("-2 days ago"), Some(-172_800));
    assert_eq!(parse_time_ago("1 fortnight ago"), None);
    assert_eq!(parse_time_ago("3 days"), None);
    assert_eq!(parse_time_ago("many days ago"), None);
    assert_eq!(parse_time_ago("2 days from ago"), Some(172_800));
    assert_eq!(parse_time_ago("main"), None);
    assert_eq!(target_time(1000, 300), 700);
}

#[test]
fn commit_at_or_before_picks_first_old_enough() {
    let walk = vec![
        ("c3".to_string(), 300),
        ("c2".to_string(), 200),
        ("c1".to_string(), 100),
    ];
    assert_eq!(commit_at_or_before(&walk, 250), Some("c2".to_string()));
    assert_eq!(commit_at_or_before(&walk, 300), Some("c3".to_string()));
    assert_eq!(commit_at_or_before(&walk, 50), None);
    assert_eq!(commit_at_or_before(&vec![], 50), None);
}

#[test]
fn origin_head_names_the_branch() {
    assert_eq!(branch_from_origin_head("refs/remotes/origin/main\n"), Some("main".to_string()));
    assert_eq!(branch_from_origin_head("refs/heads/main"), None);
}

// ── daemon ──

#[test]
fn daemons_register_and_unregister() {
    assert_eq!(daemon_entry(42, "/home/a/repo"), "42:/home/a/repo\n");
    let content = register_daemon("", 42, "/r1");
    let content = register_daemon(&content, 7, "/r2");
    assert_eq!(content, "42:/r1\n7:/r2\n");
    assert_eq!(daemon_pids(&content, "/r1"), vec![42]);
    assert_eq!(daemon_pids(&content, "/r2"), vec![7]);
    assert!(daemon_pids(&content, "/r3").is_empty());
    let after = unregister_daemon(&content, "/r1");
    assert_eq!(after, "7:/r2\n");
    assert!(daemon_pids(&after, "/r1").is_empty());
    assert_eq!(unregister_daemon("1:/a\nbad line\n2:/a", "/a"), "bad line\n");
    assert_eq!(daemon_pids("x:/a\n9:/a\n", "/a"), vec![9]);
}

// ── repo ──

#[test]
fn repository_state_from_git_text() {
    assert!(!head_is_detached("ref: refs/heads/main\n"));
    assert!(!head_is_detached("  ref: refs/heads/main"));
    assert!(head_is_detached("3f2a9c0d\n"));
    assert!(prints_something(" M file\n"));
    assert!(!prints_something(" \n\t"));
    assert!(has_conflict_marker(b"a\n<<<<<<< HEAD\nb"));
    assert!(!has_conflict_marker(b"<<<<<< only six"));
    assert!(any_conflict_marker(&vec![b"clean".to_vec(), b"x<<<<<<<".to_vec()]));
    assert!(!any_conflict_marker(&vec![]));
}

#[test]
fn reset_removes_only_new_paths() {
    let entries = vec![
        (true, Some("new.txt".to_string())),
        (false, Some("tracked.txt".to_string())),
        (true, None),
        (true, Some("dir/".to_string())),
    ];
    assert_eq!(untracked_to_remove(&entries), vec!["new.txt".to_string(), "dir/".to_string()]);
}

// ── alarm ──

#[test]
fn alarm_sounds_and_pauses() {
    assert_eq!(sound_file_name(3), "fart-3.mp3");
    for _ in 0..50 {
        let f = pick_sound_file();
        let n: u32 = f.trim_start_matches("fart-").trim_end_matches(".mp3").parse().unwrap();
        assert!((1..=6).contains(&n));
        assert_eq!(daemon_pause_secs(true), 1);
        let p = daemon_pause_secs(false);
        assert!((5..30).contains(&p));
    }
}

// ── cli ──

#[test]
fn commands_that_skip_the_alarm_or_the_update() {
    assert!(!alarms_on_stash(&Commands::Fart));
    assert!(alarms_on_stash(&Commands::Pull));
    assert!(!checks_for_update(&Commands::Update));
    assert!(checks_for_update(&Commands::Log));
}

// ── plan ──

use g_cli::cli::{plan, Plan};
use g_cli::flow::{GitCommand, Kind, Query, Stage, Step};

#[test]
fn commands_set_their_work_in_motion() {
    let commit = plan(Commands::Commit {
        message: Some("msg".to_string()),
        co_authors: strings(&["@a"]),
        resolve: false,
        abort: false,
    });
    match commit {
        Ok(Plan::Drive { workflow, first, co_authors: Some(CoAuthorChoice::Named(_)) }) => {
            assert!(matches!(workflow.kind, Kind::Commit));
            assert!(matches!(workflow.stage, Stage::CheckRebasing));
            assert_eq!(workflow.text, "msg");
            assert!(workflow.explicit);
            assert!(matches!(first, Step::Ask(Query::Rebasing)));
        }
        _ => panic!("expected a commit run"),
    }
    let unstated = plan(Commands::Commit { message: Some("m".to_string()), co_authors: vec![], resolve: false, abort: false });
    assert!(matches!(unstated, Ok(Plan::Drive { co_authors: Some(CoAuthorChoice::Unstated(_)), .. })));
    assert!(matches!(
        plan(Commands::Commit { message: Some("m".to_string()), co_authors: strings(&["SOLO", "@a"]), resolve: false, abort: false }),
        Err(GError::SoloCombined)
    ));
    assert!(matches!(
        plan(Commands::Commit { message: None, co_authors: vec![], resolve: false, abort: true }),
        Ok(Plan::Drive { first: Step::Run(GitCommand::RebaseAbort), co_authors: None, .. })
    ));
    match plan(Commands::Revert { hash: None, resolve: false, abort: false, noninteractive: true }) {
        Ok(Plan::Drive { workflow, first, co_authors: None }) => {
            assert!(matches!(workflow.kind, Kind::Revert));
            assert_eq!(workflow.text, "HEAD");
            assert!(!workflow.interactive);
            assert!(matches!(first, Step::Ask(Query::DetachedHead)));
        }
        _ => panic!("expected a revert run"),
    }
    assert!(matches!(
        plan(Commands::Revert { hash: None, resolve: true, abort: false, noninteractive: false }),
        Ok(Plan::Drive { first: Step::Ask(Query::ConflictMarkers), .. })
    ));
    match plan(Commands::AddAlias { alias: "@jd".to_string(), name: "Jane".to_string(), email: "j@x".to_string() }) {
        Ok(Plan::AddAlias { alias, name, email }) => {
            assert_eq!(alias, "jd");
            assert_eq!(name, "Jane");
            assert_eq!(email, "j@x");
        }
        _ => panic!("expected an alias"),
    }
    assert!(matches!(plan(Commands::Log), Ok(Plan::Show(GitCommand::Log))));
    assert!(matches!(plan(Commands::Pull), Ok(Plan::Pull)));
    assert!(matches!(plan(Commands::TimeTravel { target: "now".to_string() }), Ok(Plan::TimeTravel(ref t)) if t == "now"));
    assert!(matches!(
        plan(Commands::Config { co_authors_required: Some(false), auto_update_period: None, local: true }),
        Ok(Plan::Configure { co_authors_required: Some(false), auto_update_period: None, local: true })
    ));
    assert!(matches!(plan(Commands::Update), Ok(Plan::Update)));
}

#[test]
fn unregistering_after_registering_restores_the_record() {
    for before in ["", "7:/other\n", "1:/a/b\nstray\n"] {
        let registered = register_daemon(before, 42, "/repo");
        assert_eq!(unregister_daemon(&registered, "/repo"), before);
    }
}
