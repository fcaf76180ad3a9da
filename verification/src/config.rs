//! Settings: whether co-authors are required and how often `g` updates
//! itself, with per-repository overrides.
use vstd::prelude::*;
use crate::error::GError;
use crate::handler::Handler;

verus! {

/// The settings `g` works with.
#[derive(Clone, Copy, Debug)]
pub struct Config {
    pub co_authors_required: bool,
    /// Seconds between automatic updates; 0 turns them off.
    pub auto_update_period: u64,
}

/// One week, in seconds.
pub const DEFAULT_AUTO_UPDATE_PERIOD: u64 = 604800u64;

/// The setting used when none is recorded: co-authors are required.
pub fn default_co_authors_required() -> (r: bool)
    ensures
        r,
{
    true
}

/// The setting used when none is recorded: one week.
pub fn default_auto_update_period() -> (r: u64)
    ensures
        r == DEFAULT_AUTO_UPDATE_PERIOD,
{
    DEFAULT_AUTO_UPDATE_PERIOD
}

impl Default for Config {
    fn default() -> (r: Self)
        ensures
            r.co_authors_required,
            r.auto_update_period == DEFAULT_AUTO_UPDATE_PERIOD,
    {
        Config {
            co_authors_required: default_co_authors_required(),
            auto_update_period: default_auto_update_period(),
        }
    }
}

/// A repository's own settings file: each setting may be left out.
#[derive(Clone, Copy, Debug)]
pub struct PartialConfig {
    pub co_authors_required: Option<bool>,
    pub auto_update_period: Option<u64>,
}

impl Default for PartialConfig {
    fn default() -> (r: Self)
        ensures
            r.co_authors_required is None,
            r.auto_update_period is None,
    {
        PartialConfig { co_authors_required: None, auto_update_period: None }
    }
}

/// The settings in force in a repository: each setting the repository
/// records overrides the global one; the others stay as they are.
pub fn apply_repo_override(config: Config, partial: &PartialConfig) -> (r: Config)
    ensures
        r.co_authors_required == match partial.co_authors_required {
            Some(v) => v,
            None => config.co_authors_required,
        },
        r.auto_update_period == match partial.auto_update_period {
            Some(v) => v,
            None => config.auto_update_period,
        },
{
    let mut c = config;
    if let Some(required) = partial.co_authors_required {
        c.co_authors_required = required;
    }
    if let Some(period) = partial.auto_update_period {
        c.auto_update_period = period;
    }
    c
}

/// One setting to record.
#[derive(Clone, Copy, Debug)]
pub enum ConfigChange {
    CoAuthorsRequired(bool),
    AutoUpdatePeriod(u64),
}

impl Config {
    /// These settings with `change` made.
    pub fn with_change(self, change: ConfigChange) -> (r: Config)
        ensures
            match change {
                ConfigChange::CoAuthorsRequired(v) => r.co_authors_required == v
                    && r.auto_update_period == self.auto_update_period,
                ConfigChange::AutoUpdatePeriod(v) => r.auto_update_period == v
                    && r.co_authors_required == self.co_authors_required,
            },
    {
        let mut c = self;
        match change {
            ConfigChange::CoAuthorsRequired(v) => c.co_authors_required = v,
            ConfigChange::AutoUpdatePeriod(v) => c.auto_update_period = v,
        }
        c
    }
}

impl PartialConfig {
    /// These repository settings with `change` recorded.
    pub fn with_change(self, change: ConfigChange) -> (r: PartialConfig)
        ensures
            match change {
                ConfigChange::CoAuthorsRequired(v) => r.co_authors_required == Some(v)
                    && r.auto_update_period == self.auto_update_period,
                ConfigChange::AutoUpdatePeriod(v) => r.auto_update_period == Some(v)
                    && r.co_authors_required == self.co_authors_required,
            },
    {
        let mut c = self;
        match change {
            ConfigChange::CoAuthorsRequired(v) => c.co_authors_required = Some(v),
            ConfigChange::AutoUpdatePeriod(v) => c.auto_update_period = Some(v),
        }
        c
    }
}

/// The changes `g config` makes: first co-authors, then the update period,
/// each only when given.
pub fn config_changes(co_authors_required: Option<bool>, auto_update_period: Option<u64>) -> (r:
    Vec<ConfigChange>)
    ensures
        r@ == match (co_authors_required, auto_update_period) {
            (Some(a), Some(p)) => seq![
                ConfigChange::CoAuthorsRequired(a),
                ConfigChange::AutoUpdatePeriod(p),
            ],
            (Some(a), None) => seq![ConfigChange::CoAuthorsRequired(a)],
            (None, Some(p)) => seq![ConfigChange::AutoUpdatePeriod(p)],
            (None, None) => Seq::<ConfigChange>::empty(),
        },
{
    let mut changes: Vec<ConfigChange> = Vec::new();
    if let Some(required) = co_authors_required {
        changes.push(ConfigChange::CoAuthorsRequired(required));
    }
    if let Some(period) = auto_update_period {
        changes.push(ConfigChange::AutoUpdatePeriod(period));
    }
    assert(changes@ =~= match (co_authors_required, auto_update_period) {
        (Some(a), Some(p)) => seq![
            ConfigChange::CoAuthorsRequired(a),
            ConfigChange::AutoUpdatePeriod(p),
        ],
        (Some(a), None) => seq![ConfigChange::CoAuthorsRequired(a)],
        (None, Some(p)) => seq![ConfigChange::AutoUpdatePeriod(p)],
        (None, None) => Seq::<ConfigChange>::empty(),
    });
    changes
}

/// Where the global settings are kept.
pub trait TrunkConfig {
    fn load(&self) -> Config;

    fn set_co_authors_required(&self, required: bool) -> Result<(), GError>;

    fn set_auto_update_period(&self, period: u64) -> Result<(), GError>;
}

/// Where a repository's own settings are kept.
pub trait LocalTrunkConfig {
    fn set_local_co_authors_required(&self, required: bool) -> Result<(), GError>;

    fn set_local_auto_update_period(&self, period: u64) -> Result<(), GError>;
}

/// Settings that know both the global and the repository level.
pub trait RepoScopedTrunkConfig: TrunkConfig + LocalTrunkConfig {

}

impl<TC: TrunkConfig + LocalTrunkConfig> RepoScopedTrunkConfig for TC {

}

/// `g config`.
pub struct ConfigHandler<'a, TC: TrunkConfig> {
    config: &'a TC,
}

impl<'a, TC: TrunkConfig> ConfigHandler<'a, TC> {
    pub fn new(config: &'a TC) -> (r: Self)
        ensures
            r.config() == config,
    {
        ConfigHandler { config }
    }

    pub closed spec fn config(&self) -> &'a TC {
        self.config
    }
}

/// `config` can answer `out` when asked to record whether co-authors are
/// required, at the repository level when `local`, globally otherwise.
pub open spec fn records_required<TC: RepoScopedTrunkConfig>(
    config: &TC,
    required: bool,
    local: bool,
    out: Result<(), GError>,
) -> bool {
    if local {
        call_ensures(TC::set_local_co_authors_required, (config, required), out)
    } else {
        call_ensures(TC::set_co_authors_required, (config, required), out)
    }
}

/// `config` can answer `out` when asked to record the update period, at
/// the repository level when `local`, globally otherwise.
pub open spec fn records_period<TC: RepoScopedTrunkConfig>(
    config: &TC,
    period: u64,
    local: bool,
    out: Result<(), GError>,
) -> bool {
    if local {
        call_ensures(TC::set_local_auto_update_period, (config, period), out)
    } else {
        call_ensures(TC::set_auto_update_period, (config, period), out)
    }
}

impl<'a, TC: RepoScopedTrunkConfig> Handler<(Option<bool>, Option<u64>, bool)> for ConfigHandler<
    'a,
    TC,
> {
    /// Records each given setting, first whether co-authors are required,
    /// then the update period, at the repository level when `local` is set;
    /// stops at the first failure, which it returns.
    fn handle(&self, input: (Option<bool>, Option<u64>, bool)) -> (r: Result<(), GError>)
        ensures
            input.0 is None && input.1 is None ==> r is Ok,
            r is Ok ==> (input.0 matches Some(v) ==> records_required(self.config(), v, input.2, Ok(())))
                && (input.1 matches Some(p) ==> records_period(self.config(), p, input.2, Ok(()))),
            r matches Err(e) ==> (input.0 matches Some(v) && records_required(
                self.config(),
                v,
                input.2,
                Err(e),
            )) || (input.1 matches Some(p) && records_period(self.config(), p, input.2, Err(e)) && (
            input.0 matches Some(v) ==> records_required(self.config(), v, input.2, Ok(())))),
    {
        let (co_authors_required, auto_update_period, local) = input;
        if let Some(v) = co_authors_required {
            let outcome = if local {
                self.config.set_local_co_authors_required(v)
            } else {
                self.config.set_co_authors_required(v)
            };
            assert(records_required(self.config(), v, local, outcome));
            match outcome {
                Err(e) => {
                    return Err(e);
                },
                Ok(u) => {
                    assert(u == ());
                },
            }
            assert(outcome == Ok::<(), GError>(()));
            assert(records_required(self.config(), v, local, Ok(())));
        }
        if let Some(p) = auto_update_period {
            let outcome = if local {
                self.config.set_local_auto_update_period(p)
            } else {
                self.config.set_auto_update_period(p)
            };
            assert(records_period(self.config(), p, local, outcome));
            match outcome {
                Err(e) => {
                    return Err(e);
                },
                Ok(u) => {
                    assert(u == ());
                },
            }
            assert(outcome == Ok::<(), GError>(()));
            assert(records_period(self.config(), p, local, Ok(())));
        }
        Ok(())
    }
}

} // verus!
