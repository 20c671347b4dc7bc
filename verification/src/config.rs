//! The controller config, and the subset of it that admins edit in-game.

use vstd::prelude::*;

verus! {

/// Controller config.
#[derive(Debug)]
pub struct Config {
    /// The address of the game server's XML-RPC port, f.e. "127.0.0.1:5000".
    pub rpc_address: String,
    /// The "SuperAdmin" login defined in the `<authorization_levels>`
    /// server config in `/UserData/Config/*.txt`.
    pub rpc_login: String,
    /// The "SuperAdmin" password defined in the `<authorization_levels>`
    /// server config in `/UserData/Config/*.txt`.
    pub rpc_password: String,
    /// Connection configuration parsed from libpq-style connection strings.
    pub postgres_connection: String,
    /// List of player logins that can execute super admin commands.
    pub super_admin_whitelist: Vec<String>,
    /// List of player logins that can execute admin commands.
    pub admin_whitelist: Vec<String>,
    /// To calculate the time limit of a map, this factor is applied to either the
    /// author time or the top record.
    pub time_limit_factor: u32,
    /// The maximum time limit in seconds.
    pub time_limit_max_secs: u32,
    /// The minimum time limit in seconds.
    pub time_limit_min_secs: u32,
    /// The time spent on a map after the race ends in seconds; votes during
    /// the outro are open for two thirds of it.
    pub outro_duration_secs: u32,
}

/// A public subset of the controller config, omitting credentials etc,
/// that is ready to be displayed and edited in-game.
#[derive(Debug, Clone, Copy, PartialEq, Eq, Structural)]
pub struct PublicConfig {
    pub time_limit_factor: u32,
    pub time_limit_max_secs: u32,
    pub time_limit_min_secs: u32,
    pub outro_duration_secs: u32,
}

impl Config {
    /// The settings of this config that admins may see and edit.
    pub fn public(&self) -> (res: PublicConfig)
        ensures
            res == self.public_view(),
    {
        PublicConfig {
            time_limit_factor: self.time_limit_factor,
            time_limit_max_secs: self.time_limit_max_secs,
            time_limit_min_secs: self.time_limit_min_secs,
            outro_duration_secs: self.outro_duration_secs,
        }
    }

    /// The config with its public settings replaced.
    pub fn set_public(&mut self, public: PublicConfig)
        ensures
            *final(self) == old(self).with_public(public),
    {
        self.time_limit_factor = public.time_limit_factor;
        self.time_limit_max_secs = public.time_limit_max_secs;
        self.time_limit_min_secs = public.time_limit_min_secs;
        self.outro_duration_secs = public.outro_duration_secs;
    }

    /// The config with its public settings replaced, and its private ones kept.
    pub open spec fn with_public(self, public: PublicConfig) -> Config {
        Config {
            time_limit_factor: public.time_limit_factor,
            time_limit_max_secs: public.time_limit_max_secs,
            time_limit_min_secs: public.time_limit_min_secs,
            outro_duration_secs: public.outro_duration_secs,
            ..self
        }
    }

    /// The public settings of the config.
    pub open spec fn public_view(&self) -> PublicConfig {
        PublicConfig {
            time_limit_factor: self.time_limit_factor,
            time_limit_max_secs: self.time_limit_max_secs,
            time_limit_min_secs: self.time_limit_min_secs,
            outro_duration_secs: self.outro_duration_secs,
        }
    }
}

/// Failed checks when editing the public config.
#[derive(Debug)]
pub enum PublicConfigError {
    /// The text is not a config; the parser's message.
    ParseError(String),
    TimeLimitFactorCannotBeZero,
    TimeLimitMaxCannotBeZero,
    TimeLimitMinGreaterThanMax,
}

/// The message of a config error.
pub open spec fn config_error_message(e: PublicConfigError) -> Seq<char> {
    match e {
        PublicConfigError::ParseError(_) => "Not a valid config"@,
        PublicConfigError::TimeLimitFactorCannotBeZero => "time_limit_factor must be greater than zero"@,
        PublicConfigError::TimeLimitMaxCannotBeZero => "time_limit_max_secs must be greater than zero"@,
        PublicConfigError::TimeLimitMinGreaterThanMax => "time_limit_max_secs must be greater than time_limit_min_secs"@,
    }
}

impl PublicConfigError {
    /// The message shown to the admin who entered the config.
    pub fn message(&self) -> (res: String)
        ensures
            res@ == config_error_message(*self),
    {
        match self {
            PublicConfigError::ParseError(_) => String::from_str("Not a valid config"),
            PublicConfigError::TimeLimitFactorCannotBeZero => String::from_str("time_limit_factor must be greater than zero"),
            PublicConfigError::TimeLimitMaxCannotBeZero => String::from_str("time_limit_max_secs must be greater than zero"),
            PublicConfigError::TimeLimitMinGreaterThanMax => String::from_str(
                "time_limit_max_secs must be greater than time_limit_min_secs",
            ),
        }
    }
}

impl PublicConfig {
    /// Checks a config that an admin entered: the time limit factor and the
    /// maximum time limit must not be zero, and the minimum must be below the
    /// maximum; the first failed check is the error.
    pub fn validate(cfg: PublicConfig) -> (res: Result<PublicConfig, PublicConfigError>)
        ensures
            cfg.time_limit_factor == 0 ==> res matches Err(PublicConfigError::TimeLimitFactorCannotBeZero),
            cfg.time_limit_factor != 0 && cfg.time_limit_max_secs == 0 ==> res matches Err(PublicConfigError::TimeLimitMaxCannotBeZero),
            cfg.time_limit_factor != 0 && cfg.time_limit_max_secs != 0 && cfg.time_limit_min_secs >= cfg.time_limit_max_secs
                ==> res matches Err(PublicConfigError::TimeLimitMinGreaterThanMax),
            cfg.time_limit_factor != 0 && cfg.time_limit_max_secs != 0 && cfg.time_limit_min_secs < cfg.time_limit_max_secs
                ==> res == Ok::<PublicConfig, PublicConfigError>(cfg),
    {
        if cfg.time_limit_factor == 0 {
            return Err(PublicConfigError::TimeLimitFactorCannotBeZero);
        }
        if cfg.time_limit_max_secs == 0 {
            return Err(PublicConfigError::TimeLimitMaxCannotBeZero);
        }
        if cfg.time_limit_min_secs >= cfg.time_limit_max_secs {
            return Err(PublicConfigError::TimeLimitMinGreaterThanMax);
        }
        Ok(cfg)
    }
}

/// What admins read of the settings is what was last written: after the
/// public settings were set, reading them gives them back; a second write
/// replaces the first; writing back what was read changes nothing; and the
/// private settings are never touched.
pub proof fn law_public_reads_back(cfg: Config, written: PublicConfig, again: PublicConfig)
    ensures
        cfg.with_public(written).public_view() == written,
        cfg.with_public(written).with_public(again) == cfg.with_public(again),
        cfg.with_public(cfg.public_view()) == cfg,
        cfg.with_public(written).rpc_password == cfg.rpc_password,
        cfg.with_public(written).super_admin_whitelist == cfg.super_admin_whitelist,
        cfg.with_public(written).admin_whitelist == cfg.admin_whitelist,
{
}

} // verus!
