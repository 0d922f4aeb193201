//! Settings read from the environment.

use vstd::prelude::*;

use crate::error::AppError;
use crate::text::{chars_of, decimal_value, join_path, path_join, push_text};

verus! {

/// The environment variables the settings come from, as read (`None` when a
/// variable is unset or not valid Unicode). `home` is `HOME`.
#[derive(Debug, Clone)]
pub struct EnvVars {
    pub ras_home: Option<String>,
    pub home: Option<String>,
    pub config_dir: Option<String>,
    pub extensions_dir: Option<String>,
    pub profiles_dir: Option<String>,
    pub anthropic_api_key: Option<String>,
    pub claude_code_oauth: Option<String>,
    pub cdp_timeout_s: Option<String>,
    pub action_timeout_s: Option<String>,
    pub anonymized_telemetry: Option<String>,
    pub cloud_sync: Option<String>,
}

/// The agent's settings. Paths are path texts; timeouts are whole seconds.
#[derive(Debug, Clone)]
pub struct Config {
    pub home_dir: String,
    pub config_dir: String,
    pub extensions_dir: String,
    pub profiles_dir: String,
    pub anthropic_api_key: Option<String>,
    pub claude_code_oauth_enabled: bool,
    pub cdp_timeout_secs: u64,
    pub action_timeout_secs: u64,
    pub anonymized_telemetry: bool,
    pub cloud_sync: bool,
}

/// Why the settings could not be read.
#[derive(Debug, Clone)]
pub enum ConfigError {
    /// A required variable is missing.
    MissingEnv(String),
    /// A variable holds a value that does not parse: its name and its value.
    InvalidValue(String, String),
}

/// The text of a configuration error.
pub open spec fn config_error_text(e: ConfigError) -> Seq<char> {
    match e {
        ConfigError::MissingEnv(k) => "missing required env var: "@ + k@,
        ConfigError::InvalidValue(k, v) => "invalid value for "@ + k@ + ": "@ + v@,
    }
}

impl ConfigError {
    /// The error's text.
    pub fn message(&self) -> (m: String)
        ensures
            m@ == config_error_text(*self),
    {
        let mut m = String::new();
        match self {
            ConfigError::MissingEnv(k) => {
                push_text(&mut m, "missing required env var: ");
                push_text(&mut m, k.as_str());
            },
            ConfigError::InvalidValue(k, v) => {
                push_text(&mut m, "invalid value for ");
                push_text(&mut m, k.as_str());
                push_text(&mut m, ": ");
                push_text(&mut m, v.as_str());
            },
        }
        m
    }

    /// The error as a validation failure of the application.
    pub fn into_app_error(self) -> (e: AppError)
        ensures
            e matches AppError::ValidationError(m) && m@ == config_error_text(self),
    {
        AppError::ValidationError(self.message())
    }
}

/// Whether every character of `s` is an ASCII digit.
pub open spec fn all_digits(s: Seq<char>) -> bool {
    forall|i: int| 0 <= i < s.len() ==> '0' <= #[trigger] s[i] <= '9'
}

/// `u64`'s `FromStr`: an optional `+`, then one or more digits, of a value
/// that fits in 64 bits.
pub open spec fn parsed_u64(s: Seq<char>) -> Option<u64> {
    let d = if s.len() > 0 && s[0] == '+' { s.skip(1) } else { s };
    if d.len() == 0 || !all_digits(d) || decimal_value(d) > u64::MAX {
        None
    } else {
        Some(decimal_value(d) as u64)
    }
}

proof fn lemma_decimal_value_grows(s: Seq<char>, i: int, j: int)
    requires
        0 <= i <= j <= s.len(),
    ensures
        decimal_value(s.take(i)) <= decimal_value(s.take(j)),
    decreases j - i,
{
    if i < j {
        lemma_decimal_value_grows(s, i, j - 1);
        assert(s.take(j).drop_last() == s.take(j - 1));
    }
}

/// Parses a decimal `u64` as `str::parse::<u64>` does.
pub fn parse_u64(s: &str) -> (r: Option<u64>)
    ensures
        r == parsed_u64(s@),
{
    let v = chars_of(s);
    let start: usize = if v.len() > 0 && v[0] == '+' { 1 } else { 0 };
    let ghost d = if s@.len() > 0 && s@[0] == '+' { s@.skip(1) } else { s@ };
    assert(d == v@.skip(start as int));
    if v.len() == start {
        return None;
    }
    let mut value: u64 = 0;
    let mut i = start;
    while i < v.len()
        invariant
            v@ == s@,
            start <= i <= v@.len(),
            d == v@.skip(start as int),
            d == (if s@.len() > 0 && s@[0] == '+' { s@.skip(1) } else { s@ }),
            all_digits(d.take(i - start)),
            value == decimal_value(d.take(i - start)),
        decreases v@.len() - i,
    {
        let c = v[i];
        assert(d.take(i - start + 1).drop_last() == d.take(i - start));
        assert(d[i - start] == c);
        if !('0' <= c && c <= '9') {
            assert(!('0' <= d[i - start] <= '9'));
            assert(!all_digits(d));
            return None;
        }
        let digit = (c as u32 - 48) as u64;
        assert(decimal_value(d.take(i - start + 1)) == value * 10 + digit);
        if value > (u64::MAX - digit) / 10 {
            assert(value * 10 + digit > u64::MAX) by (nonlinear_arith)
                requires
                    value > (u64::MAX - digit) / 10,
                    digit <= 9,
            ;
            proof {
                lemma_decimal_value_grows(d, i - start + 1, d.len() as int);
                assert(d.take(d.len() as int) == d);
            }
            return None;
        }
        value = value * 10 + digit;
        assert(all_digits(d.take(i - start + 1)));
        i = i + 1;
    }
    assert(d.take(i - start) == d);
    Some(value)
}

/// Seconds read from a variable `key`: its default when unset, its value when
/// it parses, else an invalid-value error naming the variable and its value.
pub open spec fn seconds_setting(key: Seq<char>, value: Option<String>, default_secs: u64) -> Result<u64, (Seq<char>, Seq<char>)> {
    match value {
        None => Ok(default_secs),
        Some(v) => match parsed_u64(v@) {
            Some(n) => Ok(n),
            None => Err((key, v@)),
        },
    }
}

/// Reads a timeout in seconds from the value of variable `key`.
pub fn parse_duration(key: &str, value: &Option<String>, default_secs: u64) -> (r: Result<u64, ConfigError>)
    ensures
        match seconds_setting(key@, *value, default_secs) {
            Ok(n) => r == Ok::<u64, ConfigError>(n),
            Err((k, v)) => r matches Err(ConfigError::InvalidValue(k2, v2)) && k2@ == k && v2@ == v,
        },
{
    match value {
        None => Ok(default_secs),
        Some(v) => match parse_u64(v.as_str()) {
            Some(n) => Ok(n),
            None => {
                let mut k = String::new();
                push_text(&mut k, key);
                Err(ConfigError::InvalidValue(k, v.clone()))
            },
        },
    }
}

/// A variable read as a flag that is on unless set to `0`.
pub open spec fn on_unless_zero(v: Option<String>) -> bool {
    !(v is Some && v.unwrap()@ == "0"@)
}

/// A variable read as a flag that is on only when set to `1`.
pub open spec fn on_if_one(v: Option<String>) -> bool {
    v is Some && v.unwrap()@ == "1"@
}

fn flag_is(v: &Option<String>, expected: &str) -> (b: bool)
    ensures
        b == (v is Some && v.unwrap()@ == expected@),
{
    match v {
        Some(s) => crate::text::same_text(s.as_str(), expected),
        None => false,
    }
}

/// The directory holding the agent's configuration when not set explicitly.
pub open spec fn default_config_dir(home: Seq<char>) -> Seq<char> {
    path_join(path_join(home, ".config"@), "rust-ai-surfer"@)
}

/// The home directory: `RAS_HOME`, else `HOME`.
pub open spec fn home_setting(vars: EnvVars) -> Option<Seq<char>> {
    match vars.ras_home {
        Some(h) => Some(h@),
        None => match vars.home {
            Some(h) => Some(h@),
            None => None,
        },
    }
}

fn pick(v: &Option<String>, fallback: String) -> (r: String)
    ensures
        r@ == match *v {
            Some(s) => s@,
            None => fallback@,
        },
{
    match v {
        Some(s) => s.clone(),
        None => fallback,
    }
}

impl Config {
    /// The settings from these variables. Fails when neither `RAS_HOME` nor
    /// `HOME` is set, then when `RAS_CDP_TIMEOUT_S`, then `RAS_ACTION_TIMEOUT_S`,
    /// holds a value that is not a whole number of seconds.
    pub fn from_vars(vars: &EnvVars) -> (r: Result<Config, ConfigError>)
        ensures
            home_setting(*vars) is None ==> (r matches Err(ConfigError::MissingEnv(k)) && k@ == "RAS_HOME"@),
            home_setting(*vars) is Some && seconds_setting("RAS_CDP_TIMEOUT_S"@, vars.cdp_timeout_s, 60) is Err
                ==> (r matches Err(ConfigError::InvalidValue(k, v)) && seconds_setting(
                    "RAS_CDP_TIMEOUT_S"@, vars.cdp_timeout_s, 60) == Err::<u64, (Seq<char>, Seq<char>)>((k@, v@))),
            home_setting(*vars) is Some && seconds_setting("RAS_CDP_TIMEOUT_S"@, vars.cdp_timeout_s, 60) is Ok
                && seconds_setting("RAS_ACTION_TIMEOUT_S"@, vars.action_timeout_s, 180) is Err
                ==> (r matches Err(ConfigError::InvalidValue(k, v)) && seconds_setting(
                    "RAS_ACTION_TIMEOUT_S"@, vars.action_timeout_s, 180) == Err::<u64, (Seq<char>, Seq<char>)>((k@, v@))),
            r is Ok ==> {
                let c = r.unwrap();
                let home = home_setting(*vars).unwrap();
                let config_dir = match vars.config_dir {
                    Some(d) => d@,
                    None => default_config_dir(home),
                };
                &&& home_setting(*vars) is Some
                &&& c.home_dir@ == home
                &&& c.config_dir@ == config_dir
                &&& c.extensions_dir@ == match vars.extensions_dir {
                    Some(d) => d@,
                    None => path_join(config_dir, "extensions"@),
                }
                &&& c.profiles_dir@ == match vars.profiles_dir {
                    Some(d) => d@,
                    None => path_join(config_dir, "profiles"@),
                }
                &&& c.anthropic_api_key == vars.anthropic_api_key
                &&& c.claude_code_oauth_enabled == on_unless_zero(vars.claude_code_oauth)
                &&& Ok::<u64, (Seq<char>, Seq<char>)>(c.cdp_timeout_secs) == seconds_setting("RAS_CDP_TIMEOUT_S"@, vars.cdp_timeout_s, 60)
                &&& Ok::<u64, (Seq<char>, Seq<char>)>(c.action_timeout_secs) == seconds_setting("RAS_ACTION_TIMEOUT_S"@, vars.action_timeout_s, 180)
                &&& c.anonymized_telemetry == on_unless_zero(vars.anonymized_telemetry)
                &&& c.cloud_sync == on_if_one(vars.cloud_sync)
            },
            home_setting(*vars) is Some && seconds_setting("RAS_CDP_TIMEOUT_S"@, vars.cdp_timeout_s, 60) is Ok
                && seconds_setting("RAS_ACTION_TIMEOUT_S"@, vars.action_timeout_s, 180) is Ok ==> r is Ok,
    {
        let home_dir = match &vars.ras_home {
            Some(h) => h.clone(),
            None => match &vars.home {
                Some(h) => h.clone(),
                None => {
                    let mut k = String::new();
                    push_text(&mut k, "RAS_HOME");
                    return Err(ConfigError::MissingEnv(k));
                },
            },
        };
        let default_dir = join_path(join_path(home_dir.as_str(), ".config").as_str(), "rust-ai-surfer");
        let config_dir = pick(&vars.config_dir, default_dir);
        let extensions_dir = pick(&vars.extensions_dir, join_path(config_dir.as_str(), "extensions"));
        let profiles_dir = pick(&vars.profiles_dir, join_path(config_dir.as_str(), "profiles"));
        let cdp_timeout_secs = match parse_duration("RAS_CDP_TIMEOUT_S", &vars.cdp_timeout_s, 60) {
            Ok(n) => n,
            Err(e) => return Err(e),
        };
        let action_timeout_secs = match parse_duration("RAS_ACTION_TIMEOUT_S", &vars.action_timeout_s, 180) {
            Ok(n) => n,
            Err(e) => return Err(e),
        };
        let anthropic_api_key = match &vars.anthropic_api_key {
            Some(k) => Some(k.clone()),
            None => None,
        };
        Ok(Config {
            home_dir,
            config_dir,
            extensions_dir,
            profiles_dir,
            anthropic_api_key,
            claude_code_oauth_enabled: !flag_is(&vars.claude_code_oauth, "0"),
            cdp_timeout_secs,
            action_timeout_secs,
            anonymized_telemetry: !flag_is(&vars.anonymized_telemetry, "0"),
            cloud_sync: flag_is(&vars.cloud_sync, "1"),
        })
    }
}

} // verus!
