//! Process configuration: resolution of settings from raw environment
//! values and an optional configuration file.
//!
//! Reading the environment and the file is I/O and stays outside the
//! library; what is verified here is the resolution itself — which source
//! wins, how numbers and booleans are read, and exactly which error is
//! reported when a setting is missing or malformed.

use vstd::prelude::*;
use vstd::string::StrSliceExecFns;
use vstd::string::StringExecFns;

use crate::db::DbUrl;

verus! {

pub const CONFIG_PATH: &'static str = ".config/health-tracker/config.yaml";

type NumberEnvVar = i64;
type ApiPort = NumberEnvVar;
type ApiHostname = String;
type ApiToken = String;

/// The fully resolved process configuration.
#[derive(Debug)]
pub struct Config {
    pub database_url: DbUrl,
    /// Port at which the API is listening
    pub api_port: ApiPort,
    pub enable_swagger_ui: bool,
    /// Base URL used by clients of the documentation UI to talk to the API.
    pub api_hostname: ApiHostname,
    pub api_token: ApiToken,
}

/// The mathematical value of a resolved configuration.
pub ghost struct ConfigV {
    pub database_url: Seq<char>,
    pub api_port: i64,
    pub enable_swagger_ui: bool,
    pub api_hostname: Seq<char>,
    pub api_token: Seq<char>,
}

impl View for Config {
    type V = ConfigV;

    open spec fn view(&self) -> ConfigV {
        ConfigV {
            database_url: self.database_url@,
            api_port: self.api_port,
            enable_swagger_ui: self.enable_swagger_ui,
            api_hostname: self.api_hostname@,
            api_token: self.api_token@,
        }
    }
}

impl Clone for Config {
    fn clone(&self) -> (r: Self)
        ensures
            r@ == self@,
    {
        Config {
            database_url: self.database_url.clone(),
            api_port: self.api_port,
            enable_swagger_ui: self.enable_swagger_ui,
            api_hostname: self.api_hostname.clone(),
            api_token: self.api_token.clone(),
        }
    }
}

/// The optional settings a configuration file may carry.
#[derive(Debug)]
pub struct ConfigFile {
    pub database_url: Option<DbUrl>,
    pub api_port: Option<ApiPort>,
    pub enable_swagger_ui: Option<bool>,
    pub api_hostname: Option<ApiHostname>,
    pub api_token: Option<ApiToken>,
}

/// The mathematical value of a configuration file.
pub ghost struct ConfigFileV {
    pub database_url: Option<Seq<char>>,
    pub api_port: Option<i64>,
    pub enable_swagger_ui: Option<bool>,
    pub api_hostname: Option<Seq<char>>,
    pub api_token: Option<Seq<char>>,
}

impl View for ConfigFile {
    type V = ConfigFileV;

    open spec fn view(&self) -> ConfigFileV {
        ConfigFileV {
            database_url: self.database_url.deep_view(),
            api_port: self.api_port,
            enable_swagger_ui: self.enable_swagger_ui,
            api_hostname: self.api_hostname.deep_view(),
            api_token: self.api_token.deep_view(),
        }
    }
}

impl DeepView for ConfigFile {
    type V = ConfigFileV;

    open spec fn deep_view(&self) -> ConfigFileV {
        self.view()
    }
}

/// The raw readings of the environment variables the configuration may come
/// from; `None` marks a variable that is not set.
#[derive(Debug)]
pub struct EnvValues {
    pub database_url: Option<String>,
    pub api_port: Option<String>,
    pub enable_swagger_ui: Option<String>,
    pub api_hostname: Option<String>,
    pub api_token: Option<String>,
}

/// The mathematical value of the environment readings.
pub ghost struct EnvValuesV {
    pub database_url: Option<Seq<char>>,
    pub api_port: Option<Seq<char>>,
    pub enable_swagger_ui: Option<Seq<char>>,
    pub api_hostname: Option<Seq<char>>,
    pub api_token: Option<Seq<char>>,
}

impl View for EnvValues {
    type V = EnvValuesV;

    open spec fn view(&self) -> EnvValuesV {
        EnvValuesV {
            database_url: self.database_url.deep_view(),
            api_port: self.api_port.deep_view(),
            enable_swagger_ui: self.enable_swagger_ui.deep_view(),
            api_hostname: self.api_hostname.deep_view(),
            api_token: self.api_token.deep_view(),
        }
    }
}

/// A configuration that could not be resolved.
#[derive(Debug)]
pub struct Error {
    pub reason: String,
}

/// An environment variable that is absent or carries an unusable value.
#[derive(Debug)]
pub enum EnvError {
    MissingEnvironmentVariable(String),
    UnsupportedEnvironmentVariableValue(String),
}

/// A configuration file that could not be loaded.
#[derive(Debug)]
pub enum ConfigError {
    HomeNotFound,
    ConfigFileNotFound(String),
    ConfigFileHasUnsupportedFormat(String),
}

/// A string-valued environment variable that is absent.
#[derive(Debug)]
pub enum StringEnvVarError {
    MissingEnvironmentVariable(String),
}

// ---------------------------------------------------------------------------
// Decimal integers
// ---------------------------------------------------------------------------

/// A decimal digit.
pub open spec fn is_dec_digit(c: char) -> bool {
    '0' <= c && c <= '9'
}

/// Every character is a decimal digit.
pub open spec fn all_dec_digits(s: Seq<char>) -> bool {
    forall|i: int| 0 <= i < s.len() ==> is_dec_digit(#[trigger] s[i])
}

/// The value of a string of decimal digits, most significant first.
pub open spec fn digits_val(s: Seq<char>) -> int
    decreases s.len(),
{
    if s.len() == 0 {
        0
    } else {
        digits_val(s.drop_last()) * 10 + (s.last() as int - '0' as int)
    }
}

/// The digits of a number token, after any single leading sign.
pub open spec fn num_body(s: Seq<char>) -> Seq<char> {
    if s.len() > 0 && (s[0] == '-' || s[0] == '+') {
        s.drop_first()
    } else {
        s
    }
}

/// Whether a number token carries a leading minus sign.
pub open spec fn num_neg(s: Seq<char>) -> bool {
    s.len() > 0 && s[0] == '-'
}

/// The `i64` a string denotes: an optional sign, then one or more decimal
/// digits, provided the value fits; anything else is `None`.  This is how
/// `i64` reads decimal strings.
pub open spec fn spec_parse_i64(s: Seq<char>) -> Option<i64> {
    let body = num_body(s);
    if body.len() == 0 || !all_dec_digits(body) {
        None
    } else {
        let v = if num_neg(s) {
            -digits_val(body)
        } else {
            digits_val(body)
        };
        if i64::MIN <= v <= i64::MAX {
            Some(v as i64)
        } else {
            None
        }
    }
}

proof fn lemma_digits_val_nonneg(s: Seq<char>)
    requires
        all_dec_digits(s),
    ensures
        digits_val(s) >= 0,
    decreases s.len(),
{
    if s.len() > 0 {
        assert(all_dec_digits(s.drop_last())) by {
            assert(forall|i: int|
                0 <= i < s.len() - 1 ==> s.drop_last()[i] == #[trigger] s[i]);
        }
        lemma_digits_val_nonneg(s.drop_last());
    }
}

/// A digit string is worth at least any of its prefixes.
proof fn lemma_digits_val_prefix(s: Seq<char>, k: int)
    requires
        all_dec_digits(s),
        0 <= k <= s.len(),
    ensures
        digits_val(s.subrange(0, k)) <= digits_val(s),
    decreases s.len() - k,
{
    if k == s.len() {
        assert(s.subrange(0, k) =~= s);
    } else {
        lemma_digits_val_prefix(s, k + 1);
        let p = s.subrange(0, k + 1);
        assert(p.drop_last() =~= s.subrange(0, k));
        assert(all_dec_digits(s.subrange(0, k))) by {
            assert(forall|i: int|
                0 <= i < k ==> s.subrange(0, k)[i] == #[trigger] s[i]);
        }
        lemma_digits_val_nonneg(s.subrange(0, k));
        assert(digits_val(p) == digits_val(s.subrange(0, k)) * 10 + (p.last() as int
            - '0' as int));
        assert(is_dec_digit(s[k]));
    }
}

/// Reads a decimal `i64`, accepting exactly the strings `i64` itself
/// accepts.
pub fn parse_i64(s: &str) -> (r: Option<i64>)
    ensures
        r == spec_parse_i64(s@),
{
    let n = s.unicode_len();
    if n == 0 {
        return None;
    }
    let first = s.get_char(0);
    let neg = first == '-';
    let start: usize = if first == '-' || first == '+' {
        1
    } else {
        0
    };
    if start == n {
        return None;
    }
    let ghost body = num_body(s@);
    proof {
        assert(body =~= s@.subrange(start as int, n as int));
    }
    let mut acc: i128 = 0;
    let mut i: usize = start;
    while i < n
        invariant
            start <= i <= n,
            n == s@.len(),
            start == 1 ==> (s@[0] == '-' || s@[0] == '+'),
            start == 0 ==> !(s@[0] == '-' || s@[0] == '+'),
            neg == num_neg(s@),
            body == num_body(s@),
            body =~= s@.subrange(start as int, n as int),
            all_dec_digits(s@.subrange(start as int, i as int)),
            acc == digits_val(s@.subrange(start as int, i as int)),
            0 <= acc <= 0x8000_0000_0000_0000,
        decreases n - i,
    {
        let c = s.get_char(i);
        if !('0' <= c && c <= '9') {
            proof {
                assert(body[i - start] == s@[i as int]);
                assert(!all_dec_digits(body));
            }
            return None;
        }
        let d = (c as u32) - ('0' as u32);
        let ghost prefix = s@.subrange(start as int, i as int);
        let ghost prefix1 = s@.subrange(start as int, i as int + 1);
        proof {
            assert(prefix1.drop_last() =~= prefix);
            assert(prefix1.last() == s@[i as int]);
            assert(forall|j: int| 0 <= j < prefix1.len() - 1 ==> prefix1[j] == #[trigger] prefix[j]);
        }
        acc = acc * 10 + d as i128;
        i = i + 1;
        if acc > 0x8000_0000_0000_0000 {
            proof {
                if all_dec_digits(body) {
                    lemma_digits_val_prefix(body, i - start);
                    assert(body.subrange(0, i - start) =~= s@.subrange(
                        start as int,
                        i as int,
                    ));
                    assert(digits_val(body) >= acc);
                }
            }
            return None;
        }
    }
    proof {
        assert(s@.subrange(start as int, i as int) =~= body);
    }
    if neg {
        Some((-acc) as i64)
    } else {
        if acc == 0x8000_0000_0000_0000 {
            None
        } else {
            Some(acc as i64)
        }
    }
}

// ---------------------------------------------------------------------------
// Boolean tokens
// ---------------------------------------------------------------------------

/// The code point of a character with any ASCII uppercase letter folded to
/// its lowercase form.
pub open spec fn lower_code(c: char) -> int {
    if 'A' <= c && c <= 'Z' {
        c as int + 32
    } else {
        c as int
    }
}

/// Whether `s` equals the (lowercase) token `t` up to ASCII case.
pub open spec fn spec_matches_ci(s: Seq<char>, t: Seq<char>) -> bool {
    s.len() == t.len() && forall|i: int| 0 <= i < s.len() ==> lower_code(s[i]) == #[trigger] t[i] as int
}

/// The boolean a token denotes, matched up to ASCII case: `y`, `yes` and
/// `true` affirm; `n`, `no` and `false` deny; anything else is `None`.
pub open spec fn spec_parse_bool(s: Seq<char>) -> Option<bool> {
    if spec_matches_ci(s, "y"@) || spec_matches_ci(s, "yes"@) || spec_matches_ci(s, "true"@) {
        Some(true)
    } else if spec_matches_ci(s, "n"@) || spec_matches_ci(s, "no"@) || spec_matches_ci(
        s,
        "false"@,
    ) {
        Some(false)
    } else {
        None
    }
}

/// Decides whether `s` equals the token `t` up to ASCII case.
fn matches_ci(s: &str, t: &str) -> (r: bool)
    ensures
        r == spec_matches_ci(s@, t@),
{
    let ns = s.unicode_len();
    let nt = t.unicode_len();
    if ns != nt {
        return false;
    }
    let mut i: usize = 0;
    while i < ns
        invariant
            i <= ns,
            ns == s@.len(),
            ns == t@.len(),
            forall|j: int| 0 <= j < i ==> lower_code(s@[j]) == #[trigger] t@[j] as int,
        decreases ns - i,
    {
        let cs = s.get_char(i);
        let ct = t.get_char(i);
        let folded: u32 = if 'A' <= cs && cs <= 'Z' {
            cs as u32 + 32
        } else {
            cs as u32
        };
        if folded != ct as u32 {
            return false;
        }
        i = i + 1;
    }
    true
}

/// Reads a boolean token as the environment understands it.
pub fn parse_bool(s: &str) -> (r: Option<bool>)
    ensures
        r == spec_parse_bool(s@),
{
    if matches_ci(s, "y") || matches_ci(s, "yes") || matches_ci(s, "true") {
        Some(true)
    } else if matches_ci(s, "n") || matches_ci(s, "no") || matches_ci(s, "false") {
        Some(false)
    } else {
        None
    }
}

// ---------------------------------------------------------------------------
// Resolution
// ---------------------------------------------------------------------------

/// The database URL: environment first, then file, else an error.
pub open spec fn spec_resolve_url(env: EnvValuesV, file: Option<ConfigFileV>) -> Result<
    Seq<char>,
    Seq<char>,
> {
    match env.database_url {
        Some(v) => Ok(v),
        None => match file {
            Some(f) => match f.database_url {
                Some(v) => Ok(v),
                None => Err(
                    "health-tracker database URL is not set, please add it to ~/.config/health-tracker/config.yaml or as DATABASE_URL"@,
                ),
            },
            None => Err(
                "health-tracker database URL is not set, please add it to ~/.config/health-tracker/config.yaml or as DATABASE_URL"@,
            ),
        },
    }
}

/// The API port: a number read from the environment wins; an unreadable
/// environment value falls back to the file, and is an error without one.
pub open spec fn spec_resolve_port(env: EnvValuesV, file: Option<ConfigFileV>) -> Result<
    i64,
    Seq<char>,
> {
    match env.api_port {
        Some(raw) => match spec_parse_i64(raw) {
            Some(v) => Ok(v),
            None => match file {
                Some(f) => match f.api_port {
                    Some(p) => Ok(p),
                    None => Err(
                        "expected API_PORT to be a number, but got "@ + raw + " instead"@,
                    ),
                },
                None => Err("expected API_PORT to be a number, but got "@ + raw + " instead"@),
            },
        },
        None => match file {
            Some(f) => match f.api_port {
                Some(p) => Ok(p),
                None => Err(
                    "health-tracker API port is not set, please add it to ~/.config/health-tracker/config.yaml or as API_PORT"@,
                ),
            },
            None => Err(
                "health-tracker API port is not set, please add it to ~/.config/health-tracker/config.yaml or as API_PORT"@,
            ),
        },
    }
}

/// The documentation-UI switch: a boolean token from the environment wins,
/// an unreadable one is an error, and an absent one defaults to the file's
/// value or to off.
pub open spec fn spec_resolve_swagger(env: EnvValuesV, file: Option<ConfigFileV>) -> Result<
    bool,
    Seq<char>,
> {
    match env.enable_swagger_ui {
        Some(raw) => match spec_parse_bool(raw) {
            Some(b) => Ok(b),
            None => Err("environment variable "@ + raw + " has an unsupported value "@),
        },
        None => match file {
            Some(f) => match f.enable_swagger_ui {
                Some(b) => Ok(b),
                None => Ok(false),
            },
            None => Ok(false),
        },
    }
}

/// The hostname: environment first, then file, else an error.
pub open spec fn spec_resolve_hostname(env: EnvValuesV, file: Option<ConfigFileV>) -> Result<
    Seq<char>,
    Seq<char>,
> {
    match env.api_hostname {
        Some(v) => Ok(v),
        None => match file {
            Some(f) => match f.api_hostname {
                Some(v) => Ok(v),
                None => Err(
                    "health-tracker hostname is not set, please add it to ~/.config/health-tracker/config.yaml or as API_HOSTNAME"@,
                ),
            },
            None => Err(
                "health-tracker hostname is not set, please add it to ~/.config/health-tracker/config.yaml or as API_HOSTNAME"@,
            ),
        },
    }
}

/// The shared secret: a non-empty environment value wins, an empty one is
/// an error, and an absent one falls back to the file.
pub open spec fn spec_resolve_token(env: EnvValuesV, file: Option<ConfigFileV>) -> Result<
    Seq<char>,
    Seq<char>,
> {
    match env.api_token {
        Some(t) => if t.len() == 0 {
            Err(
                "health-tracker API token is an empty string, please use a valid API token"@,
            )
        } else {
            Ok(t)
        },
        None => match file {
            Some(f) => match f.api_token {
                Some(t) => Ok(t),
                None => Err(
                    "health-tracker API token is not set, please add it to ~/.config/health-tracker/config.yaml or as API_TOKEN"@,
                ),
            },
            None => Err(
                "health-tracker API token is not set, please add it to ~/.config/health-tracker/config.yaml or as API_TOKEN"@,
            ),
        },
    }
}

/// The configuration the raw sources resolve to, or the first error met,
/// fields considered in a fixed order.
pub open spec fn spec_get_config(env: EnvValuesV, file: Option<ConfigFileV>) -> Result<
    ConfigV,
    Seq<char>,
> {
    match spec_resolve_url(env, file) {
        Err(e) => Err(e),
        Ok(database_url) => match spec_resolve_port(env, file) {
            Err(e) => Err(e),
            Ok(api_port) => match spec_resolve_swagger(env, file) {
                Err(e) => Err(e),
                Ok(enable_swagger_ui) => match spec_resolve_hostname(env, file) {
                    Err(e) => Err(e),
                    Ok(api_hostname) => match spec_resolve_token(env, file) {
                        Err(e) => Err(e),
                        Ok(api_token) => Ok(
                            ConfigV {
                                database_url,
                                api_port,
                                enable_swagger_ui,
                                api_hostname,
                                api_token,
                            },
                        ),
                    },
                },
            },
        },
    }
}

/// Builds the message for an environment value that should have been a
/// port number.
fn port_error_message(raw: &String) -> (r: String)
    ensures
        r@ == "expected API_PORT to be a number, but got "@ + raw@ + " instead"@,
{
    let mut m = "expected API_PORT to be a number, but got ".to_owned();
    m.append(raw.as_str());
    m.append(" instead");
    m
}

/// Builds the message for an environment value that should have been a
/// boolean token.
fn swagger_error_message(raw: &String) -> (r: String)
    ensures
        r@ == "environment variable "@ + raw@ + " has an unsupported value "@,
{
    let mut m = "environment variable ".to_owned();
    m.append(raw.as_str());
    m.append(" has an unsupported value ");
    m
}

/// Resolves the configuration from the raw environment readings and the
/// optional configuration file: each field comes from the environment when
/// set there, else from the file, and the first field that cannot be
/// resolved decides the error.
pub fn get_config(env: &EnvValues, config_file: &Option<ConfigFile>) -> (r: Result<Config, Error>)
    ensures
        match r {
            Ok(c) => spec_get_config(env@, config_file.deep_view()) == Ok::<ConfigV, Seq<char>>(
                c@,
            ),
            Err(e) => spec_get_config(env@, config_file.deep_view()) == Err::<
                ConfigV,
                Seq<char>,
            >(e.reason@),
        },
{
    let database_url: String = match &env.database_url {
        Some(v) => v.clone(),
        None => {
            let from_file: Option<String> = match config_file {
                Some(f) => match &f.database_url {
                    Some(v) => Some(v.clone()),
                    None => None,
                },
                None => None,
            };
            match from_file {
                Some(v) => v,
                None => {
                    return Err(
                        Error {
                            reason: "health-tracker database URL is not set, please add it to ~/.config/health-tracker/config.yaml or as DATABASE_URL".to_owned(),
                        },
                    );
                },
            }
        },
    };
    let api_port: i64 = match &env.api_port {
        Some(raw) => match parse_i64(raw.as_str()) {
            Some(v) => v,
            None => {
                let from_file: Option<i64> = match config_file {
                    Some(f) => f.api_port,
                    None => None,
                };
                match from_file {
                    Some(p) => p,
                    None => {
                        return Err(Error { reason: port_error_message(raw) });
                    },
                }
            },
        },
        None => {
            let from_file: Option<i64> = match config_file {
                Some(f) => f.api_port,
                None => None,
            };
            match from_file {
                Some(p) => p,
                None => {
                    return Err(
                        Error {
                            reason: "health-tracker API port is not set, please add it to ~/.config/health-tracker/config.yaml or as API_PORT".to_owned(),
                        },
                    );
                },
            }
        },
    };
    let enable_swagger_ui: bool = match &env.enable_swagger_ui {
        Some(raw) => match parse_bool(raw.as_str()) {
            Some(b) => b,
            None => {
                return Err(Error { reason: swagger_error_message(raw) });
            },
        },
        None => match config_file {
            Some(f) => match f.enable_swagger_ui {
                Some(b) => b,
                None => false,
            },
            None => false,
        },
    };
    let api_hostname: String = match &env.api_hostname {
        Some(v) => v.clone(),
        None => {
            let from_file: Option<String> = match config_file {
                Some(f) => match &f.api_hostname {
                    Some(v) => Some(v.clone()),
                    None => None,
                },
                None => None,
            };
            match from_file {
                Some(v) => v,
                None => {
                    return Err(
                        Error {
                            reason: "health-tracker hostname is not set, please add it to ~/.config/health-tracker/config.yaml or as API_HOSTNAME".to_owned(),
                        },
                    );
                },
            }
        },
    };
    let api_token: String = match &env.api_token {
        Some(t) => {
            if t.as_str().is_empty() {
                return Err(
                    Error {
                        reason: "health-tracker API token is an empty string, please use a valid API token".to_owned(),
                    },
                );
            }
            t.clone()
        },
        None => {
            let from_file: Option<String> = match config_file {
                Some(f) => match &f.api_token {
                    Some(t) => Some(t.clone()),
                    None => None,
                },
                None => None,
            };
            match from_file {
                Some(t) => t,
                None => {
                    return Err(
                        Error {
                            reason: "health-tracker API token is not set, please add it to ~/.config/health-tracker/config.yaml or as API_TOKEN".to_owned(),
                        },
                    );
                },
            }
        },
    };
    Ok(Config { database_url, api_port, enable_swagger_ui, api_hostname, api_token })
}

} // verus!
