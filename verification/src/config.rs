//! The server's settings, their defaults, and which bind addresses are
//! allowed.
use vstd::prelude::*;

use crate::text::{
    all_whitespace, char_count, is_unicode_whitespace, joined, lemma_blank_iff_all_whitespace,
    lemma_trim_keeps_inner_text, lemma_trim_removes_only_edge_whitespace, trim, trimmed,
};

verus! {

/// The model asked for when none is configured.
pub const DEFAULT_OPENROUTER_MODEL: &'static str = "nvidia/nemotron-3-super-120b-a12b:free";

/// The server's settings.
#[derive(Debug, Clone, PartialEq, Eq)]
pub struct Config {
    pub bind_addr: String,
    pub database_url: String,
    pub openrouter_api_key: Option<String>,
    pub openrouter_model: String,
    pub openrouter_http_referer: Option<String>,
    pub openrouter_title: String,
}

/// The raw values of the environment variables the settings come from;
/// `None` when a variable is unset (or not Unicode).
#[derive(Debug, Clone, PartialEq, Eq)]
pub struct EnvVars {
    pub backend_bind_addr: Option<String>,
    pub database_url: Option<String>,
    pub openrouter_api_key: Option<String>,
    pub openrouter_model: Option<String>,
    pub openrouter_http_referer: Option<String>,
    pub openrouter_title: Option<String>,
    pub x_openrouter_title: Option<String>,
}

/// A variable's value trimmed, when something is left of it.
pub open spec fn non_empty_spec(value: Option<String>) -> Option<Seq<char>> {
    match value {
        Some(v) => if trim(v@).len() > 0 {
            Some(trim(v@))
        } else {
            None
        },
        None => None,
    }
}

pub open spec fn opt_view(value: Option<String>) -> Option<Seq<char>> {
    match value {
        Some(v) => Some(v@),
        None => None,
    }
}

/// A variable's value trimmed, or `None` when it is unset or blank.
pub fn non_empty_env_value(value: Option<String>) -> (r: Option<String>)
    ensures
        opt_view(r) == non_empty_spec(value),
{
    match value {
        Some(v) => {
            let t = trimmed(v.as_str());
            if char_count(t.as_str()) > 0 {
                Some(t)
            } else {
                None
            }
        },
        None => None,
    }
}

/// `value` when it is set, `default` otherwise.
pub open spec fn or_default(value: Option<Seq<char>>, default: Seq<char>) -> Seq<char> {
    match value {
        Some(v) => v,
        None => default,
    }
}

impl Config {
    /// The settings for tests: an ephemeral loopback port, an in-memory
    /// database and no API key.
    pub fn for_tests() -> (config: Config)
        ensures
            config.bind_addr@ == "127.0.0.1:0"@,
            config.database_url@ == "sqlite::memory:"@,
            config.openrouter_api_key is None,
            config.openrouter_model@ == DEFAULT_OPENROUTER_MODEL@,
            config.openrouter_http_referer is None,
            config.openrouter_title@ == "gpt-copy-v6-tests"@,
    {
        Config {
            bind_addr: "127.0.0.1:0".to_owned(),
            database_url: "sqlite::memory:".to_owned(),
            openrouter_api_key: None,
            openrouter_model: DEFAULT_OPENROUTER_MODEL.to_owned(),
            openrouter_http_referer: None,
            openrouter_title: "gpt-copy-v6-tests".to_owned(),
        }
    }

    /// The settings from the environment: the bind address and database
    /// URL as given (with defaults), the other values trimmed and ignored
    /// when blank; the title falls back to `X_OPENROUTER_TITLE`.
    pub fn from_env_vars(vars: EnvVars) -> (config: Config)
        ensures
            config.bind_addr@ == or_default(opt_view(vars.backend_bind_addr), "127.0.0.1:8080"@),
            config.database_url@ == or_default(opt_view(vars.database_url), "sqlite:gpt-copy-v6.db"@),
            opt_view(config.openrouter_api_key) == non_empty_spec(vars.openrouter_api_key),
            config.openrouter_model@ == or_default(
                non_empty_spec(vars.openrouter_model),
                DEFAULT_OPENROUTER_MODEL@,
            ),
            opt_view(config.openrouter_http_referer) == non_empty_spec(vars.openrouter_http_referer),
            config.openrouter_title@ == or_default(
                non_empty_spec(vars.openrouter_title),
                or_default(non_empty_spec(vars.x_openrouter_title), "gpt-copy-v6"@),
            ),
    {
        let bind_addr = match vars.backend_bind_addr {
            Some(v) => v,
            None => "127.0.0.1:8080".to_owned(),
        };
        let database_url = match vars.database_url {
            Some(v) => v,
            None => "sqlite:gpt-copy-v6.db".to_owned(),
        };
        let openrouter_model = match non_empty_env_value(vars.openrouter_model) {
            Some(v) => v,
            None => DEFAULT_OPENROUTER_MODEL.to_owned(),
        };
        let openrouter_title = match non_empty_env_value(vars.openrouter_title) {
            Some(v) => v,
            None => match non_empty_env_value(vars.x_openrouter_title) {
                Some(v) => v,
                None => "gpt-copy-v6".to_owned(),
            },
        };
        Config {
            bind_addr,
            database_url,
            openrouter_api_key: non_empty_env_value(vars.openrouter_api_key),
            openrouter_model,
            openrouter_http_referer: non_empty_env_value(vars.openrouter_http_referer),
            openrouter_title,
        }
    }
}

/// Leaving `OPENROUTER_MODEL` unset or blank selects the default model.
pub proof fn lemma_unset_or_blank_model_uses_default(vars: EnvVars)
    requires
        vars.openrouter_model is None || trim(vars.openrouter_model->0@).len() == 0,
    ensures
        or_default(non_empty_spec(vars.openrouter_model), DEFAULT_OPENROUTER_MODEL@)
            == DEFAULT_OPENROUTER_MODEL@,
{
}

/// An environment value is used with only the whitespace at its ends
/// removed, as long as something else is left; a value of whitespace only
/// counts as unset, and a value without whitespace at its ends is used as
/// it is.
pub proof fn lemma_env_values_are_trimmed(value: String)
    ensures
        all_whitespace(value@) ==> non_empty_spec(Some(value)) is None,
        !all_whitespace(value@) ==> (non_empty_spec(Some(value)) matches Some(t) && {
            &&& !is_unicode_whitespace(t[0]) && !is_unicode_whitespace(t.last())
            &&& exists|l: Seq<char>, r: Seq<char>| all_whitespace(l) && all_whitespace(r) && value@ == l + t + r
        }),
        value@.len() > 0 && !is_unicode_whitespace(value@[0]) && !is_unicode_whitespace(value@.last())
            ==> non_empty_spec(Some(value)) == Some(value@),
{
    lemma_trim_removes_only_edge_whitespace(value@);
    lemma_blank_iff_all_whitespace(value@);
    if value@.len() > 0 && !is_unicode_whitespace(value@[0]) && !is_unicode_whitespace(value@.last()) {
        lemma_trim_keeps_inner_text(value@);
    }
}

/// An IP address.
#[derive(Debug, Clone, Copy, PartialEq, Eq)]
pub enum IpAddress {
    V4(u8, u8, u8, u8),
    V6(u16, u16, u16, u16, u16, u16, u16, u16),
}

/// `IpAddr::is_loopback`: `127.0.0.0/8` for IPv4, `::1` for IPv6.
pub open spec fn is_loopback_spec(ip: IpAddress) -> bool {
    match ip {
        IpAddress::V4(a, _, _, _) => a == 127,
        IpAddress::V6(a, b, c, d, e, f, g, h) => a == 0 && b == 0 && c == 0 && d == 0 && e == 0 && f
            == 0 && g == 0 && h == 1,
    }
}

/// Whether `ip` is a loopback address.
pub fn is_loopback(ip: &IpAddress) -> (b: bool)
    ensures
        b == is_loopback_spec(*ip),
{
    match ip {
        IpAddress::V4(a, _, _, _) => *a == 127,
        IpAddress::V6(a, b, c, d, e, f, g, h) => *a == 0 && *b == 0 && *c == 0 && *d == 0 && *e == 0
            && *f == 0 && *g == 0 && *h == 1,
    }
}

/// A socket address: IP, port, and how it is written.
#[derive(Debug, Clone, PartialEq, Eq)]
pub struct SocketAddress {
    pub ip: IpAddress,
    pub port: u16,
    pub text: String,
}

/// A setting that cannot be used, with the reason.
#[derive(Debug, Clone, PartialEq, Eq)]
pub struct ConfigError(String);

impl ConfigError {
    pub closed spec fn text(&self) -> Seq<char> {
        self.0@
    }

    /// The reason, as shown to the operator.
    pub fn message(&self) -> (m: String)
        ensures
            m@ == self.text(),
    {
        self.0.clone()
    }
}

pub open spec fn bad_syntax_text(reason: Seq<char>) -> Seq<char> {
    "BACKEND_BIND_ADDR must be a socket address: "@ + reason
}

pub open spec fn not_loopback_text(address: Seq<char>) -> Seq<char> {
    "BACKEND_BIND_ADDR must bind to a loopback address unless authentication is configured: "@
        + address
}

/// Which bind addresses may be used, given how the configured text parsed
/// (the address, or why it is not one): only loopback addresses, since the
/// API has no authentication.
pub fn check_bind_address(parsed: Result<SocketAddress, String>) -> (r: Result<SocketAddress, ConfigError>)
    ensures
        parsed matches Err(reason) ==> (r matches Err(e) && e.text() == bad_syntax_text(reason@)),
        parsed matches Ok(a) ==> (is_loopback_spec(a.ip) ==> r == Ok::<SocketAddress, ConfigError>(a)),
        parsed matches Ok(a) ==> (!is_loopback_spec(a.ip) ==> (r matches Err(e) && e.text()
            == not_loopback_text(a.text@))),
{
    match parsed {
        Err(reason) => Err(
            ConfigError(joined("BACKEND_BIND_ADDR must be a socket address: ", reason.as_str())),
        ),
        Ok(address) => {
            if is_loopback(&address.ip) {
                Ok(address)
            } else {
                Err(
                    ConfigError(
                        joined(
                            "BACKEND_BIND_ADDR must bind to a loopback address unless authentication is configured: ",
                            address.text.as_str(),
                        ),
                    ),
                )
            }
        },
    }
}

} // verus!
