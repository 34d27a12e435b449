//! The daemon's configuration: which interface to watch, which DNS name to
//! keep current, and which provider backend to call with which credentials.
//!
//! Reading the command line and the configuration file happens outside the
//! library; the raw field values land here, where backend selection and
//! credential shape are validated eagerly, before anything runs.

use vstd::prelude::*;

verus! {

/// Command-line options.
#[derive(Debug)]
pub struct CliOptions {
    /// Config file
    ///
    /// Override the config file location
    pub config: Option<String>,
}

/// Credentials for the Gandi backend: exactly one authentication mode.
#[derive(Debug)]
pub enum Auth {
    /// A legacy API key.
    ApiKey(String),
    /// A personal access token.
    PatKey(String),
}

/// Credentials for the PorkBun backend.
#[derive(Debug)]
pub struct PorkBunAuth {
    pub key: String,
    pub secret: String,
}

/// The provider backend to publish through, with its credential shape.
#[derive(Debug)]
pub enum Providers {
    Gandi(Auth),
    PorkBun(PorkBunAuth),
}

/// The DNS name to keep current and the backend that owns it.
#[derive(Debug)]
pub struct Ddns {
    pub domain: String,
    pub host: String,
    pub provider: Providers,
}

/// The full configuration.
#[derive(Debug)]
pub struct Config {
    pub log_level: Option<String>,
    pub iface: String,
    pub ddns: Ddns,
    pub dry_run: bool,
}

/// Why a provider table was rejected at configuration time.
#[derive(Clone, Copy, Debug, PartialEq, Eq, Structural)]
pub enum ConfigError {
    /// The `name` field names no known backend.
    UnknownProvider,
    /// Credentials for more than one authentication mode of one backend
    /// were supplied.
    MixedCredentials,
    /// The named backend's credentials are incomplete.
    MissingCredentials,
    /// The configured backend is not Gandi, so no Gandi key is set.
    NoGandiKey,
}

/// The provider table as the configuration file spells it: a discriminant
/// name and one optional field per credential. Which fields may be present
/// together is validated by [`provider_from_raw`].
#[derive(Debug)]
pub struct RawProvider {
    /// The backend discriminant: `"gandi"` or `"porkbun"`.
    pub name: String,
    /// PorkBun's API key.
    pub key: Option<String>,
    /// PorkBun's secret key.
    pub secret: Option<String>,
    /// Gandi's legacy API key.
    pub apikey: Option<String>,
    /// Gandi's personal access token.
    pub patkey: Option<String>,
}

/// What validating a raw provider table yields: the backend named by the
/// discriminant with its one complete credential set, or the error that
/// names what is wrong. A backend's unrelated fields are not read.
pub open spec fn validated_provider(raw: RawProvider) -> Result<Providers, ConfigError> {
    if raw.name@ == "gandi"@ {
        match (raw.apikey, raw.patkey) {
            (Some(k), None) => Ok(Providers::Gandi(Auth::ApiKey(k))),
            (None, Some(k)) => Ok(Providers::Gandi(Auth::PatKey(k))),
            (Some(_), Some(_)) => Err(ConfigError::MixedCredentials),
            (None, None) => Err(ConfigError::MissingCredentials),
        }
    } else if raw.name@ == "porkbun"@ {
        match (raw.key, raw.secret) {
            (Some(k), Some(s)) => Ok(Providers::PorkBun(PorkBunAuth { key: k, secret: s })),
            _ => Err(ConfigError::MissingCredentials),
        }
    } else {
        Err(ConfigError::UnknownProvider)
    }
}

/// Validate a raw provider table eagerly, at configuration-parse time:
/// exactly one authentication mode must be supplied for the named backend.
pub fn provider_from_raw(raw: &RawProvider) -> (r: Result<Providers, ConfigError>)
    ensures
        r == validated_provider(*raw),
{
    if raw.name == "gandi".to_owned() {
        match (&raw.apikey, &raw.patkey) {
            (Some(k), None) => Ok(Providers::Gandi(Auth::ApiKey(k.clone()))),
            (None, Some(k)) => Ok(Providers::Gandi(Auth::PatKey(k.clone()))),
            (Some(_), Some(_)) => Err(ConfigError::MixedCredentials),
            (None, None) => Err(ConfigError::MissingCredentials),
        }
    } else if raw.name == "porkbun".to_owned() {
        match (&raw.key, &raw.secret) {
            (Some(k), Some(s)) => Ok(
                Providers::PorkBun(PorkBunAuth { key: k.clone(), secret: s.clone() }),
            ),
            _ => Err(ConfigError::MissingCredentials),
        }
    } else {
        Err(ConfigError::UnknownProvider)
    }
}

/// The Gandi credentials inside a provider, if the provider is Gandi.
pub open spec fn gandi_auth(p: Providers) -> Option<Auth> {
    match p {
        Providers::Gandi(a) => Some(a),
        Providers::PorkBun(_) => None,
    }
}

/// The Gandi credentials the configuration holds: the configured provider's
/// `Auth` when that provider is Gandi, or an error when no Gandi key is
/// set.
pub fn get_auth(config: &Config) -> (r: Result<Auth, ConfigError>)
    ensures
        match r {
            Ok(a) => gandi_auth(config.ddns.provider) == Some(a),
            Err(e) => gandi_auth(config.ddns.provider) is None && e == ConfigError::NoGandiKey,
        },
{
    match &config.ddns.provider {
        Providers::Gandi(Auth::ApiKey(k)) => Ok(Auth::ApiKey(k.clone())),
        Providers::Gandi(Auth::PatKey(k)) => Ok(Auth::PatKey(k.clone())),
        Providers::PorkBun(_) => Err(ConfigError::NoGandiKey),
    }
}

} // verus!
