use vstd::prelude::*;

verus! {

#[verifier::external_type_specification]
#[verifier::external_body]
pub struct ExLevel(tracing::Level);

/// Settings the bridge is started with.
pub struct Config {
    /// Most verbose level that is logged.
    pub log_level: tracing::Level,
    /// Address the notification listener binds to.
    pub listen_addr: String,
    /// Base URL of the recorder's API, ending with `/`.
    pub frigate_url: String,
    pub frigate_user: String,
    pub frigate_password: String,
}

/// A setting without a default was not given.
#[derive(Clone, Copy, Debug, PartialEq, Eq, Structural)]
pub enum ConfigError {
    MissingFrigateUrl,
    MissingFrigateUser,
    MissingFrigatePassword,
}

/// Listen address used when none is given.
pub fn default_listen_addr() -> (r: String)
    ensures
        r@ == "0.0.0.0:6060"@,
{
    "0.0.0.0:6060".to_owned()
}

impl Config {
    /// Builds the settings from the values that were given: the listen
    /// address falls back to its default, the recorder's URL, user and
    /// password are required, checked in that order.
    pub fn from_values(
        log_level: tracing::Level,
        listen_addr: Option<String>,
        frigate_url: Option<String>,
        frigate_user: Option<String>,
        frigate_password: Option<String>,
    ) -> (r: Result<Config, ConfigError>)
        ensures
            frigate_url is None ==> r == Err::<Config, ConfigError>(ConfigError::MissingFrigateUrl),
            frigate_url is Some && frigate_user is None ==> r == Err::<Config, ConfigError>(
                ConfigError::MissingFrigateUser,
            ),
            frigate_url is Some && frigate_user is Some && frigate_password is None ==> r == Err::<
                Config,
                ConfigError,
            >(ConfigError::MissingFrigatePassword),
            (frigate_url is Some && frigate_user is Some && frigate_password is Some) ==> (
            r matches Ok(c) && c.log_level == log_level && c.frigate_url@ == frigate_url->Some_0@
                && c.frigate_user@ == frigate_user->Some_0@ && c.frigate_password@
                == frigate_password->Some_0@ && match listen_addr {
                Some(a) => c.listen_addr@ == a@,
                None => c.listen_addr@ == "0.0.0.0:6060"@,
            }),
    {
        let listen_addr = match listen_addr {
            Some(a) => a,
            None => default_listen_addr(),
        };
        let frigate_url = match frigate_url {
            Some(u) => u,
            None => return Err(ConfigError::MissingFrigateUrl),
        };
        let frigate_user = match frigate_user {
            Some(u) => u,
            None => return Err(ConfigError::MissingFrigateUser),
        };
        let frigate_password = match frigate_password {
            Some(p) => p,
            None => return Err(ConfigError::MissingFrigatePassword),
        };
        Ok(Config { log_level, listen_addr, frigate_url, frigate_user, frigate_password })
    }
}

} // verus!
