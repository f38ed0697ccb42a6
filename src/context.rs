//! The service-wide secrets, read once at startup and shared read-only.

use vstd::prelude::*;

verus! {

/// The secrets and settings every request handler reads.
#[derive(Clone, Debug)]
pub struct Context {
    /// The admin secret that authenticates the gateway to the backend.
    pub hasura_secret: String,
    /// Where the backend's query endpoint is.
    pub hasura_url: String,
    /// The secret that session tokens are signed with.
    pub jwt_secret: String,
}

/// A setting the process needs was not supplied.
#[derive(Clone, Copy, Debug, PartialEq, Eq, Structural)]
pub enum ConfigError {
    MissingBackendSecret,
    MissingBackendUrl,
    MissingSigningSecret,
}

impl Context {
    /// Assembles the context from the settings as found; fails, naming the
    /// first one in the order of the parameters, where one is absent.
    pub fn from_settings(
        hasura_secret: Option<String>,
        hasura_url: Option<String>,
        jwt_secret: Option<String>,
    ) -> (r: Result<Context, ConfigError>)
        ensures
            hasura_secret is None ==> r == Err::<Context, ConfigError>(
                ConfigError::MissingBackendSecret,
            ),
            hasura_secret is Some && hasura_url is None ==> r == Err::<Context, ConfigError>(
                ConfigError::MissingBackendUrl,
            ),
            hasura_secret is Some && hasura_url is Some && jwt_secret is None ==> r == Err::<
                Context,
                ConfigError,
            >(ConfigError::MissingSigningSecret),
            r matches Ok(c) ==> hasura_secret == Some(c.hasura_secret) && hasura_url == Some(
                c.hasura_url,
            ) && jwt_secret == Some(c.jwt_secret),
            hasura_secret is Some && hasura_url is Some && jwt_secret is Some ==> r is Ok,
    {
        let hasura_secret = match hasura_secret {
            Some(s) => s,
            None => return Err(ConfigError::MissingBackendSecret),
        };
        let hasura_url = match hasura_url {
            Some(s) => s,
            None => return Err(ConfigError::MissingBackendUrl),
        };
        let jwt_secret = match jwt_secret {
            Some(s) => s,
            None => return Err(ConfigError::MissingSigningSecret),
        };
        Ok(Context { hasura_secret, hasura_url, jwt_secret })
    }
}

} // verus!
