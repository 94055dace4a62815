use vstd::prelude::*;

verus! {

/// The engine's configuration, built once and shared by every component.
pub struct AppConfig {
    pub client_id: String,
    pub client_secret: String,
    pub environment: String,
    pub base_url: String,
    pub database_url: String,
    pub jwt_secret: String,
    pub admin_email: Option<String>,
    pub admin_password: Option<String>,
    pub admin_name: Option<String>,
}

/// A setting that must be given and was not.
#[derive(Clone, Copy, Debug, PartialEq, Eq, Structural)]
pub enum ConfigError {
    MissingClientId,
    MissingClientSecret,
    MissingDatabaseUrl,
    MissingJwtSecret,
}

/// The aggregator's API address, the same for every environment.
pub open spec fn aggregator_base_url() -> Seq<char> {
    "https://api.pluggy.ai"@
}

impl AppConfig {
    /// Builds the configuration from the settings that were found. The environment
    /// defaults to `sandbox`; the first missing required setting, in the order client id,
    /// client secret, database URL, token secret, is the error.
    pub fn from_values(
        client_id: Option<String>,
        client_secret: Option<String>,
        environment: Option<String>,
        database_url: Option<String>,
        jwt_secret: Option<String>,
        admin_email: Option<String>,
        admin_password: Option<String>,
        admin_name: Option<String>,
    ) -> (r: Result<AppConfig, ConfigError>)
        ensures
            client_id is None ==> r == Err::<AppConfig, ConfigError>(ConfigError::MissingClientId),
            client_id is Some && client_secret is None ==> r == Err::<AppConfig, ConfigError>(
                ConfigError::MissingClientSecret,
            ),
            client_id is Some && client_secret is Some && database_url is None ==> r == Err::<
                AppConfig,
                ConfigError,
            >(ConfigError::MissingDatabaseUrl),
            client_id is Some && client_secret is Some && database_url is Some && jwt_secret is None
                ==> r == Err::<AppConfig, ConfigError>(ConfigError::MissingJwtSecret),
            r is Ok <==> (client_id is Some && client_secret is Some && database_url is Some
                && jwt_secret is Some),
            r matches Ok(c) ==> {
                &&& c.client_id == client_id->0
                &&& c.client_secret == client_secret->0
                &&& c.database_url == database_url->0
                &&& c.jwt_secret == jwt_secret->0
                &&& (environment matches Some(e) ==> c.environment == e)
                &&& (environment is None ==> c.environment@ == "sandbox"@)
                &&& c.base_url@ == aggregator_base_url()
                &&& c.admin_email == admin_email
                &&& c.admin_password == admin_password
                &&& c.admin_name == admin_name
            },
    {
        let client_id = match client_id {
            Some(v) => v,
            None => {
                return Err(ConfigError::MissingClientId);
            },
        };
        let client_secret = match client_secret {
            Some(v) => v,
            None => {
                return Err(ConfigError::MissingClientSecret);
            },
        };
        let environment = match environment {
            Some(v) => v,
            None => "sandbox".to_owned(),
        };
        let database_url = match database_url {
            Some(v) => v,
            None => {
                return Err(ConfigError::MissingDatabaseUrl);
            },
        };
        let jwt_secret = match jwt_secret {
            Some(v) => v,
            None => {
                return Err(ConfigError::MissingJwtSecret);
            },
        };
        Ok(
            AppConfig {
                client_id,
                client_secret,
                environment,
                base_url: "https://api.pluggy.ai".to_owned(),
                database_url,
                jwt_secret,
                admin_email,
                admin_password,
                admin_name,
            },
        )
    }
}

} // verus!
