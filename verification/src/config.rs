//! The configuration snapshot the pipeline works from. Loading and saving it
//! is the surrounding application's business; the pipeline only reads one
//! cloned snapshot per operation.

use vstd::prelude::*;

verus! {

/// Which deployment of the remote service the client talks to.
#[derive(Debug, Clone, Copy, PartialEq, Eq, Structural)]
pub enum Environment {
    Dev,
    Prod,
    Custom,
}

impl Default for Environment {
    fn default() -> (r: Self)
        ensures
            r == Environment::Dev,
    {
        Environment::Dev
    }
}

#[derive(Debug, Clone)]
pub struct AppConfig {
    pub api_base_url: String,
    pub api_key: String,
    pub watched_folder: Option<String>,
    pub auto_ingest: bool,
    pub auto_approve_watched: bool,
    pub environment: Environment,
    pub session_token: Option<String>,
    pub user_hash: Option<String>,
}

/// The base URL all remote calls are made against: a fixed endpoint for the
/// Dev and Prod environments, the configured one otherwise.
pub open spec fn spec_api_url(c: AppConfig) -> Seq<char> {
    match c.environment {
        Environment::Dev => "https://ygyu7ritx8.execute-api.us-west-2.amazonaws.com"@,
        Environment::Prod => "https://jdsx4ixk2i.execute-api.us-east-1.amazonaws.com"@,
        Environment::Custom => c.api_base_url@,
    }
}

/// The pipeline may start: it knows the API URL, an API key and a folder.
pub open spec fn spec_is_configured(c: AppConfig) -> bool {
    spec_api_url(c).len() > 0 && c.api_key@.len() > 0 && c.watched_folder is Some
}

impl AppConfig {
    /// The base URL all remote calls are made against.
    pub fn api_url(&self) -> (r: &str)
        ensures
            r@ == spec_api_url(*self),
    {
        match self.environment {
            Environment::Dev => "https://ygyu7ritx8.execute-api.us-west-2.amazonaws.com",
            Environment::Prod => "https://jdsx4ixk2i.execute-api.us-east-1.amazonaws.com",
            Environment::Custom => self.api_base_url.as_str(),
        }
    }

    /// Whether API URL, API key and watched folder are all set.
    pub fn is_configured(&self) -> (r: bool)
        ensures
            r == spec_is_configured(*self),
    {
        !self.api_url().is_empty() && !self.api_key.as_str().is_empty()
            && self.watched_folder.is_some()
    }
}

impl Default for AppConfig {
    fn default() -> (c: Self)
        ensures
            c.api_base_url@ == Seq::<char>::empty(),
            c.api_key@ == Seq::<char>::empty(),
            c.watched_folder is None,
            c.auto_ingest == true,
            c.auto_approve_watched == true,
            c.environment == Environment::Dev,
            c.session_token is None,
            c.user_hash is None,
    {
        AppConfig {
            api_base_url: String::new(),
            api_key: String::new(),
            watched_folder: None,
            auto_ingest: true,
            auto_approve_watched: true,
            environment: Environment::Dev,
            session_token: None,
            user_hash: None,
        }
    }
}

} // verus!
