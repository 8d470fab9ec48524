//! The configuration the service is started with. Values are read from
//! files and the environment by the surrounding program and handed in as
//! plain data; nothing here is mutated afterwards.

use vstd::prelude::*;

use crate::infra::settings::{ApplicationSettings, DatabaseSettings, RedisSettings};

verus! {

/// Everything the application is configured with.
pub struct Settings {
    pub application: ApplicationSettings,
    pub debug: bool,
    pub database: DatabaseSettings,
    pub redis: RedisSettings,
    pub secret: Secret,
    pub email: EmailSettings,
    pub frontend_url: String,
    pub google_oauth: GoogleAuthSettings,
    pub jwt: JwtSettings,
}

/// Settings of the JSON web tokens used by the third-party login flow.
pub struct JwtSettings {
    pub secret: String,
    pub expires_in: String,
    pub max_age: i64,
}

/// The secret material of the token service: the symmetric key, the
/// default time-to-live of issued tokens, and the implicit assertion bound
/// into every token.
pub struct Secret {
    pub secret_key: String,
    pub token_expiration: i64,
    pub hmac_secret: String,
}

/// Settings of the outgoing mail account.
pub struct EmailSettings {
    pub host: String,
    pub host_user: String,
    pub host_user_password: String,
}

/// Settings of the third-party login provider.
pub struct GoogleAuthSettings {
    pub client_id: String,
    pub client_secret: String,
    pub redirect_uri: String,
}

} // verus!
