//! The settings data and the environment names.

use authenticator::infra::settings::{
    ApplicationSettings, DatabaseSettings, Environment, RedisSettings,
};
use authenticator::settings::{EmailSettings, GoogleAuthSettings, JwtSettings, Secret, Settings};

#[test]
fn environment_names_round_trip() {
    assert_eq!(Environment::Development.as_str(), "development");
    assert_eq!(Environment::Production.as_str(), "production");
    assert_eq!(Environment::try_from("development"), Ok(Environment::Development));
    assert_eq!(Environment::try_from("production"), Ok(Environment::Production));
}

#[test]
fn environment_names_ignore_ascii_case() {
    assert_eq!(Environment::try_from("DEVELOPMENT"), Ok(Environment::Development));
    assert_eq!(Environment::try_from("Production"), Ok(Environment::Production));
}

#[test]
fn unknown_environment_names_are_rejected() {
    assert!(Environment::try_from("staging").is_err());
    assert!(Environment::try_from("").is_err());
    assert!(Environment::try_from("developmen").is_err());
    assert!(Environment::try_from("developmentt").is_err());
}

#[test]
fn settings_hold_their_fields() {
    let settings = Settings {
        application: ApplicationSettings {
            port: 8000,
            host: "127.0.0.1".to_string(),
            base_url: "http://127.0.0.1:8000".to_string(),
            protocol: "http".to_string(),
        },
        debug: true,
        database: DatabaseSettings {
            username: "postgres".to_string(),
            password: "postgres".to_string(),
            port: 5432,
            host: "127.0.0.1".to_string(),
            database_name: "authenticator".to_string(),
            require_ssl: false,
        },
        redis: RedisSettings {
            uri: "redis://127.0.0.1:6379".to_string(),
            pool_max_open: 16,
            pool_max_idle: 8,
            pool_timeout_seconds: 1,
            pool_expire_seconds: 60,
        },
        secret: Secret {
            secret_key: "0123456789abcdef0123456789abcdef".to_string(),
            token_expiration: 900,
            hmac_secret: "extra authentication secret".to_string(),
        },
        email: EmailSettings {
            host: "smtp.example.test".to_string(),
            host_user: "mailer".to_string(),
            host_user_password: "mailer-password".to_string(),
        },
        frontend_url: "http://127.0.0.1:3000".to_string(),
        google_oauth: GoogleAuthSettings {
            client_id: "client".to_string(),
            client_secret: "oauth-client-secret".to_string(),
            redirect_uri: "http://127.0.0.1:8000/oauth".to_string(),
        },
        jwt: JwtSettings {
            secret: "jwt-signing-secret".to_string(),
            expires_in: "60m".to_string(),
            max_age: 60,
        },
    };
    assert_eq!(settings.application.port, 8000);
    assert_eq!(settings.secret.token_expiration, 900);
    assert!(settings.debug);
    assert_eq!(settings.redis.pool_max_open, 16);
    assert_eq!(settings.jwt.max_age, 60);
}
