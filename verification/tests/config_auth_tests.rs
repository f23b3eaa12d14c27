use base64::Engine;
use kueue::auth::auth_response;
use kueue::config::{Config, LogLevel, RestartWorkers};
use kueue::messages::MessageError;
use sha2::Digest;

fn config_with_level(level: &str) -> Config {
    Config {
        log_level: level.to_string(),
        server_bind_address: "0.0.0.0".to_string(),
        server_address: "localhost".to_string(),
        server_port: 11236,
        shared_secret: "SECRET-REDACTED".to_string(),
        restart_workers: RestartWorkers {
            ssh_user: "user".to_string(),
            hostnames: "a b".to_string(),
            sleep_minutes_before_recheck: 60,
        },
    }
}

#[test]
fn log_levels_case_insensitive() {
    assert_eq!(config_with_level("trace").get_log_level(), LogLevel::Trace);
    assert_eq!(config_with_level("TRACE").get_log_level(), LogLevel::Trace);
    assert_eq!(config_with_level("Debug").get_log_level(), LogLevel::Debug);
    assert_eq!(config_with_level("info").get_log_level(), LogLevel::Info);
    assert_eq!(config_with_level("WaRn").get_log_level(), LogLevel::Warn);
    assert_eq!(config_with_level("error").get_log_level(), LogLevel::Error);
    // anything else falls back to info
    assert_eq!(config_with_level("verbose").get_log_level(), LogLevel::Info);
    assert_eq!(config_with_level("").get_log_level(), LogLevel::Info);
}

#[test]
fn auth_response_matches_direct_computation() {
    let secret = "SECRET-REDACTED";
    let salt = "pepper";
    let got = auth_response(secret, salt);
    let mut hasher = sha2::Sha256::new();
    hasher.update(format!("{}{}", secret, salt).into_bytes());
    let digest = hasher.finalize();
    let expected = base64::engine::general_purpose::STANDARD_NO_PAD.encode(digest.as_slice());
    assert_eq!(got, expected);
}

#[test]
fn auth_response_depends_on_salt() {
    let a = auth_response("s", "salt-one");
    let b = auth_response("s", "salt-two");
    assert_ne!(a, b);
    // base64 without padding never ends in '='
    assert!(!a.ends_with('='));
    // sha256 is 32 bytes; unpadded base64 of 32 bytes is 43 characters
    assert_eq!(a.len(), 43);
}

#[test]
fn message_error_descriptions() {
    assert_eq!(MessageError::SendFailed.describe(), "failed to send message");
    assert_eq!(MessageError::ReceiveFailed.describe(), "failed to receive message");
    assert_eq!(MessageError::StreamClosed.describe(), "stream closed");
    assert_eq!(MessageError::SendFailed, MessageError::SendFailed);
    assert_ne!(MessageError::SendFailed, MessageError::StreamClosed);
}
