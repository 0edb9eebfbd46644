use wyattwtf::server::config::{dotenv_value, read_goodreads_rss_url, read_lastfm_api_key, read_secret_file, Cli, ServerConfig};
use wyattwtf::server::error::BackendError;

fn contents(text: &str) -> Result<String, std::io::Error> {
    Ok(text.to_string())
}

fn missing() -> Result<String, std::io::Error> {
    Err(std::io::Error::new(std::io::ErrorKind::NotFound, "gone"))
}

#[test]
fn reads_and_trims_secret_file() {
    let secret = read_secret_file(contents("  key-value\n"), "/tmp/s".to_string(), "test").unwrap();
    assert_eq!(secret, "key-value");
}

#[test]
fn rejects_empty_secret_file() {
    let err = read_secret_file(contents("\n\t"), "/tmp/s".to_string(), "test").unwrap_err();
    assert!(matches!(err, BackendError::EmptySecret { .. }));
    assert_eq!(err.public_message(), "test file at /tmp/s is empty");
}

#[test]
fn reports_unreadable_secret_file() {
    let err = read_secret_file(missing(), "/tmp/s".to_string(), "test").unwrap_err();
    assert!(matches!(err, BackendError::SecretFileRead { label: "test", .. }));
    assert_eq!(err.public_message(), "failed to read test from /tmp/s");
    assert_eq!(err.diagnostic_message(), "failed to read test from /tmp/s: gone");
    assert_eq!(err.status_code(), 500);
}

#[test]
fn accepts_dotenv_style_lastfm_key_file() {
    let secret = read_lastfm_api_key(contents("LASTFM_API_KEY=key-from-env\n"), "/tmp/k".to_string()).unwrap();
    assert_eq!(secret, "key-from-env");
}

#[test]
fn reads_and_trims_goodreads_rss_url_file() {
    let url = read_goodreads_rss_url(
        contents("  https://www.goodreads.com/user/updates_rss/1?key=secret\n"),
        "/tmp/u".to_string(),
    )
    .unwrap();
    assert_eq!(url, "https://www.goodreads.com/user/updates_rss/1?key=secret");
}

#[test]
fn accepts_dotenv_style_goodreads_rss_url_file() {
    let url = read_goodreads_rss_url(
        contents("GOODREADS_RSS_URL=https://www.goodreads.com/user/updates_rss/1?key=secret\n"),
        "/tmp/u".to_string(),
    )
    .unwrap();
    assert_eq!(url, "https://www.goodreads.com/user/updates_rss/1?key=secret");
}

#[test]
fn dotenv_values() {
    assert_eq!(dotenv_value("A=1\r\nKEY = \"v\" \r\n", "KEY").as_deref(), Some("v"));
    assert_eq!(dotenv_value("# c\n  KEY\t=  \"\"x\"\"\n", "KEY").as_deref(), Some("x"));
    assert_eq!(dotenv_value("KEYS=1\nKEY=2", "KEY").as_deref(), Some("2"));
    assert_eq!(dotenv_value("KEY:1", "KEY"), None);
    assert_eq!(dotenv_value("", "KEY"), None);
    assert_eq!(dotenv_value("KEY=", "KEY").as_deref(), Some(""));
    // the plain file is the secret when no line names the key
    assert_eq!(read_lastfm_api_key(contents("abc\n"), "p".to_string()).unwrap(), "abc");
}

#[test]
fn builds_server_config() {
    let cli = Cli {
        lastfm_api_key_path: "/k".to_string(),
        goodreads_rss_url_path: "/u".to_string(),
        lastfm_username: "wyattwtf".to_string(),
        letterboxd_rss_url: "https://letterboxd.com/wyattwtf/rss/".to_string(),
        upstream_timeout_seconds: 10,
    };
    let config = ServerConfig::from_cli(cli.clone(), contents("key"), contents("LASTFM_API_KEY=x\n")).unwrap();
    assert_eq!(config.lastfm_api_key, "key");
    assert_eq!(config.goodreads_rss_url, "LASTFM_API_KEY=x");
    assert_eq!(config.upstream_timeout_seconds, 10);
    assert_eq!(config.lastfm_username, "wyattwtf");
    let err = ServerConfig::from_cli(cli.clone(), contents(" "), missing()).unwrap_err();
    assert!(matches!(err, BackendError::EmptySecret { label: "Last.fm API key", .. }));
    let err = ServerConfig::from_cli(cli, contents("k"), missing()).unwrap_err();
    assert!(matches!(err, BackendError::SecretFileRead { label: "Goodreads RSS URL", .. }));
}
