use m87_client::auth::{APIConfig, AuthManager, Credentials, OAuth2Token, APIKey, owner_scope, resolve_owner, retry_device_login};
use m87_client::config::{default_heartbeat_interval, default_make87_api_url, default_make87_app_url, Config};

#[test]
fn test_oauth2_token_is_valid_not_expired() {
    let token = OAuth2Token {
        access_token: "test_access_token".to_string(),
        refresh_token: Some("test_refresh_token".to_string()),
        expires_at: u64::MAX,
    };
    assert!(token.is_valid());
}

#[test]
fn test_oauth2_token_is_valid_expired() {
    let token = OAuth2Token {
        access_token: "test_access_token".to_string(),
        refresh_token: Some("test_refresh_token".to_string()),
        expires_at: 0,
    };
    assert!(!token.is_valid());
}

#[test]
fn token_validity_is_strict_at_expiry() {
    let token = OAuth2Token {
        access_token: "a".to_string(),
        refresh_token: None,
        expires_at: 100,
    };
    assert!(token.is_valid_at(99));
    assert!(!token.is_valid_at(100));
    assert_eq!(token.usable_access_token(99), Some("a".to_string()));
    assert_eq!(token.usable_access_token(100), None);
    assert_eq!(token.refresh_token_to_send(), Err("missing refresh_token".to_string()));
}

#[test]
fn refresh_keeps_old_refresh_token_unless_rotated() {
    let mut token = OAuth2Token {
        access_token: "old".to_string(),
        refresh_token: Some("r1".to_string()),
        expires_at: 5,
    };
    token.apply_refresh(1000, "new".to_string(), 60, None);
    assert_eq!(token.access_token, "new");
    assert_eq!(token.expires_at, 1060);
    assert_eq!(token.refresh_token, Some("r1".to_string()));
    token.apply_refresh(2000, "newer".to_string(), 10, Some("r2".to_string()));
    assert_eq!(token.refresh_token, Some("r2".to_string()));
    assert_eq!(token.expires_at, 2010);
}

#[test]
fn login_token_defaults_to_one_hour() {
    let t = OAuth2Token::from_login(1000, "a".to_string(), None, None);
    assert_eq!(t.expires_at, 4600);
    let t = OAuth2Token::from_login(1000, "a".to_string(), Some("r".to_string()), Some(60));
    assert_eq!(t.expires_at, 1060);
    assert_eq!(t.refresh_token, Some("r".to_string()));
}

#[test]
fn credentials_token_at() {
    let key = Credentials::APIKey(APIKey { api_key: "k".to_string() });
    assert_eq!(key.token_at(u64::MAX), Some("k".to_string()));
    let oauth = Credentials::OAuth2Token(OAuth2Token {
        access_token: "t".to_string(),
        refresh_token: None,
        expires_at: 10,
    });
    assert_eq!(oauth.token_at(9), Some("t".to_string()));
    assert_eq!(oauth.token_at(10), None);
}

#[test]
fn api_config_updates_keep_the_other_credentials() {
    let mut c = APIConfig::load_or_create(None);
    assert!(!AuthManager::has_cli_credentials(&c));
    assert!(!AuthManager::has_device_credentials(&c));
    assert_eq!(
        AuthManager::get_device_token(&c),
        Err("device credentials not found".to_string())
    );
    c.save_device_credentials("dev-key".to_string());
    c.save_cli_credentials(Credentials::APIKey(APIKey { api_key: "cli".to_string() }));
    assert_eq!(AuthManager::get_device_token(&c), Ok("dev-key".to_string()));
    assert!(AuthManager::has_cli_credentials(&c));
    c.delete_cli_credentials();
    assert!(!AuthManager::has_cli_credentials(&c));
    assert_eq!(AuthManager::get_device_token(&c), Ok("dev-key".to_string()));
    c.delete_device_credentials();
    assert!(!AuthManager::has_device_credentials(&c));
    assert!(AuthManager::get_cli_credentials(&c).is_err());
}

#[test]
fn env_api_key_ignores_empty_value() {
    assert_eq!(AuthManager::env_api_key(Some("".to_string())), None);
    assert_eq!(AuthManager::env_api_key(Some("k".to_string())), Some("k".to_string()));
    assert_eq!(AuthManager::env_api_key(None), None);
}

#[test]
fn owner_scope_by_kind() {
    assert_eq!(owner_scope("alice@example.com"), "user:alice@example.com");
    assert_eq!(owner_scope("org123"), "org:org123");
    assert_eq!(
        resolve_owner(None, Some("cfg".to_string()), Some("env".to_string())),
        Some("cfg".to_string())
    );
    assert_eq!(resolve_owner(None, None, Some("env".to_string())), Some("env".to_string()));
    assert!(retry_device_login("error: API key not approved within timeout"));
    assert!(!retry_device_login("network down"));
}

#[test]
fn test_default_config() {
    let config = Config::default();
    assert_eq!(config.agent_server_url, None);
    assert_eq!(config.log_level, "info");
}

#[test]
fn test_get_agent_server_hostname_strips_https() {
    let mut config = Config::default();
    config.agent_server_url = Some("https://api.example.com".to_string());
    assert_eq!(config.get_agent_server_hostname(), "api.example.com");
}

#[test]
fn test_get_agent_server_hostname_strips_http() {
    let mut config = Config::default();
    config.agent_server_url = Some("http://api.example.com".to_string());
    assert_eq!(config.get_agent_server_hostname(), "api.example.com");
}

#[test]
fn test_get_agent_server_hostname_with_port() {
    let mut config = Config::default();
    config.agent_server_url = Some("https://api.example.com:8443".to_string());
    assert_eq!(config.get_agent_server_hostname(), "api.example.com:8443");
}

#[test]
fn test_get_agent_server_hostname_no_protocol() {
    let mut config = Config::default();
    config.agent_server_url = Some("api.example.com".to_string());
    assert_eq!(config.get_agent_server_hostname(), "api.example.com");
}

#[test]
fn test_default_heartbeat_interval() {
    assert_eq!(default_heartbeat_interval(), 300);
}

#[test]
fn test_default_api_url() {
    assert_eq!(default_make87_api_url(), "https://api.make87.com");
}

#[test]
fn default_app_url_and_other_defaults() {
    assert_eq!(default_make87_app_url(), "https://app.make87.com");
    let c = Config::default();
    assert_eq!(c.heartbeat_interval_secs, 300);
    assert_eq!(c.device_id, "");
    assert_eq!(c.auth_domain, "https://auth.make87.com/");
    assert!(!c.trust_invalid_server_cert);
}

#[test]
fn device_id_is_hex_of_sha1_prefix() {
    // SHA-1("hostaa:bb") computed independently.
    let id = Config::deterministic_device_id(Some("host".to_string()), Some("aa:bb".to_string()));
    assert_eq!(id, "1cba0fdd43a76d0b18067651");
    assert_eq!(id.len(), 24);
    assert!(id.chars().all(|c| c.is_ascii_hexdigit() && !c.is_ascii_uppercase()));
    let again = Config::deterministic_device_id(Some("host".to_string()), Some("aa:bb".to_string()));
    assert_eq!(id, again);
    let other = Config::deterministic_device_id(None, None);
    assert_eq!(other, "0c20f27aa6e0d7a7da4749e5");
    assert_ne!(id, other);
    // "not found" + zero MAC
    assert_eq!(
        other,
        Config::deterministic_device_id(
            Some("not found".to_string()),
            Some("00:00:00:00:00:00".to_string())
        )
    );
}

#[test]
fn owner_reference_round_trip() {
    let mut c = Config::default();
    assert!(!c.has_owner_reference());
    assert_eq!(
        c.get_owner_reference(),
        Err("No owner reference found. Pass a valid user email or organization id!".to_string())
    );
    c.add_owner_reference("org1".to_string());
    assert_eq!(c.get_owner_reference(), Ok("org1".to_string()));
}

#[test]
fn registration_fills_only_missing_settings() {
    let mut c = Config::default();
    assert!(m87_client::config::needs_server_lookup(&c.agent_server_url, &c.owner_reference));
    c.owner_reference = Some("org-a".to_string());
    c.apply_registration("https://eu".to_string(), "org-b".to_string());
    assert_eq!(c.agent_server_url, Some("https://eu".to_string()));
    assert_eq!(c.owner_reference, Some("org-a".to_string()));
    assert!(!m87_client::config::needs_server_lookup(&c.agent_server_url, &c.owner_reference));
}

#[test]
fn config_set_replaces_given_settings() {
    let mut c = Config::default();
    c.apply_settings(m87_client::config::ConfigSettings {
        server_url: Some("https://x".to_string()),
        owner_reference: None,
        make87_api_url: None,
        make87_app_url: Some("https://app".to_string()),
        trust_invalid_server_cert: Some(true),
    });
    assert_eq!(c.agent_server_url, Some("https://x".to_string()));
    assert_eq!(c.owner_reference, None);
    assert_eq!(c.make87_api_url, "https://api.make87.com");
    assert_eq!(c.make87_app_url, "https://app");
    assert!(c.trust_invalid_server_cert);
}

#[test]
fn default_device_id_matches_deterministic_id() {
    let id = m87_client::config::get_default_device_id(Some("host".to_string()), Some("aa:bb".to_string()));
    assert_eq!(id, "1cba0fdd43a76d0b18067651");
    let fallback = m87_client::config::get_default_device_id(None, None);
    assert_eq!(fallback, "0c20f27aa6e0d7a7da4749e5");
}

#[test]
fn owner_flags_are_saved_only_when_given() {
    let mut c = Config::default();
    assert!(!m87_client::cli::save_owner_if_provided(&mut c, None, None));
    assert_eq!(c.owner_reference, None);
    assert!(m87_client::cli::save_owner_if_provided(
        &mut c,
        Some("org-1".to_string()),
        Some("a@b.c".to_string())
    ));
    assert_eq!(c.owner_reference, Some("org-1".to_string()));
    assert!(m87_client::cli::save_owner_if_provided(&mut c, None, Some("a@b.c".to_string())));
    assert_eq!(c.owner_reference, Some("a@b.c".to_string()));
}

#[test]
fn cli_credentials_are_the_stored_ones() {
    let mut cfg = APIConfig::create();
    assert_eq!(
        AuthManager::get_cli_credentials(&cfg).unwrap_err(),
        "cli credentials not found".to_string()
    );
    cfg.save_cli_credentials(Credentials::APIKey(APIKey { api_key: "k-123".to_string() }));
    match AuthManager::get_cli_credentials(&cfg).unwrap() {
        Credentials::APIKey(k) => assert_eq!(k.api_key, "k-123"),
        _ => panic!("expected an API key"),
    }
}

#[test]
fn device_registration_first_step() {
    use_register(true, None, None, None, None, "already");
    use_register(false, Some("a@b.c"), Some("org9"), None, Some("https://s"), "request https://s user:a@b.c");
    use_register(false, None, Some("org9"), Some("x"), Some("https://s"), "request https://s org:org9");
    use_register(false, None, None, Some("env"), None, "lookup Some(\"env\")");
    use_register(false, None, None, None, Some("https://s"), "lookup None");
}

fn use_register(
    has: bool,
    cli: Option<&str>,
    conf: Option<&str>,
    env: Option<&str>,
    url: Option<&str>,
    expected: &str,
) {
    let s = |o: Option<&str>| o.map(|x| x.to_string());
    let got = match m87_client::auth::register_step(has, s(cli), s(conf), s(env), s(url)) {
        m87_client::auth::RegisterStep::AlreadyRegistered => "already".to_string(),
        m87_client::auth::RegisterStep::LookupServer { owner } => format!("lookup {:?}", owner),
        m87_client::auth::RegisterStep::Request { api_url, owner_scope } => {
            format!("request {} {}", api_url, owner_scope)
        }
    };
    assert_eq!(got, expected);
}
