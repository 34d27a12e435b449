use netlink_ddns::config::{
    get_auth, provider_from_raw, Auth, CliOptions, Config, ConfigError, Ddns, PorkBunAuth,
    Providers, RawProvider,
};

fn raw(
    name: &str,
    key: Option<&str>,
    secret: Option<&str>,
    apikey: Option<&str>,
    patkey: Option<&str>,
) -> RawProvider {
    RawProvider {
        name: name.to_string(),
        key: key.map(|s| s.to_string()),
        secret: secret.map(|s| s.to_string()),
        apikey: apikey.map(|s| s.to_string()),
        patkey: patkey.map(|s| s.to_string()),
    }
}

fn ddns(provider: Providers) -> Ddns {
    Ddns {
        domain: "example.com".to_string(),
        host: "test".to_string(),
        provider,
    }
}

#[test]
fn test_tagged_provider() {
    let provider = provider_from_raw(&raw("porkbun", Some("a_key"), Some("a_secret"), None, None))
        .expect("porkbun provider should validate");
    let conf = ddns(provider);
    assert_eq!(conf.host, "test".to_string());
    assert_eq!(conf.domain, "example.com".to_string());
    if let Providers::PorkBun(auth) = conf.provider {
        assert_eq!(auth.key, "a_key".to_string());
        assert_eq!(auth.secret, "a_secret".to_string());
    } else {
        panic!("Provider mismatch, should be PorkBun");
    }
}

#[test]
fn test_tagged_gandi() {
    let provider = provider_from_raw(&raw("gandi", None, None, Some("api_key"), None))
        .expect("gandi provider should validate");
    let conf = ddns(provider);
    assert_eq!(conf.host, "test".to_string());
    assert_eq!(conf.domain, "example.com".to_string());
    if let Providers::Gandi(Auth::ApiKey(key)) = conf.provider {
        assert_eq!(key, "api_key".to_string());
    } else {
        panic!("Provider mismatch, should be PorkBun");
    }
}

// Only one authentication mode should be allowed at a time
#[test]
fn test_gandi_mixed() {
    let conf_r = provider_from_raw(&raw("gandi", None, None, Some("api_key"), Some("pat_key")));
    assert!(matches!(conf_r, Err(ConfigError::MixedCredentials)));
}

#[test]
fn test_gandi_patkey_only() {
    let provider = provider_from_raw(&raw("gandi", None, None, None, Some("pat_key")))
        .expect("gandi provider should validate");
    if let Providers::Gandi(Auth::PatKey(key)) = provider {
        assert_eq!(key, "pat_key".to_string());
    } else {
        panic!("Provider mismatch, should be Gandi with a PAT key");
    }
}

#[test]
fn test_gandi_without_keys_is_incomplete() {
    let conf_r = provider_from_raw(&raw("gandi", None, None, None, None));
    assert!(matches!(conf_r, Err(ConfigError::MissingCredentials)));
}

#[test]
fn test_porkbun_without_secret_is_incomplete() {
    let conf_r = provider_from_raw(&raw("porkbun", Some("a_key"), None, None, None));
    assert!(matches!(conf_r, Err(ConfigError::MissingCredentials)));
}

#[test]
fn test_unknown_provider_is_rejected() {
    let conf_r = provider_from_raw(&raw("route53", Some("a_key"), Some("a_secret"), None, None));
    assert!(matches!(conf_r, Err(ConfigError::UnknownProvider)));
}

fn config(provider: Providers) -> Config {
    Config {
        log_level: None,
        iface: "eth0".to_string(),
        ddns: ddns(provider),
        dry_run: false,
    }
}

#[test]
fn test_get_auth_api_key() {
    let conf = config(Providers::Gandi(Auth::ApiKey("api_key".to_string())));
    match get_auth(&conf) {
        Ok(Auth::ApiKey(key)) => assert_eq!(key, "api_key".to_string()),
        _ => panic!("expected the configured API key"),
    }
}

#[test]
fn test_get_auth_pat_key() {
    let conf = config(Providers::Gandi(Auth::PatKey("pat_key".to_string())));
    match get_auth(&conf) {
        Ok(Auth::PatKey(key)) => assert_eq!(key, "pat_key".to_string()),
        _ => panic!("expected the configured PAT key"),
    }
}

#[test]
fn test_get_auth_without_gandi_fails() {
    let conf = config(Providers::PorkBun(PorkBunAuth {
        key: "a_key".to_string(),
        secret: "a_secret".to_string(),
    }));
    match get_auth(&conf) {
        Err(ConfigError::NoGandiKey) => {}
        _ => panic!("expected no Gandi key to be found"),
    }
}

#[test]
fn test_cli_options_hold_config_path() {
    let cli = CliOptions {
        config: Some("/tmp/config.corn".to_string()),
    };
    assert_eq!(cli.config.as_deref(), Some("/tmp/config.corn"));
}
