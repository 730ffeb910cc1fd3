use sn::config::{
    clear_oauth_tokens, default_redirect_uri, load_oauth_tokens, now_unix, resolve_profile,
    save_oauth_tokens, AuthMethod, Config, Credentials, OAuthConfig, OAuthGrant, ProfileConfig,
    ProfileCredentials, ProfileResolverInputs, TokenSet,
};
use sn::error::Error;

fn at(instance: &str) -> ProfileConfig {
    ProfileConfig {
        instance: instance.into(),
        ..Default::default()
    }
}

fn config_with(change: impl FnOnce(&mut ProfileConfig)) -> Config {
    let mut cfg = Config {
        default_profile: Some("dev".into()),
        ..Default::default()
    };
    let mut dev = at("dev.example.com");
    change(&mut dev);
    cfg.profiles.insert("dev", dev);
    cfg.profiles.insert("prod", at("prod.example.com"));
    cfg
}

fn sample_config() -> Config {
    config_with(|_| {})
}

fn credentials_with(change: impl FnOnce(&mut ProfileCredentials)) -> Credentials {
    let mut cr = Credentials::default();
    let mut dev = ProfileCredentials {
        username: "dev-u".into(),
        password: "dev-p".into(),
        ..Default::default()
    };
    change(&mut dev);
    cr.profiles.insert("dev", dev);
    cr.profiles.insert(
        "prod",
        ProfileCredentials {
            username: "prod-u".into(),
            password: "prod-p".into(),
            ..Default::default()
        },
    );
    cr
}

fn sample_credentials() -> Credentials {
    credentials_with(|_| {})
}

fn base_inputs<'a>(cfg: &'a Config, cr: &'a Credentials) -> ProfileResolverInputs<'a> {
    ProfileResolverInputs {
        cli_profile: None,
        cli_proxy: None,
        env_proxy: None,
        cli_no_proxy: false,
        env_no_proxy: None,
        cli_insecure: false,
        env_insecure: None,
        cli_ca_cert: None,
        env_ca_cert: None,
        cli_proxy_ca_cert: None,
        env_proxy_ca_cert: None,
        config: cfg,
        credentials: cr,
    }
}

#[test]
fn default_profile_when_none_specified() {
    let cfg = sample_config();
    let cr = sample_credentials();
    let r = resolve_profile(base_inputs(&cfg, &cr)).unwrap();
    assert_eq!(r.name, "dev");
    assert_eq!(r.instance, "dev.example.com");
}

#[test]
fn cli_profile_wins_over_default() {
    let cfg = sample_config();
    let cr = sample_credentials();
    let r = resolve_profile(ProfileResolverInputs {
        cli_profile: Some("prod"),
        ..base_inputs(&cfg, &cr)
    })
    .unwrap();
    assert_eq!(r.name, "prod");
    assert_eq!(r.instance, "prod.example.com");
}

#[test]
fn no_profile_selected_errors_clearly() {
    // No --profile flag and no default_profile: selection must fail with a clear
    // error instead of falling back to a phantom "default".
    let cfg = Config::default();
    let cr = Credentials::default();
    let err = resolve_profile(base_inputs(&cfg, &cr)).unwrap_err();
    match err {
        Error::Config(msg) => assert!(
            msg.contains("no profile selected")
                && msg.contains("--profile")
                && msg.contains("sn init"),
            "unexpected error message: {msg}"
        ),
        other => panic!("expected Error::Config, got: {other:?}"),
    }
}

#[test]
fn empty_instance_rejected() {
    // A stored profile whose instance is empty/whitespace must be rejected
    // instead of producing a scheme-only base URL like "https://".
    let cfg = config_with(|p| p.instance = "   ".into());
    let cr = sample_credentials();
    let err = resolve_profile(base_inputs(&cfg, &cr)).unwrap_err();
    match err {
        Error::Config(msg) => assert!(
            msg.contains("no instance configured for profile 'dev'"),
            "unexpected error message: {msg}"
        ),
        other => panic!("expected Error::Config, got: {other:?}"),
    }
}

#[test]
fn env_vars_never_leak_into_credentials() {
    // Even when the env inputs are set to garbage, the resolved
    // instance/username/password come exclusively from the profile file.
    let cfg = sample_config();
    let cr = sample_credentials();
    let r = resolve_profile(ProfileResolverInputs {
        cli_profile: Some("dev"),
        env_proxy: Some("http://garbage.invalid:9999"),
        env_no_proxy: Some("garbage"),
        env_insecure: Some("1"),
        env_ca_cert: Some("/garbage/ca.pem"),
        env_proxy_ca_cert: Some("/garbage/proxy-ca.pem"),
        ..base_inputs(&cfg, &cr)
    })
    .unwrap();
    assert_eq!(r.name, "dev");
    assert_eq!(r.instance, "dev.example.com");
    assert_eq!(r.username, "dev-u");
    assert_eq!(r.password, "dev-p");
}

#[test]
fn proxy_precedence_cli_beats_env_beats_profile() {
    let cfg = config_with(|p| p.proxy = Some("http://profile.proxy:1".into()));
    let cr = sample_credentials();

    // CLI > env > profile.
    let r = resolve_profile(ProfileResolverInputs {
        cli_proxy: Some("http://cli.proxy:3"),
        env_proxy: Some("http://env.proxy:2"),
        ..base_inputs(&cfg, &cr)
    })
    .unwrap();
    assert_eq!(r.proxy.as_deref(), Some("http://cli.proxy:3"));

    // Drop CLI: env wins.
    let r = resolve_profile(ProfileResolverInputs {
        env_proxy: Some("http://env.proxy:2"),
        ..base_inputs(&cfg, &cr)
    })
    .unwrap();
    assert_eq!(r.proxy.as_deref(), Some("http://env.proxy:2"));

    // Drop env: profile wins.
    let r = resolve_profile(base_inputs(&cfg, &cr)).unwrap();
    assert_eq!(r.proxy.as_deref(), Some("http://profile.proxy:1"));
}

#[test]
fn no_proxy_flag_clears_all_proxies() {
    let cfg = config_with(|p| p.proxy = Some("http://profile.proxy:1".into()));
    let cr = sample_credentials();
    let r = resolve_profile(ProfileResolverInputs {
        cli_proxy: Some("http://cli.proxy:3"),
        env_proxy: Some("http://env.proxy:2"),
        cli_no_proxy: true,
        ..base_inputs(&cfg, &cr)
    })
    .unwrap();
    assert_eq!(r.proxy, None);
}

#[test]
fn env_no_proxy_string_propagates() {
    let cfg = sample_config();
    let cr = sample_credentials();
    let r = resolve_profile(ProfileResolverInputs {
        env_no_proxy: Some("localhost,127.0.0.1"),
        ..base_inputs(&cfg, &cr)
    })
    .unwrap();
    assert_eq!(r.no_proxy.as_deref(), Some("localhost,127.0.0.1"));
}

fn insecure_by_env(value: &str) -> bool {
    let cfg = sample_config();
    let cr = sample_credentials();
    resolve_profile(ProfileResolverInputs {
        env_insecure: Some(value),
        ..base_inputs(&cfg, &cr)
    })
    .unwrap()
    .insecure
}

#[test]
fn env_insecure_recognizes_1_and_true() {
    // "1" and "true" in any case flip the flag.
    assert!(insecure_by_env("1"));
    assert!(insecure_by_env("true"));
    assert!(insecure_by_env("TRUE"));
    // "0", "false" and arbitrary garbage do NOT flip the flag.
    assert!(!insecure_by_env("0"));
    assert!(!insecure_by_env("false"));
    assert!(!insecure_by_env("yes-please"));
}

#[test]
fn cli_insecure_or_env_or_profile_ored() {
    let cfg = sample_config();
    let cr = sample_credentials();

    // CLI alone is enough.
    let r = resolve_profile(ProfileResolverInputs {
        cli_insecure: true,
        ..base_inputs(&cfg, &cr)
    })
    .unwrap();
    assert!(r.insecure);

    // Env alone is enough.
    let r = resolve_profile(ProfileResolverInputs {
        env_insecure: Some("1"),
        ..base_inputs(&cfg, &cr)
    })
    .unwrap();
    assert!(r.insecure);

    // Profile alone is enough.
    let insecure = config_with(|p| p.insecure = true);
    let r = resolve_profile(base_inputs(&insecure, &cr)).unwrap();
    assert!(r.insecure);

    // All three false/unset: resolved is false.
    let r = resolve_profile(base_inputs(&cfg, &cr)).unwrap();
    assert!(!r.insecure);
}

#[test]
fn ca_cert_precedence_cli_beats_env_beats_profile() {
    let cfg = config_with(|p| p.ca_cert = Some("/profile/ca.pem".into()));
    let cr = sample_credentials();

    // CLI > env > profile.
    let r = resolve_profile(ProfileResolverInputs {
        cli_ca_cert: Some("/cli/ca.pem"),
        env_ca_cert: Some("/env/ca.pem"),
        ..base_inputs(&cfg, &cr)
    })
    .unwrap();
    assert_eq!(r.ca_cert.as_deref(), Some("/cli/ca.pem"));

    // Drop CLI: env wins.
    let r = resolve_profile(ProfileResolverInputs {
        env_ca_cert: Some("/env/ca.pem"),
        ..base_inputs(&cfg, &cr)
    })
    .unwrap();
    assert_eq!(r.ca_cert.as_deref(), Some("/env/ca.pem"));

    // Drop env: profile wins.
    let r = resolve_profile(base_inputs(&cfg, &cr)).unwrap();
    assert_eq!(r.ca_cert.as_deref(), Some("/profile/ca.pem"));
}

#[test]
fn proxy_ca_cert_precedence_cli_beats_env_beats_profile() {
    let cfg = config_with(|p| p.proxy_ca_cert = Some("/profile/proxy-ca.pem".into()));
    let cr = sample_credentials();

    // CLI > env > profile.
    let r = resolve_profile(ProfileResolverInputs {
        cli_proxy_ca_cert: Some("/cli/proxy-ca.pem"),
        env_proxy_ca_cert: Some("/env/proxy-ca.pem"),
        ..base_inputs(&cfg, &cr)
    })
    .unwrap();
    assert_eq!(r.proxy_ca_cert.as_deref(), Some("/cli/proxy-ca.pem"));

    // Drop CLI: env wins.
    let r = resolve_profile(ProfileResolverInputs {
        env_proxy_ca_cert: Some("/env/proxy-ca.pem"),
        ..base_inputs(&cfg, &cr)
    })
    .unwrap();
    assert_eq!(r.proxy_ca_cert.as_deref(), Some("/env/proxy-ca.pem"));

    // Drop env: profile wins.
    let r = resolve_profile(base_inputs(&cfg, &cr)).unwrap();
    assert_eq!(r.proxy_ca_cert.as_deref(), Some("/profile/proxy-ca.pem"));
}

#[test]
fn proxy_credentials_only_come_from_profile_file() {
    let cfg = sample_config();
    let cr = credentials_with(|dev| {
        dev.proxy_username = Some("proxy-user".into());
        dev.proxy_password = Some("proxy-pass".into());
    });
    let r = resolve_profile(base_inputs(&cfg, &cr)).unwrap();
    assert_eq!(r.proxy_username.as_deref(), Some("proxy-user"));
    assert_eq!(r.proxy_password.as_deref(), Some("proxy-pass"));
}

#[test]
fn unknown_profile_name_falls_through_to_missing_field_error() {
    let cfg = sample_config();
    let cr = sample_credentials();
    let err = resolve_profile(ProfileResolverInputs {
        cli_profile: Some("nonexistent"),
        ..base_inputs(&cfg, &cr)
    })
    .unwrap_err();
    match err {
        Error::Config(msg) => assert!(
            msg.contains("nonexistent"),
            "error message should name the profile, got: {msg}"
        ),
        other => panic!("expected Error::Config, got: {other:?}"),
    }
}

#[test]
fn default_profile_in_config_used_when_no_cli_profile() {
    let mut cfg = sample_config();
    cfg.default_profile = Some("prod".into());
    let cr = sample_credentials();
    let r = resolve_profile(base_inputs(&cfg, &cr)).unwrap();
    assert_eq!(r.name, "prod");
    assert_eq!(r.instance, "prod.example.com");
}

#[test]
fn oauth_profile_resolves_without_requiring_username_password() {
    let mut cfg = Config {
        default_profile: Some("sso".into()),
        ..Default::default()
    };
    cfg.profiles.insert(
        "sso",
        ProfileConfig {
            instance: "sso.example.com".into(),
            auth: AuthMethod::Oauth,
            oauth: Some(OAuthConfig {
                client_id: "abc".into(),
                redirect_uri: None,
                auth_path: None,
                token_path: None,
                grant: OAuthGrant::AuthorizationCode,
                pkce: true,
            }),
            ..Default::default()
        },
    );
    let mut cr = Credentials::default();
    cr.profiles.insert(
        "sso",
        ProfileCredentials {
            client_secret: Some("shh".into()),
            oauth_tokens: Some(TokenSet {
                access_token: "AT".into(),
                refresh_token: Some("RT".into()),
                expires_at: Some(now_unix() + 3600),
                token_type: Some("Bearer".into()),
            }),
            ..Default::default()
        },
    );
    let r = resolve_profile(base_inputs(&cfg, &cr)).unwrap();
    assert_eq!(r.name, "sso");
    assert_eq!(r.auth_method, AuthMethod::Oauth);
    let o = r.oauth.expect("resolved oauth state");
    assert_eq!(o.client_id, "abc");
    // Defaults applied for the unset endpoint/redirect fields.
    assert_eq!(o.redirect_uri, default_redirect_uri());
    assert_eq!(o.auth_path, "/oauth_auth.do");
    assert_eq!(o.token_path, "/oauth_token.do");
    assert_eq!(o.client_secret.as_deref(), Some("shh"));
    assert_eq!(o.tokens.unwrap().access_token, "AT");
}

#[test]
fn oauth_profile_without_config_section_errors() {
    let mut cfg = Config::default();
    cfg.profiles.insert(
        "sso",
        ProfileConfig {
            instance: "sso.example.com".into(),
            auth: AuthMethod::Oauth,
            oauth: None,
            ..Default::default()
        },
    );
    let cr = Credentials::default();
    let err = resolve_profile(ProfileResolverInputs {
        cli_profile: Some("sso"),
        ..base_inputs(&cfg, &cr)
    })
    .unwrap_err();
    assert!(matches!(err, Error::Config(_)));
}

#[test]
fn cli_profile_overrides_default_profile_in_config() {
    let mut cfg = sample_config();
    cfg.default_profile = Some("prod".into());
    let cr = sample_credentials();
    let r = resolve_profile(ProfileResolverInputs {
        cli_profile: Some("dev"),
        ..base_inputs(&cfg, &cr)
    })
    .unwrap();
    assert_eq!(r.name, "dev");
    assert_eq!(r.instance, "dev.example.com");
}

fn tokens(expires_at: Option<u64>) -> TokenSet {
    TokenSet {
        access_token: "AT".into(),
        refresh_token: None,
        expires_at,
        token_type: None,
    }
}

#[test]
fn a_token_ends_within_the_skew() {
    assert!(tokens(Some(1000)).is_expired_at(940, 60));
    assert!(!tokens(Some(1000)).is_expired_at(939, 60));
    assert!(!tokens(None).is_expired_at(u64::MAX, 60));
    assert!(tokens(Some(1)).is_expired(0));
    assert!(!tokens(Some(now_unix() + 3600)).is_expired(60));
}

#[test]
fn tokens_that_are_saved_are_loaded_and_then_cleared() {
    let mut cr = sample_credentials();
    save_oauth_tokens(&mut cr, "dev", &tokens(Some(5)));
    assert_eq!(load_oauth_tokens(&cr, "dev"), Some(tokens(Some(5))));
    assert_eq!(load_oauth_tokens(&cr, "prod"), None);
    assert_eq!(cr.profiles.get("dev").unwrap().password, "dev-p");
    clear_oauth_tokens(&mut cr, "dev");
    assert_eq!(load_oauth_tokens(&cr, "dev"), None);
}
