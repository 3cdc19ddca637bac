use easytex::config::{
    effective_config, env_truthy, is_loopback_host, parse_origin_list, Config, ConfigError, EnvOverrides,
    GlobalConfig,
};

fn no_env() -> EnvOverrides {
    EnvOverrides {
        port: None,
        root_dir: None,
        host: None,
        admin_token: None,
        require_auth: None,
        cors_allowed_origins: None,
        max_edit_file_size_bytes: None,
        max_read_file_size_bytes: None,
        max_project_files: None,
        max_pdf_size_bytes: None,
        read_only: None,
    }
}

#[test]
fn test_config_default() {
    let cfg = Config::default();
    assert_eq!(cfg.entrypoint, "main.tex");
}

#[test]
fn test_global_config_default() {
    let cfg = GlobalConfig::default();
    assert_eq!(cfg.port, 8081);
    assert_eq!(cfg.host, "127.0.0.1");
    assert_eq!(cfg.max_concurrent_builds, 4);
    assert_eq!(cfg.history_file, ".easytex-history.json");
    assert_eq!(cfg.max_edit_file_size_bytes, 1_000_000);
    assert_eq!(cfg.max_read_file_size_bytes, 2_000_000);
    assert_eq!(cfg.max_project_files, 5_000);
    assert_eq!(cfg.max_pdf_size_bytes, 100 * 1024 * 1024);
    assert!(!cfg.require_auth);
    assert!(!cfg.read_only);
}

#[test]
fn test_auth_config_validation() {
    let mut cfg = GlobalConfig { require_auth: true, ..GlobalConfig::default() };
    assert!(cfg.validate().is_err());

    cfg.admin_token = Some("test-token".into());
    assert!(cfg.validate().is_ok());

    let wildcard = GlobalConfig { cors_allowed_origins: vec!["*".into()], ..GlobalConfig::default() };
    assert!(wildcard.validate().is_err());

    let cfg = GlobalConfig::default();
    assert!(cfg.validate_effective_bind_host("0.0.0.0").is_err());

    let cfg = GlobalConfig { admin_token: Some("test-token".into()), ..GlobalConfig::default() };
    assert!(cfg.validate_effective_bind_host("0.0.0.0").is_ok());
}

#[test]
fn validation_reports_the_first_failing_check() {
    let cfg = GlobalConfig { max_concurrent_builds: 0, port: 0, ..GlobalConfig::default() };
    assert_eq!(cfg.validate(), Err(ConfigError::NoConcurrentBuilds));
    let cfg = GlobalConfig { session_ttl_hours: 0, ..GlobalConfig::default() };
    assert_eq!(cfg.validate(), Err(ConfigError::NoSessionTtl));
    let cfg = GlobalConfig { build_timeout_mins: 0, ..GlobalConfig::default() };
    assert_eq!(cfg.validate(), Err(ConfigError::NoBuildTimeout));
    let cfg = GlobalConfig { host: "   ".into(), ..GlobalConfig::default() };
    assert_eq!(cfg.validate(), Err(ConfigError::EmptyHost));
    let cfg = GlobalConfig { max_edit_file_size_bytes: 0, ..GlobalConfig::default() };
    assert_eq!(cfg.validate(), Err(ConfigError::NoEditFileSize));
    let cfg = GlobalConfig { max_read_file_size_bytes: 0, ..GlobalConfig::default() };
    assert_eq!(cfg.validate(), Err(ConfigError::NoReadFileSize));
    let cfg = GlobalConfig { max_project_files: 0, ..GlobalConfig::default() };
    assert_eq!(cfg.validate(), Err(ConfigError::NoProjectFiles));
    let cfg = GlobalConfig { max_pdf_size_bytes: 0, ..GlobalConfig::default() };
    assert_eq!(cfg.validate(), Err(ConfigError::NoPdfSize));
    let cfg = GlobalConfig { port: 0, ..GlobalConfig::default() };
    assert_eq!(cfg.validate(), Err(ConfigError::NoPort));
    let cfg = GlobalConfig { cors_allowed_origins: vec!["https://a.example\n".into()], ..GlobalConfig::default() };
    assert_eq!(cfg.validate(), Err(ConfigError::InvalidOrigin));
    let cfg = GlobalConfig { require_auth: true, admin_token: Some("  ".into()), ..GlobalConfig::default() };
    assert_eq!(cfg.validate(), Err(ConfigError::AuthWithoutToken));
    let cfg = GlobalConfig { cors_allowed_origins: vec![" * ".into()], ..GlobalConfig::default() };
    assert_eq!(cfg.validate(), Err(ConfigError::WildcardWithoutToken));
    let cfg = GlobalConfig { history_file: "".into(), ..GlobalConfig::default() };
    assert_eq!(cfg.validate(), Err(ConfigError::EmptyHistoryFile));
    let cfg = GlobalConfig { host: "0.0.0.0".into(), ..GlobalConfig::default() };
    assert_eq!(cfg.validate(), Err(ConfigError::PublicBindWithoutToken));
    assert_eq!(
        ConfigError::PublicBindWithoutToken.message(),
        "admin_token is required when binding EasyTex outside localhost"
    );
    let cfg = GlobalConfig {
        cors_allowed_origins: vec!["https://a.example".into(), "*".into()],
        admin_token: Some("t".into()),
        host: "0.0.0.0".into(),
        ..GlobalConfig::default()
    };
    assert_eq!(cfg.validate(), Ok(()));
}

#[test]
fn loopback_hosts() {
    assert!(is_loopback_host("127.0.0.1"));
    assert!(is_loopback_host(" localhost "));
    assert!(is_loopback_host("::1"));
    assert!(is_loopback_host("[::1]"));
    assert!(!is_loopback_host("0.0.0.0"));
    assert!(!is_loopback_host("127.0.0.2"));
}

#[test]
fn truthy_values() {
    for v in ["1", "true", "TRUE", "yes", "YES", "on", " ON "] {
        assert!(env_truthy(v), "{}", v);
    }
    for v in ["0", "false", "True", "no", "", "onn"] {
        assert!(!env_truthy(v), "{}", v);
    }
}

#[test]
fn origin_lists() {
    assert_eq!(
        parse_origin_list(" https://a.example , ,https://b.example,"),
        vec!["https://a.example".to_string(), "https://b.example".to_string()]
    );
    assert!(parse_origin_list(" , ").is_empty());
}

#[test]
fn environment_overrides() {
    let env = EnvOverrides {
        port: Some("9000".into()),
        root_dir: Some("/srv/tex".into()),
        host: Some("".into()),
        admin_token: Some("".into()),
        require_auth: Some("yes".into()),
        cors_allowed_origins: Some("https://a.example, *".into()),
        max_edit_file_size_bytes: Some("not a number".into()),
        max_read_file_size_bytes: Some("+42".into()),
        max_project_files: Some("7".into()),
        max_pdf_size_bytes: Some("18446744073709551615".into()),
        read_only: Some("off".into()),
    };
    let base = GlobalConfig { admin_token: Some("old".into()), read_only: true, ..GlobalConfig::default() };
    let cfg = base.apply_env(&env);
    assert_eq!(cfg.port, 9000);
    assert_eq!(cfg.root_dir, "/srv/tex");
    assert_eq!(cfg.host, "127.0.0.1");
    assert_eq!(cfg.admin_token, None);
    assert!(cfg.require_auth);
    assert_eq!(cfg.cors_allowed_origins, vec!["https://a.example".to_string(), "*".to_string()]);
    assert_eq!(cfg.max_edit_file_size_bytes, 1_000_000);
    assert_eq!(cfg.max_read_file_size_bytes, 42);
    assert_eq!(cfg.max_project_files, 7);
    assert_eq!(cfg.max_pdf_size_bytes, u64::MAX);
    assert!(!cfg.read_only);

    let port_too_big = EnvOverrides { port: Some("70000".into()), host: Some("0.0.0.0".into()), ..no_env() };
    let cfg = GlobalConfig::default().apply_env(&port_too_big);
    assert_eq!(cfg.port, 8081);
    assert_eq!(cfg.host, "0.0.0.0");

    let unchanged = GlobalConfig::default().apply_env(&no_env());
    assert_eq!(unchanged.port, 8081);
    assert_eq!(unchanged.admin_token, None);
}

#[test]
fn effective_project_config() {
    let good = Config { entrypoint: "thesis.tex".into(), format_command: Some("tex-fmt -n".into()) };
    let cfg = effective_config(Some(good));
    assert_eq!(cfg.entrypoint, "thesis.tex");
    assert_eq!(cfg.format_command.as_deref(), Some("tex-fmt -n"));
    let bad = Config { entrypoint: "../x.tex".into(), format_command: Some("rm".into()) };
    let cfg = effective_config(Some(bad));
    assert_eq!(cfg.entrypoint, "main.tex");
    assert_eq!(cfg.format_command, None);
    assert_eq!(effective_config(None).entrypoint, "main.tex");
}

#[test]
fn default_config_passes_validation() {
    assert_eq!(GlobalConfig::default().validate(), Ok(()));
}

#[test]
fn accepted_public_config_carries_a_token() {
    let mut cfg = GlobalConfig::default();
    cfg.host = "0.0.0.0".to_string();
    cfg.cors_allowed_origins = vec!["*".to_string()];
    cfg.require_auth = true;
    cfg.admin_token = Some("  ".to_string());
    assert!(cfg.validate().is_err());
    cfg.admin_token = Some("s3cret".to_string());
    assert_eq!(cfg.validate(), Ok(()));
}
