use corto::config::{
    build_short_url, normalize_base_url, AppConfig, DatasourceConfig, EnvironmentConfig,
    LoggingConfig, ServerConfig,
};

fn config_with(base_url: Option<&str>) -> AppConfig {
    AppConfig {
        environment: EnvironmentConfig { env: "test".to_string() },
        server: ServerConfig {
            host: None,
            port: 8080,
            base_url: base_url.map(|s| s.to_string()),
        },
        datasource: DatasourceConfig { url: "postgres://localhost/db".to_string() },
        logging: LoggingConfig { level: "info".to_string() },
    }
}

#[test]
fn base_url_is_trimmed_and_loses_trailing_slashes() {
    assert_eq!(
        normalize_base_url(&config_with(Some("  https://s.io//  "))),
        Some("https://s.io".to_string())
    );
    assert_eq!(normalize_base_url(&config_with(Some("https://s.io"))), Some("https://s.io".to_string()));
}

#[test]
fn blank_or_absent_base_url_is_none() {
    assert_eq!(normalize_base_url(&config_with(None)), None);
    assert_eq!(normalize_base_url(&config_with(Some("   "))), None);
}

#[test]
fn short_url_joins_base_and_code() {
    assert_eq!(build_short_url(Some("https://s.io/"), "Ye6"), Some("https://s.io/Ye6".to_string()));
    assert_eq!(build_short_url(Some("https://s.io"), "N"), Some("https://s.io/N".to_string()));
}

#[test]
fn short_url_needs_base_and_code() {
    assert_eq!(build_short_url(None, "N"), None);
    assert_eq!(build_short_url(Some("///"), "N"), None);
    assert_eq!(build_short_url(Some("https://s.io"), ""), None);
}
