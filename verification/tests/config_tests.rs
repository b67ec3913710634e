use user_service::AppConfig;

#[test]
fn test_default_config() {
    let config = AppConfig::default();
    assert_eq!(config.server_host, "0.0.0.0");
    assert_eq!(config.server_port, 3000);
    assert_eq!(config.database_url, "in-memory");
}

#[test]
fn test_server_address() {
    let config = AppConfig {
        server_host: "localhost".to_string(),
        server_port: 8080,
        database_url: "test".to_string(),
        jwt_secret: "test".to_string(),
        email_service_url: None,
        log_level: "test".to_string(),
    };

    assert_eq!(config.server_address(), "localhost:8080");
}

#[test]
fn test_server_address_port_edges() {
    let mut config = AppConfig::default();
    config.server_port = 0;
    assert_eq!(config.server_address(), "0.0.0.0:0");
    config.server_port = 65535;
    assert_eq!(config.server_address(), "0.0.0.0:65535");
    config.server_port = 3000;
    assert_eq!(config.server_address(), "0.0.0.0:3000");
}
