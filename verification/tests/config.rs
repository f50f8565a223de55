use backend::config::{
    check_bind_address, non_empty_env_value, Config, EnvVars, IpAddress, SocketAddress,
    DEFAULT_OPENROUTER_MODEL,
};
use backend::db::pool_max_connections;

fn no_vars() -> EnvVars {
    EnvVars {
        backend_bind_addr: None,
        database_url: None,
        openrouter_api_key: None,
        openrouter_model: None,
        openrouter_http_referer: None,
        openrouter_title: None,
        x_openrouter_title: None,
    }
}

#[test]
fn test_config_uses_memory_database_and_no_key() {
    let config = Config::for_tests();
    assert_eq!(config.bind_addr, "127.0.0.1:0");
    assert_eq!(config.database_url, "sqlite::memory:");
    assert_eq!(config.openrouter_api_key, None);
    assert_eq!(config.openrouter_model, "nvidia/nemotron-3-super-120b-a12b:free");
    assert_eq!(config.openrouter_title, "gpt-copy-v6-tests");
}

#[test]
fn environment_defaults_apply_when_unset_or_blank() {
    let config = Config::from_env_vars(no_vars());
    assert_eq!(config.bind_addr, "127.0.0.1:8080");
    assert_eq!(config.database_url, "sqlite:gpt-copy-v6.db");
    assert_eq!(config.openrouter_api_key, None);
    assert_eq!(config.openrouter_model, DEFAULT_OPENROUTER_MODEL);
    assert_eq!(config.openrouter_http_referer, None);
    assert_eq!(config.openrouter_title, "gpt-copy-v6");

    let mut vars = no_vars();
    vars.openrouter_model = Some("   ".to_owned());
    vars.openrouter_api_key = Some("".to_owned());
    vars.x_openrouter_title = Some(" other ".to_owned());
    let config = Config::from_env_vars(vars);
    assert_eq!(config.openrouter_model, DEFAULT_OPENROUTER_MODEL);
    assert_eq!(config.openrouter_api_key, None);
    assert_eq!(config.openrouter_title, "other");
}

#[test]
fn environment_values_are_trimmed() {
    let mut vars = no_vars();
    vars.backend_bind_addr = Some(" 127.0.0.1:9000 ".to_owned());
    vars.openrouter_api_key = Some("  key \n".to_owned());
    vars.openrouter_model = Some(" m ".to_owned());
    vars.openrouter_title = Some("t".to_owned());
    vars.x_openrouter_title = Some("x".to_owned());
    let config = Config::from_env_vars(vars);
    assert_eq!(config.bind_addr, " 127.0.0.1:9000 ");
    assert_eq!(config.openrouter_api_key.as_deref(), Some("key"));
    assert_eq!(config.openrouter_model, "m");
    assert_eq!(config.openrouter_title, "t");
    assert_eq!(non_empty_env_value(Some(" v ".to_owned())).as_deref(), Some("v"));
    assert_eq!(non_empty_env_value(Some(" \t".to_owned())), None);
}

#[test]
fn rejects_non_loopback_bind_addresses_without_authentication() {
    let parsed = SocketAddress {
        ip: IpAddress::V4(0, 0, 0, 0),
        port: 8080,
        text: "0.0.0.0:8080".to_owned(),
    };
    let error = check_bind_address(Ok(parsed)).unwrap_err().message();
    assert!(error.contains("BACKEND_BIND_ADDR must bind to a loopback address"));
    assert!(error.ends_with("0.0.0.0:8080"));
}

#[test]
fn loopback_bind_addresses_are_accepted() {
    let v4 = SocketAddress { ip: IpAddress::V4(127, 0, 0, 1), port: 0, text: "127.0.0.1:0".to_owned() };
    assert_eq!(check_bind_address(Ok(v4.clone())).unwrap(), v4);
    let v6 = SocketAddress { ip: IpAddress::V6(0, 0, 0, 0, 0, 0, 0, 1), port: 80, text: "[::1]:80".to_owned() };
    assert!(check_bind_address(Ok(v6)).is_ok());
    let other = SocketAddress { ip: IpAddress::V6(0, 0, 0, 0, 0, 0, 0, 2), port: 80, text: "[::2]:80".to_owned() };
    assert!(check_bind_address(Ok(other)).is_err());
    let error = check_bind_address(Err("invalid socket address syntax".to_owned())).unwrap_err();
    assert_eq!(
        error.message(),
        "BACKEND_BIND_ADDR must be a socket address: invalid socket address syntax"
    );
}

#[test]
fn memory_databases_use_a_single_connection() {
    assert_eq!(pool_max_connections("sqlite::memory:"), 1);
    assert_eq!(pool_max_connections("sqlite:gpt-copy-v6.db"), 5);
    assert_eq!(pool_max_connections(":memory"), 5);
}
