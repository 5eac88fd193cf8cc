use toml::{Table, Value};
use ws_net::config::{
    default_gateway_pool_size, default_server_url, default_tunnel_path, AccessConfig,
    AccessGatewayConfig, AccessSection, ConfigError, ListenerConfig,
};
use ws_net::message::Mode;

fn text(table: &Table, key: &str) -> Option<String> {
    table.get(key).map(|value| value.as_str().unwrap().to_string())
}

fn flag(table: &Table, key: &str) -> bool {
    table.get(key).map(|value| value.as_bool().unwrap()).unwrap_or(false)
}

fn tables(table: &Table, key: &str) -> Vec<Table> {
    table
        .get(key)
        .map(|value| {
            value
                .as_array()
                .unwrap()
                .iter()
                .map(|item| item.as_table().unwrap().clone())
                .collect()
        })
        .unwrap_or_default()
}

fn listener(table: &Table) -> ListenerConfig {
    ListenerConfig {
        name: text(table, "name").unwrap(),
        mode: match text(table, "mode").unwrap().as_str() {
            "tcp" => Mode::Tcp,
            "http" => Mode::Http,
            other => panic!("unknown mode {other}"),
        },
        gateway: text(table, "gateway"),
        server_url: text(table, "server_url"),
        listen: text(table, "listen").unwrap(),
        host: text(table, "host").unwrap(),
        port: table["port"].as_integer().unwrap() as u16,
        scheme: text(table, "scheme"),
        local_scheme: text(table, "local_scheme"),
        auto_cert: flag(table, "auto_cert"),
        accept_invalid_certs: flag(table, "accept_invalid_certs"),
        rewrite_location: flag(table, "rewrite_location"),
        rewrite_cookie: flag(table, "rewrite_cookie"),
    }
}

fn parse(content: &str) -> AccessConfig {
    let root: Table = toml::from_str(content).unwrap();
    let access = root["access"].as_table().unwrap();
    AccessConfig {
        access: AccessSection {
            token: text(access, "token"),
            server_url: text(access, "server_url"),
            server_urls: access
                .get("server_urls")
                .and_then(Value::as_array)
                .map(|urls| urls.iter().map(|url| url.as_str().unwrap().to_string()).collect())
                .unwrap_or_default(),
            gateway_pool_size: access
                .get("gateway_pool_size")
                .map(|size| size.as_integer().unwrap() as usize)
                .unwrap_or_else(default_gateway_pool_size),
        },
        gateways: tables(&root, "gateways")
            .iter()
            .map(|gateway| AccessGatewayConfig {
                name: text(gateway, "name").unwrap(),
                server_url: text(gateway, "server_url").unwrap(),
                token: text(gateway, "token").unwrap(),
            })
            .collect(),
        listeners: tables(&root, "listeners").iter().map(listener).collect(),
    }
}

#[test]
fn parses_gateway_specific_tokens() {
    let config = parse(
        r#"
            [access]
            gateway_pool_size = 2

            [[gateways]]
            name = "east"
            server_url = "wss://east.example/tunnel"
            token = "east-token"

            [[gateways]]
            name = "west"
            server_url = "wss://west.example/tunnel"
            token = "west-token"

            [[listeners]]
            name = "east-db"
            mode = "tcp"
            gateway = "east"
            listen = "127.0.0.1:3308"
            host = "10.0.0.10"
            port = 3306
        "#,
    );

    assert_eq!(
        config.gateway_configs().unwrap(),
        vec![
            AccessGatewayConfig {
                name: "east".to_string(),
                server_url: "wss://east.example/tunnel".to_string(),
                token: "east-token".to_string(),
            },
            AccessGatewayConfig {
                name: "west".to_string(),
                server_url: "wss://west.example/tunnel".to_string(),
                token: "west-token".to_string(),
            },
        ]
    );
    assert_eq!(config.listeners[0].gateway.as_deref(), Some("east"));
}

#[test]
fn access_example_uses_valid_gateway_references() {
    let config = parse(
        r#"
            [access]
            gateway_pool_size = 8

            [[gateways]]
            name = "primary"
            server_url = "ws://127.0.0.1:8443/tunnel"
            token = "change-primary-access-token"

            [[gateways]]
            name = "secondary"
            server_url = "ws://127.0.0.1:8444/tunnel"
            token = "change-secondary-access-token"

            [[listeners]]
            name = "mysql"
            mode = "tcp"
            gateway = "primary"
            listen = "127.0.0.1:3308"
            host = "10.0.0.10"
            port = 3306

            [[listeners]]
            name = "redis"
            mode = "tcp"
            gateway = "secondary"
            listen = "127.0.0.1:63790"
            host = "10.0.0.11"
            port = 6379

            [[listeners]]
            name = "admin"
            mode = "http"
            gateway = "primary"
            listen = "127.0.0.1:18080"
            scheme = "https"
            host = "admin.internal.local"
            port = 443
            rewrite_location = true
            rewrite_cookie = true
        "#,
    );
    let gateways = config.gateway_configs().unwrap();

    assert_eq!(gateways.len(), 2);
    assert!(config
        .listeners
        .iter()
        .all(|listener| listener.gateway.is_some()));
}

#[test]
fn preserves_legacy_single_token_configuration() {
    let config = parse(
        r#"
            [access]
            token = "shared-token"
            server_urls = ["ws://a/tunnel", "ws://b/tunnel"]
        "#,
    );

    assert_eq!(config.gateway_configs().unwrap()[1].token, "shared-token");
    assert_eq!(config.gateway_configs().unwrap()[1].name, "gateway-2");
}

#[test]
fn rejects_duplicate_gateway_names() {
    let config = parse(
        r#"
            [access]
            [[gateways]]
            name = "same"
            server_url = "ws://a/tunnel"
            token = "a"

            [[gateways]]
            name = "same"
            server_url = "ws://b/tunnel"
            token = "b"
        "#,
    );

    assert!(config.gateway_configs().is_err());
}

#[test]
fn requires_listener_gateway_when_multiple_gateways_exist() {
    let config = parse(
        r#"
            [access]

            [[gateways]]
            name = "east"
            server_url = "ws://east/tunnel"
            token = "east-token"

            [[gateways]]
            name = "west"
            server_url = "ws://west/tunnel"
            token = "west-token"

            [[listeners]]
            name = "ambiguous"
            mode = "tcp"
            listen = "127.0.0.1:3308"
            host = "10.0.0.10"
            port = 3306
        "#,
    );

    assert!(config.gateway_configs().is_err());
}

const LISTENER: &str = r#"
    [[listeners]]
    name = "db"
    mode = "tcp"
    listen = "127.0.0.1:3308"
    host = "10.0.0.10"
    port = 3306
"#;

fn with_listener(access: &str, extra: &str) -> AccessConfig {
    parse(&format!("{access}\n{LISTENER}\n{extra}"))
}

#[test]
fn a_single_gateway_may_be_left_out() {
    let config = with_listener(
        "[access]\n[[gateways]]\nname = \"only\"\nserver_url = \"ws://only\"\ntoken = \"t\"",
        "",
    );
    assert_eq!(config.gateway_configs().unwrap().len(), 1);
    assert_eq!(config.server_urls(), vec!["ws://only".to_string()]);
}

#[test]
fn legacy_addresses_are_collected_once_and_trimmed() {
    let config = with_listener(
        "[access]\ntoken = \"t\"\nserver_url = \" ws://a \"\nserver_urls = [\"ws://b\", \"ws://a\", \" \", \"ws://b\"]",
        "server_url = \"ws://c \"",
    );
    assert_eq!(config.server_urls(), vec!["ws://a", "ws://b", "ws://c"]);
    let gateways = config.gateway_configs().unwrap();
    assert_eq!(
        gateways.iter().map(|gateway| gateway.name.as_str()).collect::<Vec<_>>(),
        vec!["gateway-1", "gateway-2", "gateway-3"]
    );
    assert!(gateways.iter().all(|gateway| gateway.token == "t"));
    assert_eq!(default_server_url(&config), Some("ws://a".to_string()));
}

#[test]
fn legacy_numbers_have_several_digits() {
    let mut config = parse("[access]\ntoken = \"t\"");
    config.access.server_urls = (0..12).map(|i| format!("ws://{i}")).collect();
    let gateways = config.gateway_configs().unwrap();
    assert_eq!(gateways[8].name, "gateway-9");
    assert_eq!(gateways[9].name, "gateway-10");
    assert_eq!(gateways[11].name, "gateway-12");
}

#[test]
fn names_and_addresses_are_trimmed_but_tokens_are_not() {
    let config = parse(
        "[access]\n[[gateways]]\nname = \"\\u2003east\\t\"\nserver_url = \" ws://east \"\ntoken = \" t \"",
    );
    assert_eq!(
        config.gateway_configs().unwrap(),
        vec![AccessGatewayConfig {
            name: "east".to_string(),
            server_url: "ws://east".to_string(),
            token: " t ".to_string(),
        }]
    );
}

#[test]
fn every_fault_is_reported() {
    let gateway = |name: &str, url: &str, token: &str| {
        format!("[[gateways]]\nname = \"{name}\"\nserver_url = \"{url}\"\ntoken = \"{token}\"\n")
    };
    let two = format!(
        "[access]\n{}{}",
        gateway("east", "ws://east", "e"),
        gateway("west", "ws://west", "w")
    );
    let cases = [
        (parse("[access]"), ConfigError::MissingToken),
        (parse("[access]\ntoken = \"  \""), ConfigError::MissingToken),
        (parse("[access]\ntoken = \"t\""), ConfigError::NoGateway),
        (
            parse(&format!("[access]\n{}", gateway(" ", "ws://a", "t"))),
            ConfigError::EmptyName,
        ),
        (
            parse(&format!("[access]\n{}", gateway("a", " ", "t"))),
            ConfigError::EmptyServerUrl { gateway: "a".to_string() },
        ),
        (
            parse(&format!("[access]\n{}", gateway("a", "ws://a", "\\t"))),
            ConfigError::EmptyToken { gateway: "a".to_string() },
        ),
        (
            parse(&format!(
                "[access]\n{}{}",
                gateway("a", "ws://a", "t"),
                gateway(" a", "ws://b", "t")
            )),
            ConfigError::DuplicateName { gateway: "a".to_string() },
        ),
        (
            with_listener(&two, "gateway = \"east\"\nserver_url = \"ws://east\""),
            ConfigError::BothRoutes { listener: "db".to_string() },
        ),
        (
            with_listener(&two, "gateway = \"north\""),
            ConfigError::UnavailableGateway {
                listener: "db".to_string(),
                gateway: "north".to_string(),
            },
        ),
        (
            with_listener(&two, "server_url = \"ws://north\""),
            ConfigError::UnavailableGateway {
                listener: "db".to_string(),
                gateway: "ws://north".to_string(),
            },
        ),
        (
            with_listener(&two, "gateway = \" \""),
            ConfigError::NoRoute { listener: "db".to_string() },
        ),
    ];
    for (config, error) in cases {
        assert_eq!(config.gateway_configs(), Err(error));
        assert!(config.server_urls().is_empty());
    }
}

#[test]
fn config_errors_have_their_texts() {
    let gateway = "g".to_string();
    let listener = "l".to_string();
    let cases = [
        (ConfigError::MissingToken, "legacy access config requires access.token"),
        (ConfigError::NoGateway, "access config requires at least one gateway"),
        (ConfigError::EmptyName, "gateway name must not be empty"),
        (
            ConfigError::EmptyServerUrl { gateway: gateway.clone() },
            "gateway 'g' server_url must not be empty",
        ),
        (
            ConfigError::EmptyToken { gateway: gateway.clone() },
            "gateway 'g' token must not be empty",
        ),
        (
            ConfigError::DuplicateName { gateway: gateway.clone() },
            "duplicate gateway name 'g'",
        ),
        (
            ConfigError::BothRoutes { listener: listener.clone() },
            "listener 'l' must not set both gateway and server_url",
        ),
        (
            ConfigError::UnavailableGateway { listener: listener.clone(), gateway },
            "listener 'l' references unavailable gateway 'g'",
        ),
        (
            ConfigError::NoRoute { listener },
            "listener 'l' must set gateway or server_url",
        ),
    ];
    for (error, text) in cases {
        assert_eq!(error.message(), text);
    }
}

#[test]
fn a_listener_describes_its_target() {
    let config = with_listener(
        "[access]\ntoken = \"t\"\nserver_url = \"ws://a\"",
        "scheme = \"https\"\naccept_invalid_certs = true\nrewrite_cookie = true",
    );
    let listener = &config.listeners[0];
    assert_eq!(listener.target_name(), "db");
    let target = listener.target_config();
    assert_eq!(target.mode, Mode::Tcp);
    assert_eq!(target.host, "10.0.0.10");
    assert_eq!(target.port, 3306);
    assert_eq!(target.scheme.as_deref(), Some("https"));
    assert!(target.accept_invalid_certs);
    assert!(!target.rewrite_location);
    assert!(target.rewrite_cookie);
}

#[test]
fn defaults_are_the_documented_ones() {
    assert_eq!(default_tunnel_path(), "/tunnel");
    assert_eq!(default_gateway_pool_size(), 8);
    assert_eq!(parse("[access]").access.gateway_pool_size, 8);
}
