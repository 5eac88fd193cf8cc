use ws_net::config::{
    AccessConfig, AccessGatewayConfig, AccessSection, ConfigError, ListenerConfig,
};
use ws_net::message::{HttpRequestHead, Message, Mode};
use ws_net::routing::{
    assemble_pools, check_listeners, connection_plan, current_listener, open_message,
    request_start_message, GatewayConnectionPool, GatewayConnections, PlannedPool, PoolError,
};

fn listener(name: &str, gateway: Option<&str>, server_url: Option<&str>) -> ListenerConfig {
    ListenerConfig {
        name: name.to_string(),
        mode: Mode::Tcp,
        gateway: gateway.map(str::to_string),
        server_url: server_url.map(str::to_string),
        listen: "127.0.0.1:1".to_string(),
        host: "host".to_string(),
        port: 1,
        scheme: None,
        local_scheme: None,
        auto_cert: false,
        accept_invalid_certs: false,
        rewrite_location: false,
        rewrite_cookie: false,
    }
}

fn gateway(name: &str) -> AccessGatewayConfig {
    AccessGatewayConfig {
        name: name.to_string(),
        server_url: format!("ws://{name}"),
        token: format!("{name}-token"),
    }
}

fn config(gateways: &[&str], listeners: Vec<ListenerConfig>) -> AccessConfig {
    AccessConfig {
        access: AccessSection {
            token: None,
            server_url: None,
            server_urls: Vec::new(),
            gateway_pool_size: 8,
        },
        gateways: gateways.iter().map(|name| gateway(name)).collect(),
        listeners,
    }
}

fn pools(names: &[&str], size: u32) -> GatewayConnections<u32> {
    let pools = names
        .iter()
        .map(|name| {
            GatewayConnectionPool::new(
                name.to_string(),
                format!("ws://{name}"),
                (0..size).collect(),
            )
            .unwrap()
        })
        .collect();
    GatewayConnections::new(pools).unwrap()
}

fn all_open(connections: &GatewayConnections<u32>) -> Vec<Vec<bool>> {
    connections.pools.iter().map(|pool| vec![true; pool.connections.len()]).collect()
}

#[test]
fn pools_and_connections_must_not_be_empty() {
    let error = GatewayConnectionPool::<u32>::new("n".to_string(), "ws://n".to_string(), Vec::new())
        .err()
        .unwrap();
    assert_eq!(error, PoolError::NoConnections { server_url: "ws://n".to_string() });
    assert_eq!(error.message(), "gateway pool 'ws://n' has no connections");
    let error = GatewayConnections::<u32>::new(Vec::new()).err().unwrap();
    assert_eq!(error, PoolError::NoPools);
    assert_eq!(error.message(), "no gateway connection pools available");
}

#[test]
fn listeners_reach_the_gateway_that_they_name() {
    let mut connections = pools(&["east", "west"], 2);
    let open = all_open(&connections);
    let cases = [
        (listener("l", Some(" west "), None), Ok(1)),
        (listener("l", None, Some("ws://east ")), Ok(0)),
        (
            listener("l", Some("north"), None),
            Err(ConfigError::UnavailableGateway {
                listener: "l".to_string(),
                gateway: "north".to_string(),
            }),
        ),
        (
            listener("l", None, Some("ws://north")),
            Err(ConfigError::UnavailableGateway {
                listener: "l".to_string(),
                gateway: "ws://north".to_string(),
            }),
        ),
        (
            listener("l", None, None),
            Err(ConfigError::NoRoute { listener: "l".to_string() }),
        ),
    ];
    for (listener, expected) in cases {
        let chosen = connections.for_listener(&listener, &None, &open).map(|chosen| chosen.0);
        assert_eq!(chosen, expected);
    }
    let first = connections.for_listener(&listener("a", Some("west"), None), &None, &open);
    let second = connections.for_listener(&listener("b", Some("west"), None), &None, &open);
    assert_eq!(first.unwrap().0, second.unwrap().0);
    let default = Some("ws://west".to_string());
    let chosen = connections.for_listener(&listener("l", None, None), &default, &open);
    assert_eq!(chosen.unwrap().0, 1);
    let default = Some("ws://gone".to_string());
    assert_eq!(
        connections.for_listener(&listener("l", None, None), &default, &open),
        Err(ConfigError::UnavailableGateway {
            listener: "l".to_string(),
            gateway: "ws://gone".to_string(),
        })
    );
}

#[test]
fn a_listener_need_not_name_the_only_gateway() {
    let mut connections = pools(&["only"], 1);
    let open = all_open(&connections);
    let chosen = connections.for_listener(&listener("l", Some(""), None), &None, &open);
    assert_eq!(chosen, Ok((0, 0)));
    let other = Some("ws://other".to_string());
    let chosen = connections.for_listener(&listener("l", None, None), &other, &open);
    assert_eq!(chosen, Ok((0, 0)));
}

#[test]
fn connections_are_used_in_turn() {
    let mut connections = pools(&["a", "b"], 3);
    let open = all_open(&connections);
    let a = listener("l", Some("a"), None);
    let b = listener("l", Some("b"), None);
    let mut order = Vec::new();
    for listener in [&a, &a, &b, &a, &a, &b] {
        order.push(connections.for_listener(listener, &None, &open).unwrap());
    }
    assert_eq!(order, vec![(0, 0), (0, 1), (1, 0), (0, 2), (0, 0), (1, 1)]);
}

#[test]
fn closed_connections_are_passed_over() {
    let mut pool =
        GatewayConnectionPool::new("n".to_string(), "u".to_string(), vec![0, 1, 2]).unwrap();
    assert_eq!(pool.next_connection(&vec![false, false, true]), 2);
    assert_eq!(pool.next_connection(&vec![true, false, true]), 2);
    assert_eq!(pool.next_connection(&vec![true, true, false]), 0);
    assert_eq!(pool.next_connection(&vec![false, false, false]), 0);
    assert_eq!(pool.next_connection(&vec![false, false, false]), 1);
    pool.next = usize::MAX;
    assert_eq!(pool.next_connection(&vec![true, true, true]), usize::MAX % 3);
    assert_eq!(pool.next, 0);
}

#[test]
fn every_gateway_gets_the_configured_number_of_connections() {
    let two = config(&["a", "b"], Vec::new());
    let plan = connection_plan(&two).unwrap();
    assert_eq!(
        plan,
        vec![
            PlannedPool { gateway: gateway("a"), connections: 8 },
            PlannedPool { gateway: gateway("b"), connections: 8 },
        ]
    );
    assert_eq!(plan.iter().map(|pool| pool.connections).sum::<usize>(), 16);

    let mut none = config(&["a"], Vec::new());
    none.access.gateway_pool_size = 0;
    assert_eq!(connection_plan(&none).unwrap()[0].connections, 1);

    assert_eq!(
        connection_plan(&config(&[], Vec::new())),
        Err(ConfigError::MissingToken)
    );
}

#[test]
fn running_listeners_take_their_current_settings() {
    let mut changed = listener("a", Some("west"), None);
    changed.port = 99;
    let listeners = vec![listener("b", None, None), changed];
    assert_eq!(current_listener(&listeners, &listener("a", None, None)).port, 99);
    let gone = listener("c", Some("east"), None);
    assert_eq!(
        current_listener(&listeners, &gone).gateway.as_deref(),
        Some("east")
    );
}

#[test]
fn a_new_configuration_must_serve_the_running_listeners() {
    let connections = pools(&["east", "west"], 1);
    let running = vec![listener("a", Some("east"), None), listener("b", Some("south"), None)];
    let moved = config(&["east", "west"], vec![listener("b", Some("west"), None)]);
    assert_eq!(check_listeners(&running, &moved, &connections), Ok(()));

    let dropped = config(&["east", "west"], Vec::new());
    let error = check_listeners(&running, &dropped, &connections).unwrap_err();
    assert_eq!(error.listener, "b");
    assert_eq!(
        error.error,
        ConfigError::UnavailableGateway {
            listener: "b".to_string(),
            gateway: "south".to_string(),
        }
    );
    assert_eq!(error.message(), "validate listener 'b' gateway");
}

#[test]
fn planned_pools_serve_every_listener_of_the_configuration() {
    let config = config(
        &["east", "west"],
        vec![listener("a", Some("west"), None), listener("b", None, Some("ws://east"))],
    );
    let plan = connection_plan(&config).unwrap();
    let made = plan.iter().map(|pool| vec![0_u32; pool.connections]).collect();
    let connections = assemble_pools(plan, made).unwrap();
    assert_eq!(connections.pools[1].name, "west");
    assert_eq!(connections.pools[1].server_url, "ws://west");
    assert_eq!(connections.pools[1].connections.len(), 8);
    assert_eq!(check_listeners(&config.listeners, &config, &connections), Ok(()));
    assert_eq!(connections.pool_for(&config.listeners[0], &None), Ok(1));
    assert_eq!(connections.pool_for(&config.listeners[1], &None), Ok(0));
}

#[test]
fn pools_are_assembled_from_what_was_made() {
    let plan = || connection_plan(&config(&["a", "b"], Vec::new())).unwrap();
    assert_eq!(
        assemble_pools(plan(), vec![vec![1], Vec::new()]).err(),
        Some(PoolError::NoConnections { server_url: "ws://b".to_string() })
    );
    assert_eq!(
        assemble_pools::<u32>(plan(), vec![Vec::new(), Vec::new()]).err(),
        Some(PoolError::NoConnections { server_url: "ws://a".to_string() })
    );
    assert_eq!(
        assemble_pools::<u32>(Vec::new(), Vec::new()).err(),
        Some(PoolError::NoPools)
    );
    let assembled = assemble_pools(plan(), vec![vec![1], vec![2, 3]]).unwrap();
    assert_eq!(assembled.pools[0].connections, vec![1]);
    assert_eq!(assembled.pools[1].connections, vec![2, 3]);
    assert!(assembled.pools.iter().all(|pool| pool.next == 0));
}

#[test]
fn streams_go_to_the_target_that_is_configured_now() {
    let running = listener("web", None, None);
    let mut reloaded = listener("web", None, None);
    reloaded.host = "moved".to_string();
    reloaded.port = 99;
    let listeners = vec![listener("other", None, None), reloaded];

    let Message::Open { stream_id: 3, target, config } = open_message(3, &listeners, &running)
    else {
        panic!("expected an open message");
    };
    assert_eq!((target.as_str(), config.host.as_str(), config.port), ("web", "moved", 99));

    let head = HttpRequestHead {
        method: "GET".to_string(),
        path_and_query: "/".to_string(),
        headers: Vec::new(),
    };
    let Message::HttpRequestStart { stream_id: 4, target, config, request } =
        request_start_message(4, &Vec::new(), &running, head)
    else {
        panic!("expected a request");
    };
    assert_eq!((target.as_str(), config.host.as_str(), config.port), ("web", "host", 1));
    assert_eq!((request.method.as_str(), request.path_and_query.as_str()), ("GET", "/"));
}
