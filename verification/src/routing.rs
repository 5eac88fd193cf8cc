//! Which tunnel connection a listener uses.

use crate::config;
use crate::config::{AccessConfig, AccessGatewayConfig, ConfigError, ListenerConfig};
use crate::message::{HttpRequestHead, Message, StreamId};
use crate::text;
use vstd::prelude::*;

verus! {

/// Why there are no connections to choose from.
#[derive(Debug, PartialEq, Eq)]
pub enum PoolError {
    NoPools,
    NoConnections { server_url: String },
}

impl PoolError {
    /// The text of an error.
    pub open spec fn text(self) -> Seq<char> {
        match self {
            PoolError::NoPools => "no gateway connection pools available"@,
            PoolError::NoConnections { server_url } => {
                "gateway pool '"@ + server_url@ + "' has no connections"@
            },
        }
    }

    /// The text of an error.
    pub fn message(&self) -> (result: String)
        ensures
            result@ == self.text(),
    {
        match self {
            PoolError::NoPools => "no gateway connection pools available".to_owned(),
            PoolError::NoConnections { server_url } => {
                let mut result = "gateway pool '".to_owned();
                result.append(server_url.as_str());
                result.append("' has no connections");
                result
            },
        }
    }
}

/// The connections to one gateway, used in turn.
pub struct GatewayConnectionPool<C> {
    pub name: String,
    pub server_url: String,
    pub connections: Vec<C>,
    /// Whose turn it is: the connection at this number modulo the number of connections.
    pub next: usize,
}

/// The connections to all gateways.
pub struct GatewayConnections<C> {
    pub pools: Vec<GatewayConnectionPool<C>>,
}

/// The position that is `offset` steps from the cursor, going round `count` positions.
pub open spec fn place(cursor: int, offset: int, count: nat) -> int {
    (cursor + offset) % (count as int)
}

/// Whether `chosen` is the connection whose turn it is: the first open one from the cursor
/// on, going round, or the one at the cursor where none is open.
pub open spec fn is_turn(cursor: int, open: Seq<bool>, chosen: int) -> bool {
    ||| exists|offset: int|
        {
            &&& 0 <= offset < open.len()
            &&& chosen == #[trigger] place(cursor, offset, open.len())
            &&& open[chosen]
            &&& forall|earlier: int|
                0 <= earlier < offset ==> !open[#[trigger] place(cursor, earlier, open.len())]
        }
    ||| {
        &&& chosen == place(cursor, 0, open.len())
        &&& forall|i: int| 0 <= i < open.len() ==> !open[i]
    }
}

/// Going round from the cursor reaches every connection.
proof fn lemma_goes_round(cursor: int, n: nat, i: int) -> (offset: int)
    requires
        0 <= i < n,
    ensures
        0 <= offset < n,
        place(cursor, offset, n) == i,
{
    let offset = (i - cursor) % (n as int);
    vstd::arithmetic::div_mod::lemma_mod_bound(i - cursor, n as int);
    vstd::arithmetic::div_mod::lemma_add_mod_noop_right(cursor, i - cursor, n as int);
    vstd::arithmetic::div_mod::lemma_small_mod(i as nat, n);
    offset
}

impl<C> GatewayConnectionPool<C> {
    /// A pool of at least one connection.
    pub fn new(name: String, server_url: String, connections: Vec<C>) -> (result: Result<
        Self,
        PoolError,
    >)
        ensures
            match result {
                Ok(pool) => {
                    &&& connections@.len() > 0
                    &&& pool.name == name
                    &&& pool.server_url == server_url
                    &&& pool.connections == connections
                    &&& pool.next == 0
                },
                Err(error) => connections@.len() == 0 && error == (PoolError::NoConnections {
                    server_url,
                }),
            },
    {
        if connections.len() == 0 {
            return Err(PoolError::NoConnections { server_url });
        }
        Ok(GatewayConnectionPool { name, server_url, connections, next: 0 })
    }

    /// The position of the connection whose turn it is, of those that are open; the turn
    /// then passes on.
    pub fn next_connection(&mut self, open: &Vec<bool>) -> (chosen: usize)
        requires
            old(self).connections@.len() > 0,
            open@.len() == old(self).connections@.len(),
        ensures
            chosen < old(self).connections@.len(),
            is_turn(old(self).next as int, open@, chosen as int),
            final(self).next == old(self).next.wrapping_add(1),
            final(self).name == old(self).name,
            final(self).server_url == old(self).server_url,
            final(self).connections == old(self).connections,
    {
        let start: usize = self.next;
        let count: usize = open.len();
        self.next = start.wrapping_add(1);
        let first: usize = start % count;
        let mut offset: usize = 0;
        while offset < count
            invariant
                offset <= count,
                count == open@.len(),
                count > 0,
                first == start % count,
                count == self.connections@.len(),
                self.connections == old(self).connections,
                self.name == old(self).name,
                self.server_url == old(self).server_url,
                self.next == old(self).next.wrapping_add(1),
                start == old(self).next,
                forall|earlier: int|
                    0 <= earlier < offset ==> !open@[#[trigger] place(
                        start as int,
                        earlier,
                        count as nat,
                    )],
            decreases count - offset,
        {
            let chosen: usize = if offset < count - first {
                first + offset
            } else {
                offset - (count - first)
            };
            proof {
                assert(chosen as int == (start + offset) % (count as int)) by (nonlinear_arith)
                    requires
                        count > 0,
                        first == start % count,
                        0 <= offset < count,
                        chosen == if offset < count - first {
                            first + offset
                        } else {
                            offset - (count - first)
                        },
                ;
                assert(place(start as int, offset as int, count as nat) == chosen);
            }
            if open[chosen] {
                return chosen;
            }
            offset = offset + 1;
        }
        proof {
            assert forall|i: int| 0 <= i < open@.len() implies !open@[i] by {
                let o = lemma_goes_round(start as int, count as nat, i);
                assert(!open@[place(start as int, o, count as nat)]);
            }
        }
        first
    }
}

/// Where all connections are open, they are used in turn.
pub proof fn law_round_robin(cursor: int, open: Seq<bool>, chosen: int)
    requires
        open.len() > 0,
        forall|i: int| 0 <= i < open.len() ==> open[i],
        is_turn(cursor, open, chosen),
    ensures
        chosen == place(cursor, 0, open.len()),
{
    assert(open[place(cursor, 0, open.len())]);
    assert(!(forall|i: int| 0 <= i < open.len() ==> !open[i])) by {
        assert(open[0]);
    }
}

/// A closed connection is chosen only where all are closed.
pub proof fn law_open_preferred(cursor: int, open: Seq<bool>, chosen: int, i: int)
    requires
        is_turn(cursor, open, chosen),
        0 <= i < open.len(),
        open[i],
    ensures
        open[chosen],
{
}

/// The names of the gateways that the pools belong to.
pub open spec fn pool_names<C>(pools: Seq<GatewayConnectionPool<C>>) -> Seq<Seq<char>> {
    pools.map_values(|pool: GatewayConnectionPool<C>| pool.name@)
}

/// The addresses of the gateways that the pools belong to.
pub open spec fn pool_urls<C>(pools: Seq<GatewayConnectionPool<C>>) -> Seq<Seq<char>> {
    pools.map_values(|pool: GatewayConnectionPool<C>| pool.server_url@)
}

impl<C> GatewayConnections<C> {
    /// The connections of at least one pool.
    pub fn new(pools: Vec<GatewayConnectionPool<C>>) -> (result: Result<Self, PoolError>)
        ensures
            match result {
                Ok(connections) => pools@.len() > 0 && connections.pools == pools,
                Err(error) => pools@.len() == 0 && error == PoolError::NoPools,
            },
    {
        if pools.len() == 0 {
            return Err(PoolError::NoPools);
        }
        Ok(GatewayConnections { pools })
    }

    /// The first pool of the gateway with the given name.
    fn pool_named(&self, name: &String) -> (result: Option<usize>)
        ensures
            match result {
                Some(i) => text::first_position(pool_names(self.pools@), name@) == Some(i as int),
                None => text::first_position(pool_names(self.pools@), name@) is None,
            },
    {
        let ghost names = pool_names(self.pools@);
        let mut i: usize = 0;
        while i < self.pools.len()
            invariant
                i <= self.pools@.len(),
                names == pool_names(self.pools@),
                forall|j: int| 0 <= j < i ==> names[j] != name@,
            decreases self.pools.len() - i,
        {
            if self.pools[i].name == *name {
                proof {
                    text::lemma_is_first_position(names, name@, i as int);
                }
                return Some(i);
            }
            i = i + 1;
        }
        proof {
            text::lemma_first_position(names, name@);
        }
        None
    }

    /// The first pool of the gateway at the given address.
    fn pool_at(&self, url: &String) -> (result: Option<usize>)
        ensures
            match result {
                Some(i) => text::first_position(pool_urls(self.pools@), url@) == Some(i as int),
                None => text::first_position(pool_urls(self.pools@), url@) is None,
            },
    {
        let ghost urls = pool_urls(self.pools@);
        let mut i: usize = 0;
        while i < self.pools.len()
            invariant
                i <= self.pools@.len(),
                urls == pool_urls(self.pools@),
                forall|j: int| 0 <= j < i ==> urls[j] != url@,
            decreases self.pools.len() - i,
        {
            if self.pools[i].server_url == *url {
                proof {
                    text::lemma_is_first_position(urls, url@, i as int);
                }
                return Some(i);
            }
            i = i + 1;
        }
        proof {
            text::lemma_first_position(urls, url@);
        }
        None
    }

    /// The position of the pool that a listener uses.
    pub fn pool_for(&self, listener: &ListenerConfig, default_server_url: &Option<String>) -> (result:
        Result<usize, ConfigError>)
        ensures
            match result {
                Ok(i) => i < self.pools@.len() && config::route_of(
                    *listener,
                    pool_names(self.pools@),
                    pool_urls(self.pools@),
                    config::optional_text(*default_server_url),
                ) == Ok::<int, config::ConfigFault>(i as int),
                Err(error) => config::route_of(
                    *listener,
                    pool_names(self.pools@),
                    pool_urls(self.pools@),
                    config::optional_text(*default_server_url),
                ) == Err::<int, config::ConfigFault>(error@),
            },
    {
        match text::set_value(&listener.gateway) {
            Some(name) => {
                proof {
                    text::lemma_first_position(pool_names(self.pools@), name@);
                }
                return match self.pool_named(&name) {
                    Some(i) => Ok(i),
                    None => Err(
                        ConfigError::UnavailableGateway {
                            listener: listener.name.clone(),
                            gateway: name,
                        },
                    ),
                };
            },
            None => {},
        }
        let url = match text::set_value(&listener.server_url) {
            Some(url) => url,
            None => {
                if self.pools.len() == 1 {
                    return Ok(0);
                }
                match default_server_url {
                    Some(url) => url.clone(),
                    None => {
                        return Err(ConfigError::NoRoute { listener: listener.name.clone() });
                    },
                }
            },
        };
        proof {
            text::lemma_first_position(pool_urls(self.pools@), url@);
        }
        match self.pool_at(&url) {
            Some(i) => Ok(i),
            None => Err(
                ConfigError::UnavailableGateway { listener: listener.name.clone(), gateway: url },
            ),
        }
    }

    /// The position of the pool that a listener uses, and in it that of the connection
    /// whose turn it is. `open` says of each pool's connections which ones are open.
    pub fn for_listener(
        &mut self,
        listener: &ListenerConfig,
        default_server_url: &Option<String>,
        open: &Vec<Vec<bool>>,
    ) -> (result: Result<(usize, usize), ConfigError>)
        requires
            open@.len() == old(self).pools@.len(),
            forall|i: int|
                0 <= i < open@.len() ==> open@[i]@.len() == (
                #[trigger] old(self).pools@[i]).connections@.len() && open@[i]@.len() > 0,
        ensures
            pool_names(final(self).pools@) == pool_names(old(self).pools@),
            pool_urls(final(self).pools@) == pool_urls(old(self).pools@),
            match result {
                Ok(chosen) => {
                    let i = chosen.0 as int;
                    &&& config::route_of(
                        *listener,
                        pool_names(old(self).pools@),
                        pool_urls(old(self).pools@),
                        config::optional_text(*default_server_url),
                    ) == Ok::<int, config::ConfigFault>(i)
                    &&& 0 <= i < old(self).pools@.len()
                    &&& chosen.1 < old(self).pools@[i].connections@.len()
                    &&& is_turn(
                        old(self).pools@[i].next as int,
                        open@[i]@,
                        chosen.1 as int,
                    )
                    &&& final(self).pools@.len() == old(self).pools@.len()
                    &&& final(self).pools@[i].next == old(self).pools@[i].next.wrapping_add(1)
                    &&& final(self).pools@[i].connections == old(self).pools@[i].connections
                    &&& forall|j: int|
                        0 <= j < old(self).pools@.len() && j != i ==> final(self).pools@[j] == old(
                            self,
                        ).pools@[j]
                },
                Err(error) => {
                    &&& config::route_of(
                        *listener,
                        pool_names(old(self).pools@),
                        pool_urls(old(self).pools@),
                        config::optional_text(*default_server_url),
                    ) == Err::<int, config::ConfigFault>(error@)
                    &&& *final(self) == *old(self)
                },
            },
    {
        match self.pool_for(listener, default_server_url) {
            Err(error) => Err(error),
            Ok(i) => {
                let ghost before = self.pools@;
                assert(before[i as int].connections@.len() > 0);
                let connection: usize = self.pools[i].next_connection(&open[i]);
                proof {
                    assert(pool_names(self.pools@) =~= pool_names(before));
                    assert(pool_urls(self.pools@) =~= pool_urls(before));
                }
                Ok((i, connection))
            },
        }
    }
}

/// One gateway and how many connections to keep to it.
#[derive(Debug, PartialEq, Eq)]
pub struct PlannedPool {
    pub gateway: AccessGatewayConfig,
    pub connections: usize,
}

/// How many connections a configuration asks for with each gateway: at least one.
pub open spec fn pool_size(config: AccessConfig) -> usize {
    if config.access.gateway_pool_size == 0 {
        1
    } else {
        config.access.gateway_pool_size
    }
}

/// The gateways of a plan.
pub open spec fn planned_routes(plan: Seq<PlannedPool>) -> Seq<config::GatewayRoute> {
    plan.map_values(|pool: PlannedPool| pool.gateway@)
}

/// How many connections a plan has in all.
pub open spec fn planned_connections(plan: Seq<PlannedPool>) -> nat
    decreases plan.len(),
{
    if plan.len() == 0 {
        0
    } else {
        planned_connections(plan.drop_last()) + plan.last().connections as nat
    }
}

/// The connections to make for a configuration: to each of its gateways the configured
/// number.
pub fn connection_plan(config: &AccessConfig) -> (result: Result<Vec<PlannedPool>, ConfigError>)
    ensures
        match result {
            Ok(plan) => {
                &&& config::resolved(*config) == Ok::<
                    Seq<config::GatewayRoute>,
                    config::ConfigFault,
                >(planned_routes(plan@))
                &&& forall|i: int|
                    0 <= i < plan@.len() ==> (#[trigger] plan@[i]).connections == pool_size(
                        *config,
                    )
                &&& planned_connections(plan@) == plan@.len() * pool_size(*config)
            },
            Err(error) => config::resolved(*config) == Err::<
                Seq<config::GatewayRoute>,
                config::ConfigFault,
            >(error@),
        },
{
    match config.gateway_configs() {
        Err(error) => Err(error),
        Ok(gateways) => {
            let size: usize = if config.access.gateway_pool_size == 0 {
                1
            } else {
                config.access.gateway_pool_size
            };
            let ghost all = config::routes(gateways@);
            let mut plan: Vec<PlannedPool> = Vec::new();
            let mut i: usize = 0;
            while i < gateways.len()
                invariant
                    i <= gateways@.len(),
                    all == config::routes(gateways@),
                    size == pool_size(*config),
                    planned_routes(plan@) == all.take(i as int),
                    plan@.len() == i,
                    forall|j: int| 0 <= j < i ==> (#[trigger] plan@[j]).connections == size,
                    planned_connections(plan@) == i * size,
                decreases gateways.len() - i,
            {
                let pool = PlannedPool { gateway: gateways[i].clone(), connections: size };
                let ghost before = plan@;
                plan.push(pool);
                proof {
                    assert(plan@.drop_last() =~= before);
                    assert(planned_routes(plan@) =~= planned_routes(before).push(pool.gateway@));
                    assert(all.take(i + 1) =~= all.take(i as int).push(all[i as int]));
                    assert((i + 1) * size == i * size + size) by (nonlinear_arith);
                }
                i = i + 1;
            }
            assert(all.take(i as int) =~= all);
            Ok(plan)
        },
    }
}

/// The pools of a plan, each with the connections that were made for it. Where there is a
/// pool without connections, the error names the first.
pub fn assemble_pools<C>(plan: Vec<PlannedPool>, connections: Vec<Vec<C>>) -> (result: Result<
    GatewayConnections<C>,
    PoolError,
>)
    requires
        plan@.len() == connections@.len(),
    ensures
        match result {
            Ok(assembled) => {
                &&& plan@.len() > 0
                &&& assembled.pools@.len() == plan@.len()
                &&& pool_names(assembled.pools@) == config::names(planned_routes(plan@))
                &&& pool_urls(assembled.pools@) == config::addresses(planned_routes(plan@))
                &&& forall|i: int|
                    0 <= i < plan@.len() ==> (#[trigger] assembled.pools@[i]).connections
                        == connections@[i] && connections@[i]@.len() > 0
                        && assembled.pools@[i].next == 0
            },
            Err(PoolError::NoPools) => plan@.len() == 0,
            Err(PoolError::NoConnections { server_url }) => exists|i: int|
                {
                    &&& 0 <= i < plan@.len()
                    &&& (#[trigger] connections@[i])@.len() == 0
                    &&& server_url == plan@[i].gateway.server_url
                    &&& forall|j: int| 0 <= j < i ==> (#[trigger] connections@[j])@.len() > 0
                },
        },
{
    let ghost names = config::names(planned_routes(plan@));
    let ghost urls = config::addresses(planned_routes(plan@));
    let count: usize = plan.len();
    let mut plan_left = plan;
    let mut connections_left = connections;
    let mut pools: Vec<GatewayConnectionPool<C>> = Vec::new();
    let mut i: usize = 0;
    while i < count
        invariant
            i <= count,
            count == plan@.len(),
            plan@.len() == connections@.len(),
            names == config::names(planned_routes(plan@)),
            urls == config::addresses(planned_routes(plan@)),
            plan_left@ == plan@.skip(i as int),
            connections_left@ == connections@.skip(i as int),
            pools@.len() == i,
            pool_names(pools@) == names.take(i as int),
            pool_urls(pools@) == urls.take(i as int),
            forall|j: int|
                0 <= j < i ==> (#[trigger] pools@[j]).connections == connections@[j]
                    && pools@[j].next == 0,
            forall|j: int| 0 <= j < i ==> (#[trigger] connections@[j])@.len() > 0,
        decreases count - i,
    {
        let planned = plan_left.remove(0);
        let made = connections_left.remove(0);
        let ghost before = pools@;
        proof {
            assert(planned == plan@[i as int]);
            assert(made == connections@[i as int]);
            assert(plan_left@ =~= plan@.skip(i + 1));
            assert(connections_left@ =~= connections@.skip(i + 1));
        }
        match GatewayConnectionPool::new(planned.gateway.name, planned.gateway.server_url, made) {
            Ok(pool) => {
                pools.push(pool);
                proof {
                    assert(pool_names(pools@) =~= pool_names(before).push(pool.name@));
                    assert(pool_urls(pools@) =~= pool_urls(before).push(pool.server_url@));
                    assert(names.take(i + 1) =~= names.take(i as int).push(names[i as int]));
                    assert(urls.take(i + 1) =~= urls.take(i as int).push(urls[i as int]));
                }
            },
            Err(error) => {
                assert(connections@[i as int]@.len() == 0);
                return Err(error);
            },
        }
        i = i + 1;
    }
    proof {
        assert(names.take(i as int) =~= names);
        assert(urls.take(i as int) =~= urls);
    }
    GatewayConnections::new(pools)
}

/// The position of the listener with the given name.
pub open spec fn listener_position(listeners: Seq<ListenerConfig>, name: Seq<char>) -> Option<int> {
    text::first_position(listeners.map_values(|listener: ListenerConfig| listener.name@), name)
}

/// What is now configured for a listener that is running: the settings under its name,
/// or those that it was started with where the name is gone.
pub open spec fn current_of(
    listeners: Seq<ListenerConfig>,
    fallback: ListenerConfig,
) -> ListenerConfig {
    match listener_position(listeners, fallback.name@) {
        Some(i) => listeners[i],
        None => fallback,
    }
}

/// What is now configured for a listener that is running.
pub fn current_listener(
    listeners: &Vec<ListenerConfig>,
    fallback: &ListenerConfig,
) -> (result: ListenerConfig)
    ensures
        result == current_of(listeners@, *fallback),
{
    let ghost names = listeners@.map_values(|listener: ListenerConfig| listener.name@);
    let mut i: usize = 0;
    while i < listeners.len()
        invariant
            i <= listeners@.len(),
            names == listeners@.map_values(|listener: ListenerConfig| listener.name@),
            forall|j: int| 0 <= j < i ==> names[j] != fallback.name@,
        decreases listeners.len() - i,
    {
        if listeners[i].name == fallback.name {
            proof {
                text::lemma_is_first_position(names, fallback.name@, i as int);
            }
            return listeners[i].clone();
        }
        i = i + 1;
    }
    proof {
        text::lemma_first_position(names, fallback.name@);
    }
    fallback.clone()
}

/// Which listener has no gateway in a new configuration, and why.
#[derive(Debug, PartialEq, Eq)]
pub struct ListenerError {
    pub listener: String,
    pub error: ConfigError,
}

impl ListenerError {
    /// The text of an error.
    pub fn message(&self) -> (result: String)
        ensures
            result@ == "validate listener '"@ + self.listener@ + "' gateway"@,
    {
        let mut result = "validate listener '".to_owned();
        result.append(self.listener.as_str());
        result.append("' gateway");
        result
    }
}

/// Where a listener that is running leads under a new configuration.
pub open spec fn reloaded_route<C>(
    running: ListenerConfig,
    config: AccessConfig,
    pools: Seq<GatewayConnectionPool<C>>,
) -> Result<int, config::ConfigFault> {
    config::route_of(
        current_of(config.listeners@, running),
        pool_names(pools),
        pool_urls(pools),
        text::set_text(config.access.server_url),
    )
}

/// The message that opens a TCP stream to the target of a listener that is running, as it is
/// configured now.
pub fn open_message(
    stream_id: StreamId,
    listeners: &Vec<ListenerConfig>,
    running: &ListenerConfig,
) -> (message: Message)
    ensures
        message == (Message::Open {
            stream_id,
            target: current_of(listeners@, *running).name,
            config: current_of(listeners@, *running).target(),
        }),
{
    let listener = current_listener(listeners, running);
    Message::Open {
        stream_id,
        target: listener.target_name(),
        config: listener.target_config(),
    }
}

/// The message that starts a request to the target of a listener that is running, as it is
/// configured now.
pub fn request_start_message(
    stream_id: StreamId,
    listeners: &Vec<ListenerConfig>,
    running: &ListenerConfig,
    request: HttpRequestHead,
) -> (message: Message)
    ensures
        message == (Message::HttpRequestStart {
            stream_id,
            target: current_of(listeners@, *running).name,
            config: current_of(listeners@, *running).target(),
            request,
        }),
{
    let listener = current_listener(listeners, running);
    Message::HttpRequestStart {
        stream_id,
        target: listener.target_name(),
        config: listener.target_config(),
        request,
    }
}

/// Whether all listeners that are running have a gateway under a new configuration; if
/// not, the first one that has none.
pub fn check_listeners<C>(
    running: &Vec<ListenerConfig>,
    config: &AccessConfig,
    connections: &GatewayConnections<C>,
) -> (result: Result<(), ListenerError>)
    ensures
        match result {
            Ok(_) => forall|i: int|
                0 <= i < running@.len() ==> reloaded_route(
                    #[trigger] running@[i],
                    *config,
                    connections.pools@,
                ) is Ok,
            Err(error) => exists|i: int|
                {
                    &&& 0 <= i < running@.len()
                    &&& error.listener == running@[i].name
                    &&& reloaded_route(#[trigger] running@[i], *config, connections.pools@)
                        == Err::<int, config::ConfigFault>(error.error@)
                    &&& forall|j: int|
                        0 <= j < i ==> reloaded_route(
                            #[trigger] running@[j],
                            *config,
                            connections.pools@,
                        ) is Ok
                },
        },
{
    let default_url = config::default_server_url(config);
    let mut i: usize = 0;
    while i < running.len()
        invariant
            i <= running@.len(),
            config::optional_text(default_url) == text::set_text(config.access.server_url),
            forall|j: int|
                0 <= j < i ==> reloaded_route(
                    #[trigger] running@[j],
                    *config,
                    connections.pools@,
                ) is Ok,
        decreases running.len() - i,
    {
        let listener = current_listener(&config.listeners, &running[i]);
        match connections.pool_for(&listener, &default_url) {
            Ok(_) => {},
            Err(error) => {
                assert(reloaded_route(running@[i as int], *config, connections.pools@) == Err::<
                    int,
                    config::ConfigFault,
                >(error@));
                return Err(ListenerError { listener: running[i].name.clone(), error });
            },
        }
        i = i + 1;
    }
    Ok(())
}

/// Pools that were made from a plan have a gateway for every listener of the configuration.
pub proof fn law_planned_pools_serve_listeners<C>(
    config: AccessConfig,
    plan: Seq<PlannedPool>,
    pools: Seq<GatewayConnectionPool<C>>,
    i: int,
)
    requires
        config::resolved(config) == Ok::<Seq<config::GatewayRoute>, config::ConfigFault>(
            planned_routes(plan),
        ),
        pool_names(pools) == config::names(planned_routes(plan)),
        pool_urls(pools) == config::addresses(planned_routes(plan)),
        0 <= i < config.listeners@.len(),
    ensures
        config::route_of(
            config.listeners@[i],
            pool_names(pools),
            pool_urls(pools),
            text::set_text(config.access.server_url),
        ) matches Ok(k) && 0 <= k < pools.len(),
{
    config::law_listeners_routed(config, i);
    assert(pool_names(pools).len() == pools.len());
}

/// Whether `k` is the first pool of the gateway with the given name.
pub open spec fn is_pool_named<C>(
    pools: Seq<GatewayConnectionPool<C>>,
    name: Seq<char>,
    k: int,
) -> bool {
    &&& 0 <= k < pools.len()
    &&& pools[k].name@ == name
    &&& forall|j: int| 0 <= j < k ==> (#[trigger] pools[j]).name@ != name
}

/// Whether `k` is the first pool of the gateway at the given address.
pub open spec fn is_pool_at<C>(
    pools: Seq<GatewayConnectionPool<C>>,
    url: Seq<char>,
    k: int,
) -> bool {
    &&& 0 <= k < pools.len()
    &&& pools[k].server_url@ == url
    &&& forall|j: int| 0 <= j < k ==> (#[trigger] pools[j]).server_url@ != url
}

proof fn lemma_first_pool<C>(pools: Seq<GatewayConnectionPool<C>>, item: Seq<char>)
    ensures
        match text::first_position(pool_names(pools), item) {
            Some(k) => is_pool_named(pools, item, k),
            None => forall|j: int| 0 <= j < pools.len() ==> (#[trigger] pools[j]).name@ != item,
        },
        match text::first_position(pool_urls(pools), item) {
            Some(k) => is_pool_at(pools, item, k),
            None => forall|j: int| 0 <= j < pools.len() ==> (#[trigger] pools[j]).server_url@
                != item,
        },
{
    let names = pool_names(pools);
    let urls = pool_urls(pools);
    text::lemma_first_position(names, item);
    text::lemma_first_position(urls, item);
    assert forall|j: int| 0 <= j < pools.len() implies names[j] == (#[trigger] pools[j]).name@
        && urls[j] == pools[j].server_url@ by {}
}

/// A listener that names a gateway uses the first pool of the gateway with that name, and is
/// refused with that name exactly where there is none.
pub proof fn law_listener_uses_named_gateway<C>(
    connections: &GatewayConnections<C>,
    listener: &ListenerConfig,
    default_server_url: &Option<String>,
    result: Result<usize, ConfigError>,
)
    requires
        call_ensures(
            GatewayConnections::<C>::pool_for,
            (connections, listener, default_server_url),
            result,
        ),
        text::set_text(listener.gateway) is Some,
    ensures
        ({
            let name = text::set_text(listener.gateway)->0;
            match result {
                Ok(k) => is_pool_named(connections.pools@, name, k as int),
                Err(error) => {
                    &&& forall|j: int|
                        0 <= j < connections.pools@.len() ==> (
                        #[trigger] connections.pools@[j]).name@ != name
                    &&& error matches ConfigError::UnavailableGateway {
                        listener: refused,
                        gateway,
                    } && refused@ == listener.name@ && gateway@ == name
                },
            }
        }),
{
    lemma_first_pool(connections.pools@, text::set_text(listener.gateway)->0);
}

/// A listener that names no gateway but gives an address uses the first pool of the gateway at
/// that address, and is refused with that address exactly where there is none.
pub proof fn law_listener_uses_its_address<C>(
    connections: &GatewayConnections<C>,
    listener: &ListenerConfig,
    default_server_url: &Option<String>,
    result: Result<usize, ConfigError>,
)
    requires
        call_ensures(
            GatewayConnections::<C>::pool_for,
            (connections, listener, default_server_url),
            result,
        ),
        text::set_text(listener.gateway) is None,
        text::set_text(listener.server_url) is Some,
    ensures
        ({
            let url = text::set_text(listener.server_url)->0;
            match result {
                Ok(k) => is_pool_at(connections.pools@, url, k as int),
                Err(error) => {
                    &&& forall|j: int|
                        0 <= j < connections.pools@.len() ==> (
                        #[trigger] connections.pools@[j]).server_url@ != url
                    &&& error matches ConfigError::UnavailableGateway {
                        listener: refused,
                        gateway,
                    } && refused@ == listener.name@ && gateway@ == url
                },
            }
        }),
{
    lemma_first_pool(connections.pools@, text::set_text(listener.server_url)->0);
}

/// A listener that says nothing of a gateway uses the only pool there is; where there are
/// several, the first one at the default address, and it is refused where there is none there
/// or no default.
pub proof fn law_listener_without_gateway<C>(
    connections: &GatewayConnections<C>,
    listener: &ListenerConfig,
    default_server_url: &Option<String>,
    result: Result<usize, ConfigError>,
)
    requires
        call_ensures(
            GatewayConnections::<C>::pool_for,
            (connections, listener, default_server_url),
            result,
        ),
        text::set_text(listener.gateway) is None,
        text::set_text(listener.server_url) is None,
    ensures
        connections.pools@.len() == 1 ==> (result matches Ok(k) && k == 0),
        connections.pools@.len() != 1 ==> match *default_server_url {
            None => result matches Err(ConfigError::NoRoute { listener: refused }) && refused@
                == listener.name@,
            Some(url) => match result {
                Ok(k) => is_pool_at(connections.pools@, url@, k as int),
                Err(error) => {
                    &&& forall|j: int|
                        0 <= j < connections.pools@.len() ==> (
                        #[trigger] connections.pools@[j]).server_url@ != url@
                    &&& error matches ConfigError::UnavailableGateway {
                        listener: refused,
                        gateway,
                    } && refused@ == listener.name@ && gateway@ == url@
                },
            },
        },
{
    match *default_server_url {
        Some(url) => {
            lemma_first_pool(connections.pools@, url@);
        },
        None => {},
    }
}

/// Using a connection takes one of the pool that the listener is routed to: of the open ones
/// there the one that comes up soonest from the turn on. Only the turn of that pool passes on.
pub proof fn law_listener_uses_its_pool<C>(
    connections: &mut GatewayConnections<C>,
    before: &GatewayConnections<C>,
    listener: &ListenerConfig,
    default_server_url: &Option<String>,
    open: &Vec<Vec<bool>>,
    result: Result<(usize, usize), ConfigError>,
    routed: Result<usize, ConfigError>,
)
    requires
        *before == *old(connections),
        open@.len() == before.pools@.len(),
        forall|i: int|
            0 <= i < open@.len() ==> open@[i]@.len() == (
            #[trigger] before.pools@[i]).connections@.len() && open@[i]@.len() > 0,
        call_ensures(
            GatewayConnections::<C>::for_listener,
            (connections, listener, default_server_url, open),
            result,
        ),
        call_ensures(
            GatewayConnections::<C>::pool_for,
            (before, listener, default_server_url),
            routed,
        ),
    ensures
        result is Ok <==> routed is Ok,
        result matches Err(error) ==> error@ == routed->Err_0@ && *final(connections)
            == *old(connections),
        result matches Ok(chosen) ==> {
            &&& chosen.0 == routed->Ok_0
            &&& chosen.1 < before.pools@[chosen.0 as int].connections@.len()
            &&& open@[chosen.0 as int]@[chosen.1 as int] || forall|k: int|
                0 <= k < open@[chosen.0 as int]@.len() ==> !open@[chosen.0 as int]@[k]
            &&& forall|k: int|
                0 <= k < open@[chosen.0 as int]@.len() && comes_sooner(
                    before.pools@[chosen.0 as int].next as int,
                    open@[chosen.0 as int]@.len() as int,
                    k,
                    chosen.1 as int,
                ) ==> !#[trigger] open@[chosen.0 as int]@[k]
            &&& final(connections).pools@[chosen.0 as int].connections
                == before.pools@[chosen.0 as int].connections
            &&& final(connections).pools@.len() == before.pools@.len()
            &&& final(connections).pools@[chosen.0 as int].next
                == before.pools@[chosen.0 as int].next.wrapping_add(1)
            &&& forall|j: int|
                0 <= j < before.pools@.len() && j != chosen.0 ==> final(connections).pools@[j]
                    == before.pools@[j]
        },
{
    match result {
        Ok(chosen) => {
            let i = chosen.0 as int;
            assert(before.pools@[i].connections@.len() > 0);
            lemma_turn(before.pools@[i].next as int, open@[i]@, chosen.1 as int);
        },
        Err(_) => {},
    }
}

/// Of two connections, `a` comes up sooner than `b` when one starts at `cursor` and goes
/// round.
pub open spec fn comes_sooner(cursor: int, count: int, a: int, b: int) -> bool {
    (a - cursor) % count < (b - cursor) % count
}

proof fn lemma_turn(cursor: int, open: Seq<bool>, chosen: int)
    requires
        open.len() > 0,
        is_turn(cursor, open, chosen),
    ensures
        0 <= chosen < open.len(),
        open[chosen] || forall|i: int| 0 <= i < open.len() ==> !open[i],
        !open[chosen] ==> chosen == cursor % (open.len() as int),
        forall|i: int|
            0 <= i < open.len() && comes_sooner(cursor, open.len() as int, i, chosen)
                ==> !#[trigger] open[i],
{
    let n = open.len() as int;
    vstd::arithmetic::div_mod::lemma_mod_bound(cursor, n);
    if exists|i: int| 0 <= i < open.len() && open[i] {
        let offset = choose|offset: int|
            {
                &&& 0 <= offset < open.len()
                &&& chosen == #[trigger] place(cursor, offset, open.len())
                &&& open[chosen]
                &&& forall|earlier: int|
                    0 <= earlier < offset ==> !open[#[trigger] place(cursor, earlier, open.len())]
            };
        vstd::arithmetic::div_mod::lemma_mod_bound(cursor + offset, n);
        lemma_distance(cursor, offset, n);
        assert forall|i: int|
            0 <= i < open.len() && comes_sooner(cursor, n, i, chosen) implies !#[trigger] open[i] by {
            let o = lemma_goes_round(cursor, open.len(), i);
            lemma_distance(cursor, o, n);
            assert(!open[place(cursor, o, open.len())]);
        }
    }
}

proof fn lemma_distance(cursor: int, offset: int, count: int)
    requires
        0 <= offset < count,
    ensures
        ((cursor + offset) % count - cursor) % count == offset,
{
    vstd::arithmetic::div_mod::lemma_sub_mod_noop(cursor + offset, cursor, count);
    vstd::arithmetic::div_mod::lemma_sub_mod_noop((cursor + offset) % count, cursor, count);
    vstd::arithmetic::div_mod::lemma_mod_twice(cursor + offset, count);
    vstd::arithmetic::div_mod::lemma_small_mod(offset as nat, count as nat);
}

/// The connections of a pool are used in turn: of the open ones the one is chosen that comes
/// up soonest from the turn on, going round, and where none is open the one whose turn it is.
/// The turn then passes on by one.
pub proof fn law_connections_in_turn<C>(
    pool: &mut GatewayConnectionPool<C>,
    open: &Vec<bool>,
    chosen: usize,
)
    requires
        old(pool).connections@.len() > 0,
        open@.len() == old(pool).connections@.len(),
        call_ensures(GatewayConnectionPool::<C>::next_connection, (pool, open), chosen),
    ensures
        chosen < open@.len(),
        open@[chosen as int] || forall|i: int| 0 <= i < open@.len() ==> !open@[i],
        !open@[chosen as int] ==> chosen as int == (old(pool).next as int) % (open@.len() as int),
        forall|i: int|
            0 <= i < open@.len() && comes_sooner(
                old(pool).next as int,
                open@.len() as int,
                i,
                chosen as int,
            ) ==> !#[trigger] open@[i],
        old(pool).next < usize::MAX ==> final(pool).next == old(pool).next + 1,
        final(pool).connections == old(pool).connections,
{
    lemma_turn(old(pool).next as int, open@, chosen as int);
}

/// Where all connections are open, two uses in a row take neighbours, going round.
pub proof fn law_next_use_takes_next_connection<C>(
    first: &mut GatewayConnectionPool<C>,
    second: &mut GatewayConnectionPool<C>,
    open: &Vec<bool>,
    a: usize,
    b: usize,
)
    requires
        old(first).connections@.len() > 0,
        open@.len() == old(first).connections@.len(),
        forall|i: int| 0 <= i < open@.len() ==> open@[i],
        old(first).next < usize::MAX,
        call_ensures(GatewayConnectionPool::<C>::next_connection, (first, open), a),
        *old(second) == *final(first),
        call_ensures(GatewayConnectionPool::<C>::next_connection, (second, open), b),
    ensures
        b == (a + 1) % (open@.len() as int),
{
    let n = open@.len() as int;
    law_round_robin(old(first).next as int, open@, a as int);
    law_round_robin(old(second).next as int, open@, b as int);
    vstd::arithmetic::div_mod::lemma_add_mod_noop(old(first).next as int, 1, n);
    vstd::arithmetic::div_mod::lemma_add_mod_noop(a as int, 1, n);
    vstd::arithmetic::div_mod::lemma_mod_twice(old(first).next as int, n);
}

/// A plan has a pool for each gateway of the configuration, in order, with the configured
/// number of connections, but at least one.
pub proof fn law_plan(
    config: &AccessConfig,
    plan: Result<Vec<PlannedPool>, ConfigError>,
    gateways: Result<Vec<AccessGatewayConfig>, ConfigError>,
    i: int,
)
    requires
        call_ensures(connection_plan, (config,), plan),
        call_ensures(AccessConfig::gateway_configs, (config,), gateways),
    ensures
        plan is Ok <==> gateways is Ok,
        plan matches Err(error) ==> error@ == gateways->Err_0@,
        plan matches Ok(pools) ==> pools@.len() == gateways->Ok_0@.len(),
        plan is Ok && 0 <= i < plan->Ok_0@.len() ==> {
            let pool = plan->Ok_0@[i];
            let gateway = gateways->Ok_0@[i];
            &&& pool.gateway.name@ == gateway.name@
            &&& pool.gateway.server_url@ == gateway.server_url@
            &&& pool.gateway.token@ == gateway.token@
            &&& pool.connections == config.access.gateway_pool_size || (pool.connections == 1
                && config.access.gateway_pool_size == 0)
            &&& pool.connections > 0
        },
{
    if plan is Ok && gateways is Ok {
        let pools = plan->Ok_0@;
        let all = gateways->Ok_0@;
        assert(planned_routes(pools).len() == pools.len());
        assert(config::routes(all).len() == all.len());
        if 0 <= i < pools.len() {
            assert(planned_routes(pools)[i] == pools[i].gateway@);
            assert(config::routes(all)[i] == all[i]@);
        }
    }
}

/// The pools of a plan are those of its gateways, in order, each with the connections that
/// were made for it and beginning with the first. There are none exactly where the plan is
/// empty or a pool has no connections, and then the first of these is named.
pub proof fn law_pools_assembled<C>(
    plan: Vec<PlannedPool>,
    connections: Vec<Vec<C>>,
    result: Result<GatewayConnections<C>, PoolError>,
    i: int,
)
    requires
        plan@.len() == connections@.len(),
        call_ensures(assemble_pools::<C>, (plan, connections), result),
    ensures
        result is Ok <==> plan@.len() > 0 && forall|j: int|
            0 <= j < connections@.len() ==> (#[trigger] connections@[j])@.len() > 0,
        result matches Ok(assembled) ==> assembled.pools@.len() == plan@.len(),
        result is Ok && 0 <= i < plan@.len() ==> {
            let pool = result->Ok_0.pools@[i];
            &&& pool.name@ == plan@[i].gateway.name@
            &&& pool.server_url@ == plan@[i].gateway.server_url@
            &&& pool.connections@ == connections@[i]@
            &&& pool.next == 0
        },
        0 <= i < plan@.len() && connections@[i]@.len() == 0 && (forall|j: int|
            0 <= j < i ==> (#[trigger] connections@[j])@.len() > 0) ==> (
        result matches Err(PoolError::NoConnections { server_url }) && server_url@
            == plan@[i].gateway.server_url@),
        plan@.len() == 0 ==> result matches Err(PoolError::NoPools),
{
    match result {
        Ok(assembled) => {
            assert(pool_names(assembled.pools@).len() == assembled.pools@.len());
            assert forall|j: int| 0 <= j < connections@.len() implies (
            #[trigger] connections@[j])@.len() > 0 by {
                assert(assembled.pools@[j].connections == connections@[j]);
            }
            if 0 <= i < plan@.len() {
                assert(pool_names(assembled.pools@)[i] == assembled.pools@[i].name@);
                assert(pool_urls(assembled.pools@)[i] == assembled.pools@[i].server_url@);
                assert(planned_routes(plan@)[i] == plan@[i].gateway@);
            }
        },
        Err(_) => {},
    }
}

/// What holds for a running listener is the first entry with its name, all of it; where its
/// name is gone, what it was started with.
pub proof fn law_current_listener(
    listeners: &Vec<ListenerConfig>,
    running: &ListenerConfig,
    result: ListenerConfig,
)
    requires
        call_ensures(current_listener, (listeners, running), result),
    ensures
        result.name@ == running.name@,
        (exists|i: int|
            {
                &&& 0 <= i < listeners@.len()
                &&& result == #[trigger] listeners@[i]
                &&& listeners@[i].name@ == running.name@
                &&& forall|j: int| 0 <= j < i ==> (#[trigger] listeners@[j]).name@ != running.name@
            }) || (result == *running && forall|j: int|
            0 <= j < listeners@.len() ==> (#[trigger] listeners@[j]).name@ != running.name@),
{
    let names = listeners@.map_values(|listener: ListenerConfig| listener.name@);
    text::lemma_first_position(names, running.name@);
    assert forall|j: int| 0 <= j < listeners@.len() implies names[j] == (
    #[trigger] listeners@[j]).name@ by {}
    match text::first_position(names, running.name@) {
        Some(i) => {
            assert(result == listeners@[i]);
        },
        None => {},
    }
}

/// Whether a target is the one that a listener is set to, in every respect.
pub open spec fn is_target_of(target: config::TargetConfig, listener: ListenerConfig) -> bool {
    &&& target.mode == listener.mode
    &&& target.host@ == listener.host@
    &&& target.port == listener.port
    &&& target.scheme == listener.scheme
    &&& target.accept_invalid_certs == listener.accept_invalid_certs
    &&& target.rewrite_location == listener.rewrite_location
    &&& target.rewrite_cookie == listener.rewrite_cookie
}

/// A stream is opened, and a request started, under its own number and towards the target
/// that the listener is set to now; the request goes along as it is.
pub proof fn law_streams_name_the_target(
    stream_id: StreamId,
    listeners: &Vec<ListenerConfig>,
    running: &ListenerConfig,
    request: HttpRequestHead,
    open: Message,
    start: Message,
    current: ListenerConfig,
)
    requires
        call_ensures(open_message, (stream_id, listeners, running), open),
        call_ensures(
            request_start_message,
            (stream_id, listeners, running, request),
            start,
        ),
        call_ensures(current_listener, (listeners, running), current),
    ensures
        open matches Message::Open { stream_id: number, target, config } && number == stream_id
            && target@ == current.name@ && is_target_of(config, current),
        start matches Message::HttpRequestStart {
            stream_id: number,
            target,
            config,
            request: sent,
        } && number == stream_id && target@ == current.name@ && is_target_of(config, current)
            && sent == request,
{
}

/// A new configuration is accepted exactly if every running listener has a pool under it, and
/// else the first one that has none is named.
pub proof fn law_reload_keeps_listeners_served<C>(
    running: &Vec<ListenerConfig>,
    config: &AccessConfig,
    connections: &GatewayConnections<C>,
    result: Result<(), ListenerError>,
    i: int,
    current: ListenerConfig,
    default_url: Option<String>,
    routed: Result<usize, ConfigError>,
)
    requires
        call_ensures(check_listeners::<C>, (running, config, connections), result),
        0 <= i < running@.len(),
        call_ensures(current_listener, (&config.listeners, &running@[i]), current),
        call_ensures(config::default_server_url, (config,), default_url),
        call_ensures(
            GatewayConnections::<C>::pool_for,
            (connections, &current, &default_url),
            routed,
        ),
    ensures
        result is Ok ==> routed is Ok,
        routed is Err ==> result is Err,
        routed is Err && (forall|j: int|
            0 <= j < i ==> reloaded_route(#[trigger] running@[j], *config, connections.pools@) is Ok)
            ==> result->Err_0.listener@ == running@[i].name@ && result->Err_0.error@
            == routed->Err_0@,
{
    let route = reloaded_route(running@[i], *config, connections.pools@);
    assert(config::optional_text(default_url) == text::set_text(config.access.server_url));
    assert(routed is Ok <==> route is Ok);
}

/// What errors of pools and listeners are told as.
pub proof fn law_error_texts(
    pool: PoolError,
    listener: ListenerError,
    of_pool: String,
    of_listener: String,
)
    requires
        call_ensures(PoolError::message, (&pool,), of_pool),
        call_ensures(ListenerError::message, (&listener,), of_listener),
    ensures
        pool is NoPools ==> of_pool@ == "no gateway connection pools available"@,
        pool matches PoolError::NoConnections { server_url } ==> of_pool@ == "gateway pool '"@
            + server_url@ + "' has no connections"@,
        of_listener@ == "validate listener '"@ + listener.listener@ + "' gateway"@,
{
}

/// A pool is made of its connections as they are, beginning with the first, unless there are
/// none; connections are made of pools unless there are none.
pub proof fn law_pools_made<C>(
    name: String,
    server_url: String,
    connections: Vec<C>,
    pool: Result<GatewayConnectionPool<C>, PoolError>,
    pools: Vec<GatewayConnectionPool<C>>,
    all: Result<GatewayConnections<C>, PoolError>,
)
    requires
        call_ensures(GatewayConnectionPool::<C>::new, (name, server_url, connections), pool),
        call_ensures(GatewayConnections::<C>::new, (pools,), all),
    ensures
        pool is Ok <==> connections@.len() > 0,
        pool matches Ok(made) ==> made.name@ == name@ && made.server_url@ == server_url@
            && made.connections == connections && made.next == 0,
        pool matches Err(error) ==> (error matches PoolError::NoConnections { server_url: named }
            && named@ == server_url@),
        all is Ok <==> pools@.len() > 0,
        all matches Ok(made) ==> made.pools == pools,
        all matches Err(error) ==> error is NoPools,
{
}

} // verus!
