//! Configuration of the two ends of the tunnel, and which gateway a listener uses.

use crate::message::Mode;
use crate::text;
use vstd::prelude::*;

verus! {

/// Configuration of a gateway.
#[derive(Debug, Clone)]
pub struct GatewayConfig {
    pub gateway: GatewaySection,
    pub auth: GatewayAuth,
}

/// Where a gateway listens.
#[derive(Debug, Clone)]
pub struct GatewaySection {
    pub listen: String,
    pub path: String,
}

/// What an access must present to a gateway.
#[derive(Debug, Clone)]
pub struct GatewayAuth {
    pub access_token: String,
}

/// How a gateway reaches a target and what it rewrites on the way back.
#[derive(Debug)]
pub struct TargetConfig {
    pub mode: Mode,
    pub host: String,
    pub port: u16,
    pub scheme: Option<String>,
    pub accept_invalid_certs: bool,
    pub rewrite_location: bool,
    pub rewrite_cookie: bool,
}

/// Configuration of an access.
#[derive(Debug, Clone)]
pub struct AccessConfig {
    pub access: AccessSection,
    pub gateways: Vec<AccessGatewayConfig>,
    pub listeners: Vec<ListenerConfig>,
}

/// The settings that all listeners of an access share. `token`, `server_url` and
/// `server_urls` are the older way to name gateways, by one common token.
#[derive(Debug, Clone)]
pub struct AccessSection {
    pub token: Option<String>,
    pub server_url: Option<String>,
    pub server_urls: Vec<String>,
    pub gateway_pool_size: usize,
}

/// A gateway that an access connects to.
#[derive(Debug, PartialEq, Eq)]
pub struct AccessGatewayConfig {
    pub name: String,
    pub server_url: String,
    pub token: String,
}

/// A local port of an access and the target behind a gateway that it leads to.
#[derive(Debug)]
pub struct ListenerConfig {
    pub name: String,
    pub mode: Mode,
    pub gateway: Option<String>,
    pub server_url: Option<String>,
    pub listen: String,
    pub host: String,
    pub port: u16,
    pub scheme: Option<String>,
    pub local_scheme: Option<String>,
    pub auto_cert: bool,
    pub accept_invalid_certs: bool,
    pub rewrite_location: bool,
    pub rewrite_cookie: bool,
}

impl Clone for TargetConfig {
    fn clone(&self) -> (result: Self)
        ensures
            result == *self,
    {
        TargetConfig {
            mode: self.mode,
            host: self.host.clone(),
            port: self.port,
            scheme: self.scheme.clone(),
            accept_invalid_certs: self.accept_invalid_certs,
            rewrite_location: self.rewrite_location,
            rewrite_cookie: self.rewrite_cookie,
        }
    }
}

impl Clone for AccessGatewayConfig {
    fn clone(&self) -> (result: Self)
        ensures
            result == *self,
    {
        AccessGatewayConfig {
            name: self.name.clone(),
            server_url: self.server_url.clone(),
            token: self.token.clone(),
        }
    }
}

impl Clone for ListenerConfig {
    fn clone(&self) -> (result: Self)
        ensures
            result == *self,
    {
        ListenerConfig {
            name: self.name.clone(),
            mode: self.mode,
            gateway: self.gateway.clone(),
            server_url: self.server_url.clone(),
            listen: self.listen.clone(),
            host: self.host.clone(),
            port: self.port,
            scheme: self.scheme.clone(),
            local_scheme: self.local_scheme.clone(),
            auto_cert: self.auto_cert,
            accept_invalid_certs: self.accept_invalid_certs,
            rewrite_location: self.rewrite_location,
            rewrite_cookie: self.rewrite_cookie,
        }
    }
}

/// Why a configuration of an access is refused, or a listener has no gateway.
#[derive(Debug, Clone, PartialEq, Eq)]
pub enum ConfigError {
    MissingToken,
    NoGateway,
    EmptyName,
    EmptyServerUrl { gateway: String },
    EmptyToken { gateway: String },
    DuplicateName { gateway: String },
    BothRoutes { listener: String },
    UnavailableGateway { listener: String, gateway: String },
    NoRoute { listener: String },
}

/// The texts that a `ConfigError` holds.
pub enum ConfigFault {
    MissingToken,
    NoGateway,
    EmptyName,
    EmptyServerUrl { gateway: Seq<char> },
    EmptyToken { gateway: Seq<char> },
    DuplicateName { gateway: Seq<char> },
    BothRoutes { listener: Seq<char> },
    UnavailableGateway { listener: Seq<char>, gateway: Seq<char> },
    NoRoute { listener: Seq<char> },
}

impl View for ConfigError {
    type V = ConfigFault;

    open spec fn view(&self) -> ConfigFault {
        match self {
            ConfigError::MissingToken => ConfigFault::MissingToken,
            ConfigError::NoGateway => ConfigFault::NoGateway,
            ConfigError::EmptyName => ConfigFault::EmptyName,
            ConfigError::EmptyServerUrl { gateway } => ConfigFault::EmptyServerUrl {
                gateway: gateway@,
            },
            ConfigError::EmptyToken { gateway } => ConfigFault::EmptyToken { gateway: gateway@ },
            ConfigError::DuplicateName { gateway } => ConfigFault::DuplicateName {
                gateway: gateway@,
            },
            ConfigError::BothRoutes { listener } => ConfigFault::BothRoutes {
                listener: listener@,
            },
            ConfigError::UnavailableGateway {
                listener,
                gateway,
            } => ConfigFault::UnavailableGateway { listener: listener@, gateway: gateway@ },
            ConfigError::NoRoute { listener } => ConfigFault::NoRoute { listener: listener@ },
        }
    }
}

impl ConfigFault {
    /// The text of an error.
    pub open spec fn text(self) -> Seq<char> {
        match self {
            ConfigFault::MissingToken => "legacy access config requires access.token"@,
            ConfigFault::NoGateway => "access config requires at least one gateway"@,
            ConfigFault::EmptyName => "gateway name must not be empty"@,
            ConfigFault::EmptyServerUrl { gateway } => {
                "gateway '"@ + gateway + "' server_url must not be empty"@
            },
            ConfigFault::EmptyToken { gateway } => {
                "gateway '"@ + gateway + "' token must not be empty"@
            },
            ConfigFault::DuplicateName { gateway } => {
                "duplicate gateway name '"@ + gateway + "'"@
            },
            ConfigFault::BothRoutes { listener } => {
                "listener '"@ + listener + "' must not set both gateway and server_url"@
            },
            ConfigFault::UnavailableGateway { listener, gateway } => {
                "listener '"@ + listener + "' references unavailable gateway '"@ + gateway + "'"@
            },
            ConfigFault::NoRoute { listener } => {
                "listener '"@ + listener + "' must set gateway or server_url"@
            },
        }
    }
}

/// Three texts one after the other.
fn quoted(before: &str, name: &str, after: &str) -> (result: String)
    ensures
        result@ == before@ + name@ + after@,
{
    let mut result = before.to_owned();
    result.append(name);
    result.append(after);
    result
}

impl ConfigError {
    /// The text of an error.
    pub fn message(&self) -> (result: String)
        ensures
            result@ == self@.text(),
    {
        match self {
            ConfigError::MissingToken => "legacy access config requires access.token".to_owned(),
            ConfigError::NoGateway => "access config requires at least one gateway".to_owned(),
            ConfigError::EmptyName => "gateway name must not be empty".to_owned(),
            ConfigError::EmptyServerUrl { gateway } => quoted(
                "gateway '",
                gateway.as_str(),
                "' server_url must not be empty",
            ),
            ConfigError::EmptyToken { gateway } => quoted(
                "gateway '",
                gateway.as_str(),
                "' token must not be empty",
            ),
            ConfigError::DuplicateName { gateway } => quoted(
                "duplicate gateway name '",
                gateway.as_str(),
                "'",
            ),
            ConfigError::BothRoutes { listener } => quoted(
                "listener '",
                listener.as_str(),
                "' must not set both gateway and server_url",
            ),
            ConfigError::UnavailableGateway { listener, gateway } => {
                let start = quoted(
                    "listener '",
                    listener.as_str(),
                    "' references unavailable gateway '",
                );
                quoted(start.as_str(), gateway.as_str(), "'")
            },
            ConfigError::NoRoute { listener } => quoted(
                "listener '",
                listener.as_str(),
                "' must set gateway or server_url",
            ),
        }
    }
}

/// What a gateway of an access consists of.
pub struct GatewayRoute {
    pub name: Seq<char>,
    pub server_url: Seq<char>,
    pub token: Seq<char>,
}

impl View for AccessGatewayConfig {
    type V = GatewayRoute;

    open spec fn view(&self) -> GatewayRoute {
        GatewayRoute { name: self.name@, server_url: self.server_url@, token: self.token@ }
    }
}

/// The gateways that a list of settings describes.
pub open spec fn routes(list: Seq<AccessGatewayConfig>) -> Seq<GatewayRoute> {
    list.map_values(|gateway: AccessGatewayConfig| gateway@)
}

/// A gateway with the white space around its name and address taken off.
pub open spec fn normalized(gateway: AccessGatewayConfig) -> GatewayRoute {
    GatewayRoute {
        name: text::trimmed(gateway.name@),
        server_url: text::trimmed(gateway.server_url@),
        token: gateway.token@,
    }
}

/// The text of an optional field.
pub open spec fn optional_text(field: Option<String>) -> Option<Seq<char>> {
    match field {
        Some(value) => Some(value@),
        None => None,
    }
}

/// The places in which the older settings name gateway addresses, in order.
pub open spec fn address_fields(config: AccessConfig) -> Seq<Option<Seq<char>>> {
    seq![optional_text(config.access.server_url)] + config.access.server_urls@.map_values(
        |url: String| Some(url@),
    ) + config.listeners@.map_values(|listener: ListenerConfig| optional_text(listener.server_url))
}

/// `urls` with one more address, unless it is blank or already there.
pub open spec fn with_address(urls: Seq<Seq<char>>, field: Option<Seq<char>>) -> Seq<Seq<char>> {
    match field {
        Some(url) => if text::is_blank(url) || urls.contains(text::trimmed(url)) {
            urls
        } else {
            urls.push(text::trimmed(url))
        },
        None => urls,
    }
}

/// The different non-blank addresses in the order in which they are first named.
pub open spec fn distinct_addresses(fields: Seq<Option<Seq<char>>>) -> Seq<Seq<char>>
    decreases fields.len(),
{
    if fields.len() == 0 {
        Seq::empty()
    } else {
        with_address(distinct_addresses(fields.drop_last()), fields.last())
    }
}

/// The gateways of the older settings: one for each address, numbered from 1, all with the
/// same token.
pub open spec fn legacy_routes(urls: Seq<Seq<char>>, token: Seq<char>) -> Seq<GatewayRoute> {
    Seq::new(
        urls.len(),
        |i: int|
            GatewayRoute {
                name: "gateway-"@ + text::decimal((i + 1) as nat),
                server_url: urls[i],
                token,
            },
    )
}

/// The gateways that a configuration names, valid or not.
pub open spec fn declared_routes(config: AccessConfig) -> Seq<GatewayRoute> {
    if config.gateways@.len() == 0 {
        legacy_routes(
            distinct_addresses(address_fields(config)),
            optional_text(config.access.token)->0,
        )
    } else {
        config.gateways@.map_values(|gateway: AccessGatewayConfig| normalized(gateway))
    }
}

/// What is wrong with one gateway.
pub open spec fn field_fault(gateway: GatewayRoute) -> Option<ConfigFault> {
    if gateway.name.len() == 0 {
        Some(ConfigFault::EmptyName)
    } else if gateway.server_url.len() == 0 {
        Some(ConfigFault::EmptyServerUrl { gateway: gateway.name })
    } else if text::is_blank(gateway.token) {
        Some(ConfigFault::EmptyToken { gateway: gateway.name })
    } else {
        None
    }
}

/// What is wrong with the first gateway that has a fault of its own.
pub open spec fn first_field_fault(gateways: Seq<GatewayRoute>) -> Option<ConfigFault>
    decreases gateways.len(),
{
    if gateways.len() == 0 {
        None
    } else {
        match first_field_fault(gateways.drop_last()) {
            Some(fault) => Some(fault),
            None => field_fault(gateways.last()),
        }
    }
}

/// The names of a list of gateways.
pub open spec fn names(gateways: Seq<GatewayRoute>) -> Seq<Seq<char>> {
    gateways.map_values(|gateway: GatewayRoute| gateway.name)
}

/// The addresses of a list of gateways.
pub open spec fn addresses(gateways: Seq<GatewayRoute>) -> Seq<Seq<char>> {
    gateways.map_values(|gateway: GatewayRoute| gateway.server_url)
}

/// The first name that an earlier gateway has as well.
pub open spec fn first_duplicate(gateways: Seq<GatewayRoute>) -> Option<ConfigFault>
    decreases gateways.len(),
{
    if gateways.len() == 0 {
        None
    } else {
        match first_duplicate(gateways.drop_last()) {
            Some(fault) => Some(fault),
            None => if names(gateways.drop_last()).contains(gateways.last().name) {
                Some(ConfigFault::DuplicateName { gateway: gateways.last().name })
            } else {
                None
            },
        }
    }
}

/// Whether a listener that names no gateway still has one.
pub open spec fn has_default_gateway(config: AccessConfig, gateways: Seq<GatewayRoute>) -> bool {
    gateways.len() == 1 || (config.gateways@.len() == 0 && text::set_text(
        config.access.server_url,
    ) is Some)
}

/// What is wrong with a listener.
pub open spec fn listener_fault(
    listener: ListenerConfig,
    gateways: Seq<GatewayRoute>,
    has_default: bool,
) -> Option<ConfigFault> {
    match (text::set_text(listener.gateway), text::set_text(listener.server_url)) {
        (Some(_), Some(_)) => Some(ConfigFault::BothRoutes { listener: listener.name@ }),
        (Some(name), None) => if names(gateways).contains(name) {
            None
        } else {
            Some(ConfigFault::UnavailableGateway { listener: listener.name@, gateway: name })
        },
        (None, Some(url)) => if addresses(gateways).contains(url) {
            None
        } else {
            Some(ConfigFault::UnavailableGateway { listener: listener.name@, gateway: url })
        },
        (None, None) => if has_default {
            None
        } else {
            Some(ConfigFault::NoRoute { listener: listener.name@ })
        },
    }
}

/// What is wrong with the first listener that has a fault.
pub open spec fn first_listener_fault(
    listeners: Seq<ListenerConfig>,
    gateways: Seq<GatewayRoute>,
    has_default: bool,
) -> Option<ConfigFault>
    decreases listeners.len(),
{
    if listeners.len() == 0 {
        None
    } else {
        match first_listener_fault(listeners.drop_last(), gateways, has_default) {
            Some(fault) => Some(fault),
            None => listener_fault(listeners.last(), gateways, has_default),
        }
    }
}

/// The gateways of a configuration, or the first thing that is wrong with it.
pub open spec fn resolved(config: AccessConfig) -> Result<Seq<GatewayRoute>, ConfigFault> {
    let gateways = declared_routes(config);
    if config.gateways@.len() == 0 && text::set_text(config.access.token) is None {
        Err(ConfigFault::MissingToken)
    } else if gateways.len() == 0 {
        Err(ConfigFault::NoGateway)
    } else {
        match first_field_fault(gateways) {
            Some(fault) => Err(fault),
            None => match first_duplicate(gateways) {
                Some(fault) => Err(fault),
                None => match first_listener_fault(
                    config.listeners@,
                    gateways,
                    has_default_gateway(config, gateways),
                ) {
                    Some(fault) => Err(fault),
                    None => Ok(gateways),
                },
            },
        }
    }
}

/// Appends an address, unless it is blank or already there.
fn push_address(urls: &mut Vec<String>, candidate: &str)
    ensures
        text::texts(final(urls)@) == with_address(text::texts(old(urls)@), Some(candidate@)),
{
    let url = text::trim(candidate);
    if url.as_str().unicode_len() == 0 {
        return;
    }
    let mut i: usize = 0;
    while i < urls.len()
        invariant
            i <= urls@.len(),
            urls@ == old(urls)@,
            url@ == text::trimmed(candidate@),
            forall|j: int| 0 <= j < i ==> text::texts(urls@)[j] != url@,
        decreases urls.len() - i,
    {
        if urls[i] == url {
            assert(text::texts(urls@)[i as int] == url@);
            return;
        }
        i = i + 1;
    }
    urls.push(url);
    assert(text::texts(urls@) =~= text::texts(old(urls)@).push(url@));
}

/// Appends the address of an optional field.
fn push_optional_address(urls: &mut Vec<String>, field: &Option<String>)
    ensures
        text::texts(final(urls)@) == with_address(
            text::texts(old(urls)@),
            optional_text(*field),
        ),
{
    match field {
        Some(url) => push_address(urls, url.as_str()),
        None => {},
    }
}

/// Whether one of the first `count` gateways has the given name.
fn name_taken(gateways: &Vec<AccessGatewayConfig>, count: usize, name: &String) -> (result: bool)
    requires
        count <= gateways@.len(),
    ensures
        result == names(routes(gateways@).take(count as int)).contains(name@),
{
    let ghost all = names(routes(gateways@).take(count as int));
    let mut i: usize = 0;
    while i < count
        invariant
            i <= count <= gateways@.len(),
            all == names(routes(gateways@).take(count as int)),
            forall|j: int| 0 <= j < i ==> all[j] != name@,
        decreases count - i,
    {
        if gateways[i].name == *name {
            assert(all[i as int] == name@);
            return true;
        }
        i = i + 1;
    }
    false
}

/// Whether some gateway has the given address.
fn address_known(gateways: &Vec<AccessGatewayConfig>, url: &String) -> (result: bool)
    ensures
        result == addresses(routes(gateways@)).contains(url@),
{
    let ghost all = addresses(routes(gateways@));
    let mut i: usize = 0;
    while i < gateways.len()
        invariant
            i <= gateways@.len(),
            all == addresses(routes(gateways@)),
            forall|j: int| 0 <= j < i ==> all[j] != url@,
        decreases gateways.len() - i,
    {
        if gateways[i].server_url == *url {
            assert(all[i as int] == url@);
            return true;
        }
        i = i + 1;
    }
    false
}

/// The first gateway that has a fault of its own.
fn check_fields(gateways: &Vec<AccessGatewayConfig>) -> (result: Result<(), ConfigError>)
    ensures
        match result {
            Ok(_) => first_field_fault(routes(gateways@)) is None,
            Err(error) => first_field_fault(routes(gateways@)) == Some(error@),
        },
{
    let ghost all = routes(gateways@);
    let mut i: usize = 0;
    while i < gateways.len()
        invariant
            i <= gateways@.len(),
            all == routes(gateways@),
            first_field_fault(all.take(i as int)) is None,
        decreases gateways.len() - i,
    {
        let gateway = &gateways[i];
        let error = if gateway.name.as_str().unicode_len() == 0 {
            Some(ConfigError::EmptyName)
        } else if gateway.server_url.as_str().unicode_len() == 0 {
            Some(ConfigError::EmptyServerUrl { gateway: gateway.name.clone() })
        } else if text::blank(gateway.token.as_str()) {
            Some(ConfigError::EmptyToken { gateway: gateway.name.clone() })
        } else {
            None
        };
        proof {
            let next = all.take(i + 1);
            assert(next.drop_last() =~= all.take(i as int));
            assert(next.last() == gateway@);
        }
        match error {
            Some(error) => {
                proof {
                    lemma_field_fault_stays(all, i + 1);
                }
                return Err(error);
            },
            None => {},
        }
        i = i + 1;
    }
    assert(all.take(i as int) =~= all);
    Ok(())
}

proof fn lemma_field_fault_stays(gateways: Seq<GatewayRoute>, n: int)
    requires
        0 <= n <= gateways.len(),
        first_field_fault(gateways.take(n)) is Some,
    ensures
        first_field_fault(gateways) == first_field_fault(gateways.take(n)),
    decreases gateways.len(),
{
    if n == gateways.len() {
        assert(gateways.take(n) =~= gateways);
    } else {
        let front = gateways.drop_last();
        assert(front.take(n) =~= gateways.take(n));
        lemma_field_fault_stays(front, n);
    }
}

/// The first name that occurs twice.
fn check_names(gateways: &Vec<AccessGatewayConfig>) -> (result: Result<(), ConfigError>)
    ensures
        match result {
            Ok(_) => first_duplicate(routes(gateways@)) is None,
            Err(error) => first_duplicate(routes(gateways@)) == Some(error@),
        },
{
    let ghost all = routes(gateways@);
    let mut i: usize = 0;
    while i < gateways.len()
        invariant
            i <= gateways@.len(),
            all == routes(gateways@),
            first_duplicate(all.take(i as int)) is None,
        decreases gateways.len() - i,
    {
        proof {
            let next = all.take(i + 1);
            assert(next.drop_last() =~= all.take(i as int));
            assert(next.last() == gateways@[i as int]@);
        }
        if name_taken(gateways, i, &gateways[i].name) {
            proof {
                lemma_duplicate_stays(all, i + 1);
            }
            return Err(ConfigError::DuplicateName { gateway: gateways[i].name.clone() });
        }
        i = i + 1;
    }
    assert(all.take(i as int) =~= all);
    Ok(())
}

proof fn lemma_duplicate_stays(gateways: Seq<GatewayRoute>, n: int)
    requires
        0 <= n <= gateways.len(),
        first_duplicate(gateways.take(n)) is Some,
    ensures
        first_duplicate(gateways) == first_duplicate(gateways.take(n)),
    decreases gateways.len(),
{
    if n == gateways.len() {
        assert(gateways.take(n) =~= gateways);
    } else {
        let front = gateways.drop_last();
        assert(front.take(n) =~= gateways.take(n));
        lemma_duplicate_stays(front, n);
    }
}

/// What is wrong with a listener.
fn check_listener(
    listener: &ListenerConfig,
    gateways: &Vec<AccessGatewayConfig>,
    has_default: bool,
) -> (result: Result<(), ConfigError>)
    ensures
        match result {
            Ok(_) => listener_fault(*listener, routes(gateways@), has_default) is None,
            Err(error) => listener_fault(*listener, routes(gateways@), has_default) == Some(
                error@,
            ),
        },
{
    let gateway_name = text::set_value(&listener.gateway);
    let server_url = text::set_value(&listener.server_url);
    match (gateway_name, server_url) {
        (Some(_), Some(_)) => Err(ConfigError::BothRoutes { listener: listener.name.clone() }),
        (Some(name), None) => {
            assert(routes(gateways@).take(gateways@.len() as int) =~= routes(gateways@));
            if name_taken(gateways, gateways.len(), &name) {
                Ok(())
            } else {
                Err(
                    ConfigError::UnavailableGateway {
                        listener: listener.name.clone(),
                        gateway: name,
                    },
                )
            }
        },
        (None, Some(url)) => {
            if address_known(gateways, &url) {
                Ok(())
            } else {
                Err(
                    ConfigError::UnavailableGateway {
                        listener: listener.name.clone(),
                        gateway: url,
                    },
                )
            }
        },
        (None, None) => {
            if has_default {
                Ok(())
            } else {
                Err(ConfigError::NoRoute { listener: listener.name.clone() })
            }
        },
    }
}

/// The first listener that has a fault.
fn check_listeners(
    listeners: &Vec<ListenerConfig>,
    gateways: &Vec<AccessGatewayConfig>,
    has_default: bool,
) -> (result: Result<(), ConfigError>)
    ensures
        match result {
            Ok(_) => first_listener_fault(listeners@, routes(gateways@), has_default) is None,
            Err(error) => first_listener_fault(listeners@, routes(gateways@), has_default) == Some(
                error@,
            ),
        },
{
    let mut i: usize = 0;
    while i < listeners.len()
        invariant
            i <= listeners@.len(),
            first_listener_fault(
                listeners@.take(i as int),
                routes(gateways@),
                has_default,
            ) is None,
        decreases listeners.len() - i,
    {
        proof {
            let next = listeners@.take(i + 1);
            assert(next.drop_last() =~= listeners@.take(i as int));
            assert(next.last() == listeners@[i as int]);
        }
        match check_listener(&listeners[i], gateways, has_default) {
            Ok(_) => {},
            Err(error) => {
                proof {
                    lemma_listener_fault_stays(
                        listeners@,
                        routes(gateways@),
                        has_default,
                        i + 1,
                    );
                }
                return Err(error);
            },
        }
        i = i + 1;
    }
    assert(listeners@.take(i as int) =~= listeners@);
    Ok(())
}

proof fn lemma_listener_fault_stays(
    listeners: Seq<ListenerConfig>,
    gateways: Seq<GatewayRoute>,
    has_default: bool,
    n: int,
)
    requires
        0 <= n <= listeners.len(),
        first_listener_fault(listeners.take(n), gateways, has_default) is Some,
    ensures
        first_listener_fault(listeners, gateways, has_default) == first_listener_fault(
            listeners.take(n),
            gateways,
            has_default,
        ),
    decreases listeners.len(),
{
    if n == listeners.len() {
        assert(listeners.take(n) =~= listeners);
    } else {
        let front = listeners.drop_last();
        assert(front.take(n) =~= listeners.take(n));
        lemma_listener_fault_stays(front, gateways, has_default, n);
    }
}

impl ListenerConfig {
    /// The target that the listener leads to.
    pub open spec fn target(&self) -> TargetConfig {
        TargetConfig {
            mode: self.mode,
            host: self.host,
            port: self.port,
            scheme: self.scheme,
            accept_invalid_certs: self.accept_invalid_certs,
            rewrite_location: self.rewrite_location,
            rewrite_cookie: self.rewrite_cookie,
        }
    }

    /// The name under which the gateway is told of the target.
    pub fn target_name(&self) -> (result: String)
        ensures
            result == self.name,
    {
        self.name.clone()
    }

    /// The target that the listener leads to.
    pub fn target_config(&self) -> (result: TargetConfig)
        ensures
            result == self.target(),
    {
        TargetConfig {
            mode: self.mode,
            host: self.host.clone(),
            port: self.port,
            scheme: self.scheme.clone(),
            accept_invalid_certs: self.accept_invalid_certs,
            rewrite_location: self.rewrite_location,
            rewrite_cookie: self.rewrite_cookie,
        }
    }
}

impl AccessConfig {
    /// The different addresses that the older settings name.
    fn legacy_addresses(&self) -> (urls: Vec<String>)
        ensures
            text::texts(urls@) == distinct_addresses(address_fields(*self)),
    {
        let ghost fields = address_fields(*self);
        let ghost listed = self.access.server_urls@.len();
        let mut urls: Vec<String> = Vec::new();
        proof {
            assert(fields.take(1).drop_last() =~= Seq::<Option<Seq<char>>>::empty());
            assert(text::texts(urls@) =~= Seq::<Seq<char>>::empty());
            assert(distinct_addresses(fields.take(1)) == with_address(
                Seq::<Seq<char>>::empty(),
                optional_text(self.access.server_url),
            )) by {
                assert(distinct_addresses(Seq::<Option<Seq<char>>>::empty()) =~= Seq::<
                    Seq<char>,
                >::empty());
            }
        }
        push_optional_address(&mut urls, &self.access.server_url);
        let mut i: usize = 0;
        while i < self.access.server_urls.len()
            invariant
                i <= self.access.server_urls@.len(),
                fields == address_fields(*self),
                text::texts(urls@) == distinct_addresses(fields.take(1 + i)),
            decreases self.access.server_urls.len() - i,
        {
            proof {
                assert(fields.take(2 + i).drop_last() =~= fields.take(1 + i));
                assert(fields[1 + i] == Some(self.access.server_urls@[i as int]@));
            }
            push_address(&mut urls, self.access.server_urls[i].as_str());
            i = i + 1;
        }
        let mut j: usize = 0;
        while j < self.listeners.len()
            invariant
                j <= self.listeners@.len(),
                fields == address_fields(*self),
                listed == self.access.server_urls@.len(),
                text::texts(urls@) == distinct_addresses(fields.take(1 + listed + j)),
            decreases self.listeners.len() - j,
        {
            proof {
                assert(fields.take(2 + listed + j).drop_last() =~= fields.take(1 + listed + j));
                assert(fields[1 + listed + j] == optional_text(
                    self.listeners@[j as int].server_url,
                ));
            }
            push_optional_address(&mut urls, &self.listeners[j].server_url);
            j = j + 1;
        }
        assert(fields.take(1 + listed + j) =~= fields);
        urls
    }

    /// The gateways of the older settings.
    fn legacy_gateways(&self, token: &String) -> (gateways: Vec<AccessGatewayConfig>)
        ensures
            routes(gateways@) == legacy_routes(
                distinct_addresses(address_fields(*self)),
                token@,
            ),
    {
        let urls = self.legacy_addresses();
        let ghost all = legacy_routes(text::texts(urls@), token@);
        let mut gateways: Vec<AccessGatewayConfig> = Vec::new();
        let mut i: usize = 0;
        while i < urls.len()
            invariant
                i <= urls@.len(),
                all == legacy_routes(text::texts(urls@), token@),
                routes(gateways@) == all.take(i as int),
            decreases urls.len() - i,
        {
            let mut name = "gateway-".to_owned();
            name.append(text::number(i as u64 + 1).as_str());
            let gateway = AccessGatewayConfig {
                name,
                server_url: urls[i].clone(),
                token: token.clone(),
            };
            let ghost before = gateways@;
            gateways.push(gateway);
            proof {
                assert(gateway@ == all[i as int]);
                assert(routes(gateways@) =~= routes(before).push(gateway@));
                assert(all.take(i + 1) =~= all.take(i as int).push(all[i as int]));
            }
            i = i + 1;
        }
        assert(all.take(i as int) =~= all);
        gateways
    }

    /// The gateways of the list of gateways, with the white space around names and
    /// addresses taken off.
    fn listed_gateways(&self) -> (gateways: Vec<AccessGatewayConfig>)
        ensures
            routes(gateways@) == self.gateways@.map_values(
                |gateway: AccessGatewayConfig| normalized(gateway),
            ),
    {
        let ghost all = self.gateways@.map_values(
            |gateway: AccessGatewayConfig| normalized(gateway),
        );
        let mut gateways: Vec<AccessGatewayConfig> = Vec::new();
        let mut i: usize = 0;
        while i < self.gateways.len()
            invariant
                i <= self.gateways@.len(),
                all == self.gateways@.map_values(
                    |gateway: AccessGatewayConfig| normalized(gateway),
                ),
                routes(gateways@) == all.take(i as int),
            decreases self.gateways.len() - i,
        {
            let gateway = AccessGatewayConfig {
                name: text::trim(self.gateways[i].name.as_str()),
                server_url: text::trim(self.gateways[i].server_url.as_str()),
                token: self.gateways[i].token.clone(),
            };
            let ghost before = gateways@;
            gateways.push(gateway);
            proof {
                assert(gateway@ == all[i as int]);
                assert(routes(gateways@) =~= routes(before).push(gateway@));
                assert(all.take(i + 1) =~= all.take(i as int).push(all[i as int]));
            }
            i = i + 1;
        }
        assert(all.take(i as int) =~= all);
        gateways
    }

    /// The gateways that the access connects to, or the first thing that is wrong with the
    /// configuration.
    pub fn gateway_configs(&self) -> (result: Result<Vec<AccessGatewayConfig>, ConfigError>)
        ensures
            match result {
                Ok(gateways) => resolved(*self) == Ok::<Seq<GatewayRoute>, ConfigFault>(
                    routes(gateways@),
                ),
                Err(error) => resolved(*self) == Err::<Seq<GatewayRoute>, ConfigFault>(error@),
            },
    {
        let gateways = if self.gateways.len() == 0 {
            match &self.access.token {
                None => {
                    return Err(ConfigError::MissingToken);
                },
                Some(token) => {
                    if text::blank(token.as_str()) {
                        return Err(ConfigError::MissingToken);
                    }
                    self.legacy_gateways(token)
                },
            }
        } else {
            self.listed_gateways()
        };
        assert(routes(gateways@) == declared_routes(*self));
        if gateways.len() == 0 {
            return Err(ConfigError::NoGateway);
        }
        match check_fields(&gateways) {
            Ok(_) => {},
            Err(error) => {
                return Err(error);
            },
        }
        match check_names(&gateways) {
            Ok(_) => {},
            Err(error) => {
                return Err(error);
            },
        }
        let has_default = gateways.len() == 1 || (self.gateways.len() == 0 && text::set_value(
            &self.access.server_url,
        ).is_some());
        match check_listeners(&self.listeners, &gateways, has_default) {
            Ok(_) => Ok(gateways),
            Err(error) => Err(error),
        }
    }

    /// The addresses of the gateways that the access connects to; none where the
    /// configuration is refused.
    pub fn server_urls(&self) -> (urls: Vec<String>)
        ensures
            text::texts(urls@) == match resolved(*self) {
                Ok(gateways) => addresses(gateways),
                Err(_) => Seq::empty(),
            },
    {
        let mut urls: Vec<String> = Vec::new();
        match self.gateway_configs() {
            Ok(gateways) => {
                let ghost all = addresses(routes(gateways@));
                let mut i: usize = 0;
                while i < gateways.len()
                    invariant
                        i <= gateways@.len(),
                        all == addresses(routes(gateways@)),
                        text::texts(urls@) == all.take(i as int),
                    decreases gateways.len() - i,
                {
                    let ghost before = urls@;
                    urls.push(gateways[i].server_url.clone());
                    proof {
                        assert(text::texts(urls@) =~= text::texts(before).push(all[i as int]));
                        assert(all.take(i + 1) =~= all.take(i as int).push(all[i as int]));
                    }
                    i = i + 1;
                }
                assert(all.take(i as int) =~= all);
            },
            Err(_) => {
                assert(text::texts(urls@) =~= Seq::<Seq<char>>::empty());
            },
        }
        urls
    }
}

/// The path at which a gateway accepts tunnels, where the configuration names none.
pub fn default_tunnel_path() -> (path: String)
    ensures
        path@ == "/tunnel"@,
{
    "/tunnel".to_owned()
}

/// How many connections an access keeps to each gateway, where the configuration does not
/// say.
pub fn default_gateway_pool_size() -> (size: usize)
    ensures
        size == 8,
{
    8
}

/// The address that a listener uses which names no gateway.
pub fn default_server_url(config: &AccessConfig) -> (result: Option<String>)
    ensures
        match result {
            Some(url) => text::set_text(config.access.server_url) == Some(url@),
            None => text::set_text(config.access.server_url) is None,
        },
{
    text::set_value(&config.access.server_url)
}

/// Which of the gateways with the given names and addresses a listener uses: the one that
/// it names, or the one at the address that it gives; where it says neither, the only one
/// there is, or else the one at the default address.
pub open spec fn route_of(
    listener: ListenerConfig,
    names: Seq<Seq<char>>,
    urls: Seq<Seq<char>>,
    default_url: Option<Seq<char>>,
) -> Result<int, ConfigFault> {
    match text::set_text(listener.gateway) {
        Some(name) => match text::first_position(names, name) {
            Some(i) => Ok(i),
            None => Err(
                ConfigFault::UnavailableGateway { listener: listener.name@, gateway: name },
            ),
        },
        None => match text::set_text(listener.server_url) {
            Some(url) => match text::first_position(urls, url) {
                Some(i) => Ok(i),
                None => Err(
                    ConfigFault::UnavailableGateway { listener: listener.name@, gateway: url },
                ),
            },
            None => if names.len() == 1 {
                Ok(0)
            } else {
                match default_url {
                    Some(url) => match text::first_position(urls, url) {
                        Some(i) => Ok(i),
                        None => Err(
                            ConfigFault::UnavailableGateway {
                                listener: listener.name@,
                                gateway: url,
                            },
                        ),
                    },
                    None => Err(ConfigFault::NoRoute { listener: listener.name@ }),
                }
            },
        },
    }
}

/// Which of the gateways of a configuration one of its listeners uses.
pub open spec fn listener_route(
    config: AccessConfig,
    gateways: Seq<GatewayRoute>,
    i: int,
) -> Result<int, ConfigFault> {
    route_of(
        config.listeners@[i],
        names(gateways),
        addresses(gateways),
        text::set_text(config.access.server_url),
    )
}

/// The gateways of an accepted configuration: there is at least one, names and addresses
/// are trimmed and not empty, tokens are not blank, and no two names are the same.
pub proof fn law_resolved_gateways(config: AccessConfig)
    requires
        resolved(config) is Ok,
    ensures
        resolved(config)->Ok_0.len() > 0,
        forall|i: int|
            #![trigger resolved(config)->Ok_0[i]]
            0 <= i < resolved(config)->Ok_0.len() ==> {
                &&& resolved(config)->Ok_0[i].name.len() > 0
                &&& text::trimmed(resolved(config)->Ok_0[i].name) == resolved(config)->Ok_0[i].name
                &&& resolved(config)->Ok_0[i].server_url.len() > 0
                &&& text::trimmed(resolved(config)->Ok_0[i].server_url)
                    == resolved(config)->Ok_0[i].server_url
                &&& !text::is_blank(resolved(config)->Ok_0[i].token)
            },
        forall|i: int, j: int|
            #![trigger resolved(config)->Ok_0[i], resolved(config)->Ok_0[j]]
            0 <= i < j < resolved(config)->Ok_0.len() ==> resolved(config)->Ok_0[i].name
                != resolved(config)->Ok_0[j].name,
{
    let gateways = declared_routes(config);
    assert forall|i: int| #![trigger gateways[i]] 0 <= i < gateways.len() implies {
        &&& gateways[i].name.len() > 0
        &&& text::trimmed(gateways[i].name) == gateways[i].name
        &&& gateways[i].server_url.len() > 0
        &&& text::trimmed(gateways[i].server_url) == gateways[i].server_url
        &&& !text::is_blank(gateways[i].token)
    } by {
        lemma_no_field_fault(gateways, i);
        lemma_declared_trimmed(config, i);
    }
    assert forall|i: int, j: int|
        #![trigger gateways[i], gateways[j]]
        0 <= i < j < gateways.len() implies gateways[i].name != gateways[j].name by {
        lemma_no_duplicate(gateways, i, j);
    }
}

proof fn lemma_declared_trimmed(config: AccessConfig, i: int)
    requires
        0 <= i < declared_routes(config).len(),
    ensures
        text::trimmed(declared_routes(config)[i].name) == declared_routes(config)[i].name,
        text::trimmed(declared_routes(config)[i].server_url)
            == declared_routes(config)[i].server_url,
{
    if config.gateways@.len() == 0 {
        let name = "gateway-"@ + text::decimal((i + 1) as nat);
        reveal_strlit("gateway-");
        text::lemma_decimal_last((i + 1) as nat);
        assert(name[0] == 'g');
        assert(name.last() == text::decimal((i + 1) as nat).last());
        text::lemma_trimmed_fixed(name);
        lemma_addresses_trimmed(address_fields(config), i);
    } else {
        text::law_trimmed_idempotent(config.gateways@[i].name@);
        text::law_trimmed_idempotent(config.gateways@[i].server_url@);
    }
}

proof fn lemma_addresses_trimmed(fields: Seq<Option<Seq<char>>>, i: int)
    requires
        0 <= i < distinct_addresses(fields).len(),
    ensures
        text::trimmed(distinct_addresses(fields)[i]) == distinct_addresses(fields)[i],
    decreases fields.len(),
{
    if fields.len() > 0 {
        let urls = distinct_addresses(fields.drop_last());
        if i < urls.len() {
            lemma_addresses_trimmed(fields.drop_last(), i);
        } else {
            text::law_trimmed_idempotent(fields.last()->0);
        }
    }
}

proof fn lemma_no_field_fault(gateways: Seq<GatewayRoute>, i: int)
    requires
        first_field_fault(gateways) is None,
        0 <= i < gateways.len(),
    ensures
        field_fault(gateways[i]) is None,
    decreases gateways.len(),
{
    if i < gateways.len() - 1 {
        lemma_no_field_fault(gateways.drop_last(), i);
    }
}

proof fn lemma_no_duplicate(gateways: Seq<GatewayRoute>, i: int, j: int)
    requires
        first_duplicate(gateways) is None,
        0 <= i < j < gateways.len(),
    ensures
        gateways[i].name != gateways[j].name,
    decreases gateways.len(),
{
    let front = gateways.drop_last();
    if j < gateways.len() - 1 {
        lemma_no_duplicate(front, i, j);
    } else {
        assert(names(front)[i] == gateways[i].name);
    }
}

proof fn lemma_no_listener_fault(
    listeners: Seq<ListenerConfig>,
    gateways: Seq<GatewayRoute>,
    has_default: bool,
    i: int,
)
    requires
        first_listener_fault(listeners, gateways, has_default) is None,
        0 <= i < listeners.len(),
    ensures
        listener_fault(listeners[i], gateways, has_default) is None,
    decreases listeners.len(),
{
    if i < listeners.len() - 1 {
        lemma_no_listener_fault(listeners.drop_last(), gateways, has_default, i);
    }
}

/// Every address that the older settings name, trimmed, is one of the gateways' addresses.
pub proof fn law_legacy_addresses_kept(fields: Seq<Option<Seq<char>>>, i: int)
    requires
        0 <= i < fields.len(),
        fields[i] is Some,
        !text::is_blank(fields[i]->0),
    ensures
        distinct_addresses(fields).contains(text::trimmed(fields[i]->0)),
    decreases fields.len(),
{
    let front = fields.drop_last();
    let urls = distinct_addresses(front);
    let url = text::trimmed(fields[i]->0);
    if i < fields.len() - 1 {
        assert(front[i] == fields[i]);
        law_legacy_addresses_kept(front, i);
        let k = urls.index_of(url);
        assert(with_address(urls, fields.last())[k] == url);
    } else if !urls.contains(url) {
        assert(urls.push(url)[urls.len() as int] == url);
    }
}

/// No two gateways of the older settings have the same address.
pub proof fn law_legacy_addresses_distinct(fields: Seq<Option<Seq<char>>>)
    ensures
        distinct_addresses(fields).no_duplicates(),
    decreases fields.len(),
{
    if fields.len() > 0 {
        law_legacy_addresses_distinct(fields.drop_last());
    }
}

/// In the older settings every gateway has the one token.
pub proof fn law_legacy_token_shared(config: AccessConfig, i: int)
    requires
        resolved(config) is Ok,
        config.gateways@.len() == 0,
        0 <= i < resolved(config)->Ok_0.len(),
    ensures
        Some(resolved(config)->Ok_0[i].token) == optional_text(config.access.token),
{
}

/// The gateways of an accepted list are those of the list, in order, each with its own
/// address and token.
pub proof fn law_listed_gateways_kept(config: AccessConfig, i: int)
    requires
        resolved(config) is Ok,
        config.gateways@.len() > 0,
        0 <= i < config.gateways@.len(),
    ensures
        resolved(config)->Ok_0.len() == config.gateways@.len(),
        resolved(config)->Ok_0[i] == normalized(config.gateways@[i]),
{
}

/// Listeners that name the same gateway share it, whatever else they say.
pub proof fn law_gateway_shared(
    a: ListenerConfig,
    b: ListenerConfig,
    names: Seq<Seq<char>>,
    urls: Seq<Seq<char>>,
    default_url: Option<Seq<char>>,
)
    requires
        text::set_text(a.gateway) is Some,
        text::set_text(a.gateway) == text::set_text(b.gateway),
    ensures
        route_of(a, names, urls, default_url) is Ok <==> route_of(
            b,
            names,
            urls,
            default_url,
        ) is Ok,
        route_of(a, names, urls, default_url) is Ok ==> route_of(a, names, urls, default_url)
            == route_of(b, names, urls, default_url),
{
}

/// Every listener of an accepted configuration has a gateway.
pub proof fn law_listeners_routed(config: AccessConfig, i: int)
    requires
        resolved(config) is Ok,
        0 <= i < config.listeners@.len(),
    ensures
        listener_route(config, resolved(config)->Ok_0, i) matches Ok(k) && 0 <= k < resolved(
            config,
        )->Ok_0.len(),
{
    let gateways = resolved(config)->Ok_0;
    let listener = config.listeners@[i];
    lemma_no_listener_fault(
        config.listeners@,
        gateways,
        has_default_gateway(config, gateways),
        i,
    );
    match (text::set_text(listener.gateway), text::set_text(listener.server_url)) {
        (Some(name), _) => {
            text::lemma_first_position(names(gateways), name);
        },
        (None, Some(url)) => {
            text::lemma_first_position(addresses(gateways), url);
        },
        (None, None) => {
            if gateways.len() != 1 {
                let url = text::set_text(config.access.server_url)->0;
                let fields = address_fields(config);
                assert(fields[0] == optional_text(config.access.server_url));
                law_legacy_addresses_kept(fields, 0);
                let urls = distinct_addresses(fields);
                let k = urls.index_of(url);
                assert(addresses(gateways)[k] == url);
                text::lemma_first_position(addresses(gateways), url);
            }
        },
    }
}

/// A listener of an accepted configuration that names a gateway uses the one of that name.
pub proof fn law_named_gateway_used(config: AccessConfig, i: int)
    requires
        resolved(config) is Ok,
        0 <= i < config.listeners@.len(),
        text::set_text(config.listeners@[i].gateway) is Some,
    ensures
        listener_route(config, resolved(config)->Ok_0, i) matches Ok(k) && resolved(
            config,
        )->Ok_0[k].name == text::set_text(config.listeners@[i].gateway)->0,
{
    let gateways = resolved(config)->Ok_0;
    lemma_no_listener_fault(
        config.listeners@,
        gateways,
        has_default_gateway(config, gateways),
        i,
    );
    text::lemma_first_position(
        names(gateways),
        text::set_text(config.listeners@[i].gateway)->0,
    );
}

/// With one gateway a listener may leave out which one it uses; with more than one in the
/// list of gateways it may not.
pub proof fn law_gateway_may_be_omitted(config: AccessConfig, i: int)
    requires
        0 <= i < config.listeners@.len(),
        text::set_text(config.listeners@[i].gateway) is None,
        text::set_text(config.listeners@[i].server_url) is None,
    ensures
        declared_routes(config).len() == 1 ==> listener_route(
            config,
            declared_routes(config),
            i,
        ) == Ok::<int, ConfigFault>(0),
        config.gateways@.len() > 1 ==> resolved(config) is Err,
{
    let gateways = declared_routes(config);
    if config.gateways@.len() > 1 && resolved(config) is Ok {
        lemma_no_listener_fault(
            config.listeners@,
            gateways,
            has_default_gateway(config, gateways),
            i,
        );
    }
}

/// A listener that names a gateway and an address makes the configuration invalid.
pub proof fn law_both_routes_refused(config: AccessConfig, i: int)
    requires
        0 <= i < config.listeners@.len(),
        text::set_text(config.listeners@[i].gateway) is Some,
        text::set_text(config.listeners@[i].server_url) is Some,
    ensures
        resolved(config) is Err,
{
    let gateways = declared_routes(config);
    if resolved(config) is Ok {
        lemma_no_listener_fault(
            config.listeners@,
            gateways,
            has_default_gateway(config, gateways),
            i,
        );
    }
}

/// The gateways that are listed are those of the configuration, in order: each keeps its
/// token, and its name and address without the white space around them.
pub proof fn law_listed_gateways(
    config: &AccessConfig,
    result: Result<Vec<AccessGatewayConfig>, ConfigError>,
    i: int,
)
    requires
        call_ensures(AccessConfig::gateway_configs, (config,), result),
        result is Ok,
        config.gateways@.len() > 0,
    ensures
        result->Ok_0@.len() == config.gateways@.len(),
        0 <= i < config.gateways@.len() ==> {
            let gateway = result->Ok_0@[i];
            &&& gateway.name@ == text::trimmed(config.gateways@[i].name@)
            &&& gateway.server_url@ == text::trimmed(config.gateways@[i].server_url@)
            &&& gateway.token@ == config.gateways@[i].token@
        },
{
    let gateways = result->Ok_0@;
    assert(routes(gateways).len() == gateways.len());
    if 0 <= i < config.gateways@.len() {
        assert(routes(gateways)[i] == gateways[i]@);
    }
}

/// The addresses that the older settings name: that of the access, those of its list and
/// those of its listeners, without the white space around them, where they are not blank.
pub open spec fn names_address(config: AccessConfig, url: Seq<char>) -> bool {
    ||| text::set_text(config.access.server_url) == Some(url)
    ||| exists|i: int|
        0 <= i < config.access.server_urls@.len() && !text::is_blank(
            (#[trigger] config.access.server_urls@[i])@,
        ) && text::trimmed(config.access.server_urls@[i]@) == url
    ||| exists|i: int|
        0 <= i < config.listeners@.len() && text::set_text(
            (#[trigger] config.listeners@[i]).server_url,
        ) == Some(url)
}

proof fn lemma_addresses_come_from_fields(fields: Seq<Option<Seq<char>>>, url: Seq<char>)
    ensures
        distinct_addresses(fields).contains(url) <==> exists|i: int|
            0 <= i < fields.len() && (#[trigger] fields[i]) is Some && !text::is_blank(
                fields[i]->0,
            ) && text::trimmed(fields[i]->0) == url,
    decreases fields.len(),
{
    if fields.len() > 0 {
        let front = fields.drop_last();
        let urls = distinct_addresses(front);
        lemma_addresses_come_from_fields(front, url);
        if distinct_addresses(fields).contains(url) {
            if urls.contains(url) {
                let i = choose|i: int|
                    0 <= i < front.len() && (#[trigger] front[i]) is Some && !text::is_blank(
                        front[i]->0,
                    ) && text::trimmed(front[i]->0) == url;
                assert(fields[i] == front[i]);
            } else {
                let k = distinct_addresses(fields).index_of(url);
                assert(k == urls.len());
                assert(fields[fields.len() - 1] is Some);
            }
        }
        if exists|i: int|
            0 <= i < fields.len() && (#[trigger] fields[i]) is Some && !text::is_blank(
                fields[i]->0,
            ) && text::trimmed(fields[i]->0) == url {
            let i = choose|i: int|
                0 <= i < fields.len() && (#[trigger] fields[i]) is Some && !text::is_blank(
                    fields[i]->0,
                ) && text::trimmed(fields[i]->0) == url;
            law_legacy_addresses_kept(fields, i);
        }
    } else {
        assert(!distinct_addresses(fields).contains(url));
    }
}

proof fn lemma_named_addresses(config: AccessConfig, url: Seq<char>)
    ensures
        distinct_addresses(address_fields(config)).contains(url) <==> names_address(config, url),
{
    let fields = address_fields(config);
    let listed = config.access.server_urls@.len() as int;
    lemma_addresses_come_from_fields(fields, url);
    if names_address(config, url) {
        if text::set_text(config.access.server_url) == Some(url) {
            assert(fields[0] is Some);
        } else if exists|i: int|
            0 <= i < config.access.server_urls@.len() && !text::is_blank(
                (#[trigger] config.access.server_urls@[i])@,
            ) && text::trimmed(config.access.server_urls@[i]@) == url {
            let i = choose|i: int|
                0 <= i < config.access.server_urls@.len() && !text::is_blank(
                    (#[trigger] config.access.server_urls@[i])@,
                ) && text::trimmed(config.access.server_urls@[i]@) == url;
            assert(fields[i + 1] is Some);
        } else {
            let i = choose|i: int|
                0 <= i < config.listeners@.len() && text::set_text(
                    (#[trigger] config.listeners@[i]).server_url,
                ) == Some(url);
            assert(fields[i + 1 + listed] is Some);
        }
    }
    if exists|i: int|
        0 <= i < fields.len() && (#[trigger] fields[i]) is Some && !text::is_blank(fields[i]->0)
            && text::trimmed(fields[i]->0) == url {
        let i = choose|i: int|
            0 <= i < fields.len() && (#[trigger] fields[i]) is Some && !text::is_blank(
                fields[i]->0,
            ) && text::trimmed(fields[i]->0) == url;
        if i == 0 {
            assert(text::set_text(config.access.server_url) == Some(url));
        } else if i <= listed {
            assert(text::trimmed(config.access.server_urls@[i - 1]@) == url);
        } else {
            assert(text::set_text(config.listeners@[i - 1 - listed].server_url) == Some(url));
        }
    }
}

/// The gateways of the older settings: one for every address that these name and for no
/// other, no address twice, that of the access first; they are numbered from 1 and all have
/// the token of the access.
pub proof fn law_older_gateways(
    config: &AccessConfig,
    result: Result<Vec<AccessGatewayConfig>, ConfigError>,
    url: Seq<char>,
    i: int,
    j: int,
    number: String,
)
    requires
        call_ensures(AccessConfig::gateway_configs, (config,), result),
        result is Ok,
        config.gateways@.len() == 0,
        0 <= i < result->Ok_0@.len(),
        0 <= j < result->Ok_0@.len(),
        call_ensures(text::number, ((i + 1) as u64,), number),
        i < u64::MAX,
    ensures
        (exists|k: int|
            0 <= k < result->Ok_0@.len() && (#[trigger] result->Ok_0@[k]).server_url@ == url)
            <==> names_address(*config, url),
        result->Ok_0@[i].server_url@ == result->Ok_0@[j].server_url@ ==> i == j,
        text::set_text(config.access.server_url) is Some ==> result->Ok_0@[0].server_url@
            == text::set_text(config.access.server_url)->0,
        result->Ok_0@[i].name@ == "gateway-"@ + number@,
        config.access.token is Some && result->Ok_0@[i].token@ == config.access.token->0@,
{
    let gateways = result->Ok_0@;
    let urls = distinct_addresses(address_fields(*config));
    lemma_named_addresses(*config, url);
    law_legacy_addresses_distinct(address_fields(*config));
    assert(routes(gateways).len() == gateways.len());
    assert forall|k: int| 0 <= k < gateways.len() implies (#[trigger] gateways[k]).server_url@
        == urls[k] by {
        assert(routes(gateways)[k] == gateways[k]@);
    }
    if urls.contains(url) {
        let k = urls.index_of(url);
        assert(gateways[k].server_url@ == url);
    }
    if exists|k: int| 0 <= k < gateways.len() && (#[trigger] gateways[k]).server_url@ == url {
        let k = choose|k: int|
            0 <= k < gateways.len() && (#[trigger] gateways[k]).server_url@ == url;
        assert(urls[k] == url);
    }
    assert(routes(gateways)[i] == gateways[i]@);
    if text::set_text(config.access.server_url) is Some {
        lemma_first_address(address_fields(*config));
    }
}

proof fn lemma_first_address(fields: Seq<Option<Seq<char>>>)
    requires
        fields.len() > 0,
        fields[0] is Some,
        !text::is_blank(fields[0]->0),
    ensures
        distinct_addresses(fields).len() > 0,
        distinct_addresses(fields)[0] == text::trimmed(fields[0]->0),
    decreases fields.len(),
{
    let front = fields.drop_last();
    if fields.len() == 1 {
        assert(distinct_addresses(front) =~= Seq::<Seq<char>>::empty());
    } else {
        assert(front[0] == fields[0]);
        lemma_first_address(front);
    }
}

/// The older settings keep the order in which addresses are first named: naming one more
/// place behind the others changes nothing of what came before.
pub proof fn law_addresses_in_order(fields: Seq<Option<Seq<char>>>, more: Option<Seq<char>>, i: int)
    requires
        0 <= i < distinct_addresses(fields).len(),
    ensures
        i < distinct_addresses(fields.push(more)).len(),
        distinct_addresses(fields.push(more))[i] == distinct_addresses(fields)[i],
{
    assert(fields.push(more).drop_last() =~= fields);
}

/// Whether a listener can be served by some gateways: it does not name both a gateway and an
/// address, what it names is there, and where it names nothing there is only one gateway or a
/// default address.
pub open spec fn can_be_served(
    listener: ListenerConfig,
    gateways: Seq<AccessGatewayConfig>,
    default_address: bool,
) -> bool {
    let name = text::set_text(listener.gateway);
    let url = text::set_text(listener.server_url);
    &&& !(name is Some && url is Some)
    &&& name is Some ==> exists|k: int|
        0 <= k < gateways.len() && (#[trigger] gateways[k]).name@ == name->0
    &&& url is Some ==> exists|k: int|
        0 <= k < gateways.len() && (#[trigger] gateways[k]).server_url@ == url->0
    &&& name is None && url is None ==> gateways.len() == 1 || default_address
}

/// An accepted configuration has at least one gateway; each has a name and an address without
/// white space around them and a token that is not blank; no two have the same name; and
/// every listener can be served.
pub proof fn law_accepted_configuration(
    config: &AccessConfig,
    result: Result<Vec<AccessGatewayConfig>, ConfigError>,
    i: int,
    j: int,
    l: int,
)
    requires
        call_ensures(AccessConfig::gateway_configs, (config,), result),
        result is Ok,
    ensures
        result->Ok_0@.len() > 0,
        0 <= i < result->Ok_0@.len() ==> {
            let gateway = result->Ok_0@[i];
            &&& gateway.name@.len() > 0
            &&& gateway.server_url@.len() > 0
            &&& !text::is_blank(gateway.name@)
            &&& !text::is_blank(gateway.server_url@)
            &&& !text::is_blank(gateway.token@)
        },
        0 <= i < j < result->Ok_0@.len() ==> result->Ok_0@[i].name@ != result->Ok_0@[j].name@,
        0 <= l < config.listeners@.len() ==> can_be_served(
            config.listeners@[l],
            result->Ok_0@,
            config.gateways@.len() == 0 && text::set_text(config.access.server_url) is Some,
        ),
{
    let gateways = result->Ok_0@;
    let all = routes(gateways);
    law_resolved_gateways(*config);
    assert(all.len() == gateways.len());
    assert forall|k: int| 0 <= k < gateways.len() implies all[k] == (#[trigger] gateways[k])@ by {}
    if 0 <= i < gateways.len() {
        assert(all[i] == gateways[i]@);
    }
    if 0 <= i < j < gateways.len() {
        assert(all[i].name != all[j].name);
    }
    if 0 <= l < config.listeners@.len() {
        let listener = config.listeners@[l];
        lemma_no_listener_fault(
            config.listeners@,
            all,
            has_default_gateway(*config, all),
            l,
        );
        match (text::set_text(listener.gateway), text::set_text(listener.server_url)) {
            (Some(name), None) => {
                let k = names(all).index_of(name);
                assert(gateways[k].name@ == name);
            },
            (None, Some(url)) => {
                let k = addresses(all).index_of(url);
                assert(gateways[k].server_url@ == url);
            },
            _ => {},
        }
    }
}

proof fn lemma_field_faults(gateways: Seq<GatewayRoute>)
    requires
        forall|i: int| 0 <= i < gateways.len() ==> field_fault(#[trigger] gateways[i]) is None,
    ensures
        first_field_fault(gateways) is None,
    decreases gateways.len(),
{
    if gateways.len() > 0 {
        let front = gateways.drop_last();
        assert forall|i: int| 0 <= i < front.len() implies field_fault(
            #[trigger] front[i],
        ) is None by {
            assert(front[i] == gateways[i]);
        }
        lemma_field_faults(front);
        assert(gateways[gateways.len() - 1] == gateways.last());
    }
}

proof fn lemma_duplicates(gateways: Seq<GatewayRoute>)
    requires
        forall|i: int, j: int|
            0 <= i < j < gateways.len() ==> (#[trigger] gateways[i]).name != (
            #[trigger] gateways[j]).name,
    ensures
        first_duplicate(gateways) is None,
    decreases gateways.len(),
{
    if gateways.len() > 0 {
        let front = gateways.drop_last();
        lemma_duplicates(front);
        if names(front).contains(gateways.last().name) {
            let k = names(front).index_of(gateways.last().name);
            assert(gateways[k].name == gateways[gateways.len() - 1].name);
        }
    }
}

proof fn lemma_listener_faults(
    listeners: Seq<ListenerConfig>,
    gateways: Seq<GatewayRoute>,
    has_default: bool,
)
    requires
        forall|i: int|
            0 <= i < listeners.len() ==> listener_fault(
                #[trigger] listeners[i],
                gateways,
                has_default,
            ) is None,
    ensures
        first_listener_fault(listeners, gateways, has_default) is None,
    decreases listeners.len(),
{
    if listeners.len() > 0 {
        let front = listeners.drop_last();
        assert forall|i: int| 0 <= i < front.len() implies listener_fault(
            #[trigger] front[i],
            gateways,
            has_default,
        ) is None by {
            assert(front[i] == listeners[i]);
        }
        lemma_listener_faults(front, gateways, has_default);
        assert(listeners[listeners.len() - 1] == listeners.last());
    }
}

/// Whether a listener can be served by the gateways of a list.
pub open spec fn can_be_served_by_list(
    listener: ListenerConfig,
    gateways: Seq<AccessGatewayConfig>,
) -> bool {
    let name = text::set_text(listener.gateway);
    let url = text::set_text(listener.server_url);
    &&& !(name is Some && url is Some)
    &&& name is Some ==> exists|k: int|
        0 <= k < gateways.len() && text::trimmed((#[trigger] gateways[k]).name@) == name->0
    &&& url is Some ==> exists|k: int|
        0 <= k < gateways.len() && text::trimmed((#[trigger] gateways[k]).server_url@) == url->0
    &&& name is None && url is None ==> gateways.len() == 1
}

/// A configuration with a list of gateways is accepted wherever each of these has a name, an
/// address and a token that are not blank, no two have the same name, and every listener can
/// be served.
pub proof fn law_good_configuration_accepted(
    config: &AccessConfig,
    result: Result<Vec<AccessGatewayConfig>, ConfigError>,
)
    requires
        call_ensures(AccessConfig::gateway_configs, (config,), result),
        config.gateways@.len() > 0,
        forall|i: int|
            0 <= i < config.gateways@.len() ==> {
                &&& !text::is_blank((#[trigger] config.gateways@[i]).name@)
                &&& !text::is_blank(config.gateways@[i].server_url@)
                &&& !text::is_blank(config.gateways@[i].token@)
            },
        forall|i: int, j: int|
            0 <= i < j < config.gateways@.len() ==> text::trimmed(
                (#[trigger] config.gateways@[i]).name@,
            ) != text::trimmed((#[trigger] config.gateways@[j]).name@),
        forall|l: int|
            0 <= l < config.listeners@.len() ==> can_be_served_by_list(
                #[trigger] config.listeners@[l],
                config.gateways@,
            ),
    ensures
        result is Ok,
{
    let all = declared_routes(*config);
    assert forall|i: int| 0 <= i < all.len() implies field_fault(#[trigger] all[i]) is None by {
        assert(all[i] == normalized(config.gateways@[i]));
    }
    lemma_field_faults(all);
    assert forall|i: int, j: int| 0 <= i < j < all.len() implies (#[trigger] all[i]).name != (
    #[trigger] all[j]).name by {
        assert(all[i] == normalized(config.gateways@[i]));
        assert(all[j] == normalized(config.gateways@[j]));
    }
    lemma_duplicates(all);
    let has_default = has_default_gateway(*config, all);
    assert forall|l: int| 0 <= l < config.listeners@.len() implies listener_fault(
        #[trigger] config.listeners@[l],
        all,
        has_default,
    ) is None by {
        let listener = config.listeners@[l];
        assert(can_be_served_by_list(listener, config.gateways@));
        match (text::set_text(listener.gateway), text::set_text(listener.server_url)) {
            (Some(name), None) => {
                let k = choose|k: int|
                    0 <= k < config.gateways@.len() && text::trimmed(
                        (#[trigger] config.gateways@[k]).name@,
                    ) == name;
                assert(names(all)[k] == name);
            },
            (None, Some(url)) => {
                let k = choose|k: int|
                    0 <= k < config.gateways@.len() && text::trimmed(
                        (#[trigger] config.gateways@[k]).server_url@,
                    ) == url;
                assert(addresses(all)[k] == url);
            },
            _ => {},
        }
    }
    lemma_listener_faults(config.listeners@, all, has_default);
}

/// The older settings are accepted wherever there is a token that is not blank, at least one
/// address is named, and every listener gives an address, or names one of the gateways by its
/// number, or says nothing where there is a default address or only one gateway.
pub proof fn law_good_older_settings_accepted(
    config: &AccessConfig,
    result: Result<Vec<AccessGatewayConfig>, ConfigError>,
    url: Seq<char>,
)
    requires
        call_ensures(AccessConfig::gateway_configs, (config,), result),
        config.gateways@.len() == 0,
        text::set_text(config.access.token) is Some,
        names_address(*config, url),
        forall|l: int|
            0 <= l < config.listeners@.len() ==> {
                let name = text::set_text((#[trigger] config.listeners@[l]).gateway);
                let address = text::set_text(config.listeners@[l].server_url);
                let count = distinct_addresses(address_fields(*config)).len();
                &&& !(name is Some && address is Some)
                &&& name is Some ==> exists|k: nat|
                    k < count && name->0 == "gateway-"@ + #[trigger] text::decimal(k + 1)
                &&& name is None && address is None ==> count == 1 || text::set_text(
                    config.access.server_url,
                ) is Some
            },
    ensures
        result is Ok,
{
    let all = declared_routes(*config);
    let fields = address_fields(*config);
    let urls = distinct_addresses(fields);
    lemma_named_addresses(*config, url);
    assert(urls.len() > 0);
    assert forall|i: int| 0 <= i < all.len() implies field_fault(#[trigger] all[i]) is None by {
        reveal_strlit("gateway-");
        lemma_address_not_empty(fields, i);
    }
    lemma_field_faults(all);
    assert forall|i: int, j: int| 0 <= i < j < all.len() implies (#[trigger] all[i]).name != (
    #[trigger] all[j]).name by {
        let a = text::decimal((i + 1) as nat);
        let b = text::decimal((j + 1) as nat);
        text::lemma_number_read((i + 1) as nat);
        text::lemma_number_read((j + 1) as nat);
        reveal_strlit("gateway-");
        assert(("gateway-"@ + a).skip(8) =~= a);
        assert(("gateway-"@ + b).skip(8) =~= b);
    }
    lemma_duplicates(all);
    let has_default = has_default_gateway(*config, all);
    assert forall|l: int| 0 <= l < config.listeners@.len() implies listener_fault(
        #[trigger] config.listeners@[l],
        all,
        has_default,
    ) is None by {
        let listener = config.listeners@[l];
        match text::set_text(listener.server_url) {
            Some(address) => {
                lemma_named_addresses(*config, address);
                assert(names_address(*config, address));
                let k = urls.index_of(address);
                assert(addresses(all)[k] == address);
            },
            None => {},
        }
        match text::set_text(listener.gateway) {
            Some(name) => {
                let k = choose|k: nat|
                    k < urls.len() && name == "gateway-"@ + #[trigger] text::decimal(k + 1);
                assert(names(all)[k as int] == name);
            },
            None => {},
        }
    }
    lemma_listener_faults(config.listeners@, all, has_default);
}

proof fn lemma_address_not_empty(fields: Seq<Option<Seq<char>>>, i: int)
    requires
        0 <= i < distinct_addresses(fields).len(),
    ensures
        distinct_addresses(fields)[i].len() > 0,
    decreases fields.len(),
{
    if fields.len() > 0 {
        let urls = distinct_addresses(fields.drop_last());
        if i < urls.len() {
            lemma_address_not_empty(fields.drop_last(), i);
        }
    }
}

/// Without a list of gateways and without a token a configuration is refused for the token;
/// with a list, for the first gateway that has no name, no address or no token, in this order.
pub proof fn law_refused_configuration(
    config: &AccessConfig,
    result: Result<Vec<AccessGatewayConfig>, ConfigError>,
    i: int,
)
    requires
        call_ensures(AccessConfig::gateway_configs, (config,), result),
    ensures
        config.gateways@.len() == 0 && text::set_text(config.access.token) is None ==> (
        result matches Err(ConfigError::MissingToken)),
        config.gateways@.len() == 0 && text::set_text(config.access.token) is Some && (
        forall|url: Seq<char>| !#[trigger] names_address(*config, url)) ==> (
        result matches Err(ConfigError::NoGateway)),
        ({
            let gateways = config.gateways@;
            0 <= i < gateways.len() && (forall|j: int|
                0 <= j < i ==> !text::is_blank((#[trigger] gateways[j]).name@) && !text::is_blank(
                    gateways[j].server_url@,
                ) && !text::is_blank(gateways[j].token@)) ==> {
                let name = text::trimmed(gateways[i].name@);
                &&& text::is_blank(gateways[i].name@) ==> (result matches Err(
                    ConfigError::EmptyName,
                ))
                &&& !text::is_blank(gateways[i].name@) && text::is_blank(
                    gateways[i].server_url@,
                ) ==> (result matches Err(ConfigError::EmptyServerUrl { gateway }) && gateway@
                    == name)
                &&& !text::is_blank(gateways[i].name@) && !text::is_blank(
                    gateways[i].server_url@,
                ) && text::is_blank(gateways[i].token@) ==> (result matches Err(
                    ConfigError::EmptyToken { gateway },
                ) && gateway@ == name)
            }
        }),
{
    let all = declared_routes(*config);
    if config.gateways@.len() == 0 && text::set_text(config.access.token) is Some && (forall|
        url: Seq<char>,
    |
        !#[trigger] names_address(*config, url)) {
        let urls = distinct_addresses(address_fields(*config));
        if urls.len() > 0 {
            lemma_named_addresses(*config, urls[0]);
            assert(names_address(*config, urls[0]));
        }
    }
    let gateways = config.gateways@;
    if 0 <= i < gateways.len() && (forall|j: int|
        0 <= j < i ==> !text::is_blank((#[trigger] gateways[j]).name@) && !text::is_blank(
            gateways[j].server_url@,
        ) && !text::is_blank(gateways[j].token@)) {
        assert(all[i] == normalized(gateways[i]));
        assert forall|j: int| 0 <= j < i implies field_fault(#[trigger] all[j]) is None by {
            assert(all[j] == normalized(gateways[j]));
        }
        if field_fault(all[i]) is Some {
            lemma_first_fault(all, i);
        }
    }
}

proof fn lemma_first_fault(gateways: Seq<GatewayRoute>, i: int)
    requires
        0 <= i < gateways.len(),
        forall|j: int| 0 <= j < i ==> field_fault(#[trigger] gateways[j]) is None,
        field_fault(gateways[i]) is Some,
    ensures
        first_field_fault(gateways) == field_fault(gateways[i]),
    decreases gateways.len(),
{
    let front = gateways.drop_last();
    if i < front.len() {
        assert forall|j: int| 0 <= j < i implies field_fault(#[trigger] front[j]) is None by {
            assert(front[j] == gateways[j]);
        }
        lemma_first_fault(front, i);
    } else {
        assert forall|j: int| 0 <= j < front.len() implies field_fault(
            #[trigger] front[j],
        ) is None by {
            assert(front[j] == gateways[j]);
        }
        lemma_field_faults(front);
    }
}

/// A listener that names both a gateway and an address makes a configuration invalid, and so
/// does one that names what is not there.
pub proof fn law_unserved_listener_refused(
    config: &AccessConfig,
    result: Result<Vec<AccessGatewayConfig>, ConfigError>,
    l: int,
)
    requires
        call_ensures(AccessConfig::gateway_configs, (config,), result),
        config.gateways@.len() > 0,
        0 <= l < config.listeners@.len(),
        !can_be_served_by_list(config.listeners@[l], config.gateways@),
    ensures
        result is Err,
{
    if result is Ok {
        let gateways = result->Ok_0@;
        let listener = config.listeners@[l];
        law_accepted_configuration(config, result, 0, 0, l);
        assert forall|k: int| 0 <= k < gateways.len() implies (#[trigger] gateways[k]).name@
            == text::trimmed(config.gateways@[k].name@) && gateways[k].server_url@
            == text::trimmed(config.gateways@[k].server_url@) by {
            law_listed_gateways(config, result, k);
        }
        law_listed_gateways(config, result, 0);
        match text::set_text(listener.gateway) {
            Some(name) => {
                let k = choose|k: int|
                    0 <= k < gateways.len() && (#[trigger] gateways[k]).name@ == name;
                assert(text::trimmed(config.gateways@[k].name@) == name);
            },
            None => {},
        }
        match text::set_text(listener.server_url) {
            Some(url) => {
                let k = choose|k: int|
                    0 <= k < gateways.len() && (#[trigger] gateways[k]).server_url@ == url;
                assert(text::trimmed(config.gateways@[k].server_url@) == url);
            },
            None => {},
        }
    }
}

/// The addresses of a configuration are those of its gateways, in order; a configuration that
/// is refused has none.
pub proof fn law_server_urls(
    config: &AccessConfig,
    urls: Vec<String>,
    result: Result<Vec<AccessGatewayConfig>, ConfigError>,
    i: int,
)
    requires
        call_ensures(AccessConfig::server_urls, (config,), urls),
        call_ensures(AccessConfig::gateway_configs, (config,), result),
    ensures
        result is Err ==> urls@.len() == 0,
        result matches Ok(gateways) ==> urls@.len() == gateways@.len(),
        result is Ok && 0 <= i < urls@.len() ==> urls@[i]@ == result->Ok_0@[i].server_url@,
{
    assert(text::texts(urls@).len() == urls@.len());
    if result is Ok {
        let gateways = result->Ok_0@;
        assert(addresses(routes(gateways)).len() == gateways.len());
        if 0 <= i < urls@.len() {
            assert(text::texts(urls@)[i] == urls@[i]@);
            assert(addresses(routes(gateways))[i] == gateways[i].server_url@);
        }
    }
}

/// The target of a listener is what the listener is set to, in every respect, and is told to
/// the gateway under the listener's name.
pub proof fn law_target_of_listener(listener: &ListenerConfig, name: String, target: TargetConfig)
    requires
        call_ensures(ListenerConfig::target_name, (listener,), name),
        call_ensures(ListenerConfig::target_config, (listener,), target),
    ensures
        name@ == listener.name@,
        target.mode == listener.mode,
        target.host@ == listener.host@,
        target.port == listener.port,
        target.scheme == listener.scheme,
        target.accept_invalid_certs == listener.accept_invalid_certs,
        target.rewrite_location == listener.rewrite_location,
        target.rewrite_cookie == listener.rewrite_cookie,
{
}

/// Where the configuration does not say, tunnels are accepted at `/tunnel`, eight connections
/// are kept to each gateway, and the default address is that of the access, where it is set.
pub proof fn law_defaults(
    path: String,
    size: usize,
    config: &AccessConfig,
    url: Option<String>,
    set: Option<String>,
)
    requires
        call_ensures(default_tunnel_path, (), path),
        call_ensures(default_gateway_pool_size, (), size),
        call_ensures(default_server_url, (config,), url),
        call_ensures(text::set_value, (&config.access.server_url,), set),
    ensures
        path@ == "/tunnel"@,
        size == 8,
        url is Some <==> set is Some,
        url matches Some(address) ==> address@ == set->0@,
{
}

/// A list of gateways of which each has a name, an address and a token that are not blank.
pub open spec fn is_complete_list(gateways: Seq<AccessGatewayConfig>) -> bool {
    forall|i: int|
        0 <= i < gateways.len() ==> {
            &&& !text::is_blank((#[trigger] gateways[i]).name@)
            &&& !text::is_blank(gateways[i].server_url@)
            &&& !text::is_blank(gateways[i].token@)
        }
}

/// Whether no two of the first gateways of a list have the same name.
pub open spec fn names_differ(gateways: Seq<AccessGatewayConfig>, count: int) -> bool {
    forall|i: int, j: int|
        0 <= i < j < count ==> text::trimmed((#[trigger] gateways[i]).name@) != text::trimmed(
            (#[trigger] gateways[j]).name@,
        )
}

proof fn lemma_complete_list(config: AccessConfig)
    requires
        config.gateways@.len() > 0,
        is_complete_list(config.gateways@),
    ensures
        first_field_fault(declared_routes(config)) is None,
{
    let all = declared_routes(config);
    assert forall|i: int| 0 <= i < all.len() implies field_fault(#[trigger] all[i]) is None by {
        assert(all[i] == normalized(config.gateways@[i]));
    }
    lemma_field_faults(all);
}

proof fn lemma_first_duplicate(gateways: Seq<GatewayRoute>, i: int, j: int)
    requires
        0 <= i < j < gateways.len(),
        gateways[i].name == gateways[j].name,
        forall|a: int, b: int|
            0 <= a < b < j ==> (#[trigger] gateways[a]).name != (#[trigger] gateways[b]).name,
    ensures
        first_duplicate(gateways) == Some(ConfigFault::DuplicateName { gateway: gateways[j].name }),
    decreases gateways.len(),
{
    let front = gateways.drop_last();
    if j < front.len() {
        assert forall|a: int, b: int| 0 <= a < b < j implies (#[trigger] front[a]).name != (
        #[trigger] front[b]).name by {
            assert(gateways[a].name != gateways[b].name);
        }
        lemma_first_duplicate(front, i, j);
    } else {
        assert forall|a: int, b: int| 0 <= a < b < front.len() implies (#[trigger] front[a]).name
            != (#[trigger] front[b]).name by {
            assert(gateways[a].name != gateways[b].name);
        }
        lemma_duplicates(front);
        assert(names(front)[i] == gateways[j].name);
    }
}

/// Of a complete list the first name that an earlier gateway has as well is refused.
pub proof fn law_duplicate_name_refused(
    config: &AccessConfig,
    result: Result<Vec<AccessGatewayConfig>, ConfigError>,
    i: int,
    j: int,
)
    requires
        call_ensures(AccessConfig::gateway_configs, (config,), result),
        is_complete_list(config.gateways@),
        0 <= i < j < config.gateways@.len(),
        text::trimmed(config.gateways@[i].name@) == text::trimmed(config.gateways@[j].name@),
        names_differ(config.gateways@, j),
    ensures
        result matches Err(ConfigError::DuplicateName { gateway }) && gateway@ == text::trimmed(
            config.gateways@[j].name@,
        ),
{
    let all = declared_routes(*config);
    lemma_complete_list(*config);
    assert(all[i] == normalized(config.gateways@[i]));
    assert(all[j] == normalized(config.gateways@[j]));
    assert forall|a: int, b: int| 0 <= a < b < j implies (#[trigger] all[a]).name != (
    #[trigger] all[b]).name by {
        assert(all[a] == normalized(config.gateways@[a]));
        assert(all[b] == normalized(config.gateways@[b]));
        assert(text::trimmed(config.gateways@[a].name@) != text::trimmed(
            config.gateways@[b].name@,
        ));
    }
    lemma_first_duplicate(all, i, j);
}

proof fn lemma_served_by_list(config: AccessConfig, l: int)
    requires
        config.gateways@.len() > 0,
        0 <= l < config.listeners@.len(),
    ensures
        listener_fault(
            config.listeners@[l],
            declared_routes(config),
            has_default_gateway(config, declared_routes(config)),
        ) is None <==> can_be_served_by_list(config.listeners@[l], config.gateways@),
{
    let all = declared_routes(config);
    let listener = config.listeners@[l];
    let gateways = config.gateways@;
    assert forall|k: int| 0 <= k < all.len() implies (#[trigger] all[k]) == normalized(
        gateways[k],
    ) by {}
    match (text::set_text(listener.gateway), text::set_text(listener.server_url)) {
        (Some(name), None) => {
            if names(all).contains(name) {
                let k = names(all).index_of(name);
                assert(text::trimmed(gateways[k].name@) == name);
            }
            if can_be_served_by_list(listener, gateways) {
                let k = choose|k: int|
                    0 <= k < gateways.len() && text::trimmed((#[trigger] gateways[k]).name@)
                        == name;
                assert(names(all)[k] == name);
            }
        },
        (None, Some(url)) => {
            if addresses(all).contains(url) {
                let k = addresses(all).index_of(url);
                assert(text::trimmed(gateways[k].server_url@) == url);
            }
            if can_be_served_by_list(listener, gateways) {
                let k = choose|k: int|
                    0 <= k < gateways.len() && text::trimmed((#[trigger] gateways[k]).server_url@)
                        == url;
                assert(addresses(all)[k] == url);
            }
        },
        _ => {},
    }
}

proof fn lemma_first_listener_fault(
    listeners: Seq<ListenerConfig>,
    gateways: Seq<GatewayRoute>,
    has_default: bool,
    l: int,
)
    requires
        0 <= l < listeners.len(),
        forall|j: int|
            0 <= j < l ==> listener_fault(#[trigger] listeners[j], gateways, has_default) is None,
        listener_fault(listeners[l], gateways, has_default) is Some,
    ensures
        first_listener_fault(listeners, gateways, has_default) == listener_fault(
            listeners[l],
            gateways,
            has_default,
        ),
    decreases listeners.len(),
{
    let front = listeners.drop_last();
    assert forall|j: int| 0 <= j < l && j < front.len() implies listener_fault(
        #[trigger] front[j],
        gateways,
        has_default,
    ) is None by {
        assert(front[j] == listeners[j]);
    }
    if l < front.len() {
        lemma_first_listener_fault(front, gateways, has_default, l);
    } else {
        lemma_listener_faults(front, gateways, has_default);
    }
}

/// Of a good list of gateways the first listener that cannot be served is refused by its name:
/// for naming both a gateway and an address, for what it names that is not there, or for
/// naming nothing where there are several.
pub proof fn law_listener_refused(
    config: &AccessConfig,
    result: Result<Vec<AccessGatewayConfig>, ConfigError>,
    l: int,
)
    requires
        call_ensures(AccessConfig::gateway_configs, (config,), result),
        config.gateways@.len() > 0,
        is_complete_list(config.gateways@),
        names_differ(config.gateways@, config.gateways@.len() as int),
        0 <= l < config.listeners@.len(),
        !can_be_served_by_list(config.listeners@[l], config.gateways@),
        forall|j: int|
            0 <= j < l ==> can_be_served_by_list(
                #[trigger] config.listeners@[j],
                config.gateways@,
            ),
    ensures
        ({
            let listener = config.listeners@[l];
            match (text::set_text(listener.gateway), text::set_text(listener.server_url)) {
                (Some(_), Some(_)) => result matches Err(ConfigError::BothRoutes {
                    listener: refused,
                }) && refused@ == listener.name@,
                (Some(name), None) => result matches Err(ConfigError::UnavailableGateway {
                    listener: refused,
                    gateway,
                }) && refused@ == listener.name@ && gateway@ == name,
                (None, Some(url)) => result matches Err(ConfigError::UnavailableGateway {
                    listener: refused,
                    gateway,
                }) && refused@ == listener.name@ && gateway@ == url,
                (None, None) => result matches Err(ConfigError::NoRoute { listener: refused })
                    && refused@ == listener.name@,
            }
        }),
{
    let all = declared_routes(*config);
    let has_default = has_default_gateway(*config, all);
    lemma_complete_list(*config);
    assert forall|i: int, j: int| 0 <= i < j < all.len() implies (#[trigger] all[i]).name != (
    #[trigger] all[j]).name by {
        assert(all[i] == normalized(config.gateways@[i]));
        assert(all[j] == normalized(config.gateways@[j]));
        assert(text::trimmed(config.gateways@[i].name@) != text::trimmed(
            config.gateways@[j].name@,
        ));
    }
    lemma_duplicates(all);
    lemma_served_by_list(*config, l);
    assert forall|j: int| 0 <= j < l implies listener_fault(
        #[trigger] config.listeners@[j],
        all,
        has_default,
    ) is None by {
        assert(can_be_served_by_list(config.listeners@[j], config.gateways@));
        lemma_served_by_list(*config, j);
    }
    lemma_first_listener_fault(config.listeners@, all, has_default, l);
}

/// What errors of a configuration are told as.
pub proof fn law_error_texts(error: ConfigError, text: String)
    requires
        call_ensures(ConfigError::message, (&error,), text),
    ensures
        error is MissingToken ==> text@ == "legacy access config requires access.token"@,
        error is NoGateway ==> text@ == "access config requires at least one gateway"@,
        error is EmptyName ==> text@ == "gateway name must not be empty"@,
        error matches ConfigError::EmptyServerUrl { gateway } ==> text@ == "gateway '"@ + gateway@
            + "' server_url must not be empty"@,
        error matches ConfigError::EmptyToken { gateway } ==> text@ == "gateway '"@ + gateway@
            + "' token must not be empty"@,
        error matches ConfigError::DuplicateName { gateway } ==> text@
            == "duplicate gateway name '"@ + gateway@ + "'"@,
        error matches ConfigError::BothRoutes { listener } ==> text@ == "listener '"@ + listener@
            + "' must not set both gateway and server_url"@,
        error matches ConfigError::UnavailableGateway { listener, gateway } ==> text@
            == "listener '"@ + listener@ + "' references unavailable gateway '"@ + gateway@ + "'"@,
        error matches ConfigError::NoRoute { listener } ==> text@ == "listener '"@ + listener@
            + "' must set gateway or server_url"@,
{
}

/// The older settings are read in this order: the address of the access, those of its list,
/// and those of its listeners; and the gateways come in the order in which their addresses
/// are first named.
pub proof fn law_older_addresses_read_in_order(
    config: &AccessConfig,
    result: Result<Vec<AccessGatewayConfig>, ConfigError>,
    i: int,
    l: int,
    k: int,
)
    requires
        call_ensures(AccessConfig::gateway_configs, (config,), result),
        result is Ok,
        config.gateways@.len() == 0,
        0 <= k < result->Ok_0@.len(),
    ensures
        ({
            let fields = address_fields(*config);
            let listed = config.access.server_urls@.len();
            &&& fields.len() == 1 + listed + config.listeners@.len()
            &&& fields[0] == match config.access.server_url {
                Some(url) => Some(url@),
                None => None,
            }
            &&& 0 <= i < listed ==> fields[1 + i] == Some(config.access.server_urls@[i]@)
            &&& 0 <= l < config.listeners@.len() ==> fields[1 + listed + l]
                == match config.listeners@[l].server_url {
                Some(url) => Some(url@),
                None => None,
            }
            &&& result->Ok_0@.len() == distinct_addresses(fields).len()
            &&& result->Ok_0@[k].server_url@ == distinct_addresses(fields)[k]
        }),
{
    let gateways = result->Ok_0@;
    assert(routes(gateways).len() == gateways.len());
    assert(routes(gateways)[k] == gateways[k]@);
}

} // verus!
