use mcp_gateway::capabilities::{
    merge_capabilities, PromptsCapability, ResourcesCapability, ServerCapabilities,
    ToolsCapability,
};
use mcp_gateway::completion::{complete, suggest, CompleteRequest, Reference};
use mcp_gateway::connect::{transport_config, BackendUrl, TransportConfig};
use mcp_gateway::error::{ErrorData, INTERNAL_ERROR};
use mcp_gateway::service::{LoggingLevel, McpService};
use mcp_gateway::session::{
    initialize, Backend, ConnectedSession, Connection, InitializeResult, InitializeStep,
    SessionStep, UserSession, ValidatedSession,
};
use mcp_gateway::transport::{
    BackendTransportKey, BackendTransportService, ServiceHolder, SessionId, TransportTable,
};

fn url(text: &str) -> BackendUrl {
    BackendUrl::parse(text).unwrap()
}

fn host_header(text: &str) -> Option<String> {
    transport_config(&url(text)).host_header.map(|bytes| String::from_utf8(bytes).unwrap())
}

#[test]
fn urls_are_taken_apart() {
    assert_eq!(
        Some(BackendUrl {
            scheme: "https".into(),
            host: Some("example.com".into()),
            port: Some(8443),
            text: "https://example.com:8443/mcp".into(),
        }),
        BackendUrl::parse("HTTPS://Example.COM:8443/a/../mcp")
    );
    assert_eq!(None, BackendUrl::parse("not a url"));
    assert_eq!(None, url("https://example.com:443").port);
    assert_eq!(None, url("data:text/plain,x").host);
}

#[test]
fn https_backends_get_a_host_header() {
    assert_eq!(Some("example.com:8443".into()), host_header("https://example.com:8443/mcp"));
    assert_eq!(Some("example.com".into()), host_header("https://example.com:443/mcp"));
    assert_eq!(Some("[::1]:1".into()), host_header("https://[::1]:1/"));
    assert_eq!(Some("h:65535".into()), host_header("https://h:65535/"));
    assert_eq!(Some("h:0".into()), host_header("https://h:0/"));
    assert_eq!(None, host_header("http://example.com:8080/mcp"));
    assert_eq!(None, host_header("data:text/plain,x"));
}

#[test]
fn hosts_that_fit_no_header_are_left_out() {
    let config = |host: &str| {
        transport_config(&BackendUrl {
            scheme: "https".into(),
            host: Some(host.into()),
            port: None,
            text: "https://x/".into(),
        })
    };
    assert_eq!(TransportConfig { uri: "https://x/".into(), host_header: None }, config("a\nb"));
    assert_eq!(None, config("a\u{7f}b").host_header);
    assert_eq!(Some(b"a\tb".to_vec()), config("a\tb").host_header);
    assert_eq!(Some("\u{e9}".as_bytes().to_vec()), config("\u{e9}").host_header);
}

#[test]
fn keys_come_from_names_and_sessions() {
    let session = SessionId { session_id: "s".into() };
    let key = BackendTransportKey::from((&"b".to_string(), &session));
    assert_eq!(BackendTransportKey::from(("b", "s")), key);
    assert_ne!(BackendTransportKey::from(("s", "b")), key);
    assert!(BackendTransportKey::from(("a", "z")) < key);
}

#[test]
fn holders_and_transports_keep_their_parts() {
    let holder = ServiceHolder::new("b".into(), Some(4));
    assert_eq!(("b".to_string(), Some(4)), (holder.name, holder.running_service));
    let transport = BackendTransportService::from((Some("tools"), None::<u8>));
    assert_eq!((Some("tools"), None), (transport.capabilities, transport.service));
}

#[test]
fn tables_replace_entries_of_the_same_key() {
    let mut table: TransportTable<u8, ()> = TransportTable::new();
    let key = |b: &str, s: &str| BackendTransportKey::from((b, s));
    assert!(table.get(&key("b", "s")).is_none());
    table.insert(key("b", "s"), BackendTransportService::from((None, Some(1))));
    table.insert(key("b", "t"), BackendTransportService::from((None, Some(2))));
    table.insert(key("b", "s"), BackendTransportService::from((None, Some(3))));
    assert_eq!(Some(3), table.get(&key("b", "s")).unwrap().service);
    assert_eq!(Some(2), table.get(&key("b", "t")).unwrap().service);
    assert!(table.get(&key("c", "s")).is_none());
}

#[test]
fn tables_forget_removed_entries() {
    let mut table: TransportTable<u8, ()> = TransportTable::new();
    let names = ["a", "b", "c"];
    for (service, name) in [1, 2, 3].into_iter().zip(names) {
        let key = BackendTransportKey::from((name, "s"));
        table.insert(key.clone(), BackendTransportService::from((None, Some(service))));
    }
    let key = |name: &str| BackendTransportKey::from((name, "s"));
    assert_eq!(Some(1), table.remove(&key("a")).unwrap().service);
    assert!(table.remove(&key("a")).is_none());
    assert!(table.get(&key("a")).is_none());
    assert_eq!(Some(2), table.get(&key("b")).unwrap().service);
    assert_eq!(Some(3), table.get(&key("c")).unwrap().service);
    assert_eq!(Some(3), table.remove(&key("c")).unwrap().service);
    assert_eq!(Some(2), table.remove(&key("b")).unwrap().service);
    assert!(table.get(&key("b")).is_none());
}

fn offered() -> ServerCapabilities {
    ServerCapabilities {
        experimental: None,
        extensions: None,
        logging: Some(0),
        completions: None,
        prompts: Some(PromptsCapability { list_changed: None }),
        resources: Some(ResourcesCapability { subscribe: None, list_changed: None }),
        tools: Some(ToolsCapability { list_changed: None }),
        tasks: false,
    }
}

#[test]
fn capabilities_do_not_depend_on_the_backends() {
    assert_eq!(offered(), merge_capabilities::<()>(vec![]));
    assert_eq!(offered(), merge_capabilities(vec![("a".into(), Some(1)), ("b".into(), None)]));
}

fn validated(session: &str) -> ValidatedSession {
    ValidatedSession {
        session: SessionId { session_id: session.into() },
        backends: vec![
            Backend { name: "clock".into(), url: url("https://clock.test:9/mcp") },
            Backend { name: "counter".into(), url: url("http://counter.test/mcp") },
        ],
    }
}

fn begin(session: &str, services: [Option<u8>; 2]) -> ConnectedSession<String, u8, String> {
    let validated = match initialize(Ok(validated(session))) {
        InitializeStep::ReadSession(validated) => validated,
        InitializeStep::Done(_) => panic!("refused"),
    };
    let connecting = match validated.session_read::<String, ()>(Ok(Some("known".into()))) {
        SessionStep::Connect(connecting) => connecting,
        SessionStep::Done(_) => panic!("store not read"),
    };
    let mut outcomes = vec![];
    for service in services {
        outcomes.push(service.map(|service| Connection {
            service,
            capabilities: Some(format!("c{service}")),
        }));
    }
    connecting.connected(outcomes)
}

#[test]
fn refused_sessions_do_not_begin() {
    match initialize(Err(ErrorData::invalid_request("no host"))) {
        InitializeStep::Done(refusal) => {
            assert_eq!(ErrorData::invalid_request("no host"), refusal)
        },
        InitializeStep::ReadSession(_) => panic!("began"),
    }
}

#[test]
fn unreadable_session_stores_are_reported() {
    match validated("s").session_read::<String, _>(Err("down")) {
        SessionStep::Done(error) => assert_eq!(
            ErrorData {
                code: INTERNAL_ERROR,
                message: "Internal problem... session store can't be accessed".into(),
                data: None,
            },
            error
        ),
        SessionStep::Connect(_) => panic!("went on"),
    }
}

#[test]
fn unknown_sessions_start_with_the_default() {
    match validated("s").session_read::<String, ()>(Ok(None)) {
        SessionStep::Connect(connecting) => {
            assert_eq!("", connecting.mapping);
            assert_eq!("s", connecting.session.value());
            assert_eq!(2, connecting.targets.len());
            assert_eq!("clock", connecting.targets[0].name);
            assert_eq!(
                TransportConfig {
                    uri: "https://clock.test:9/mcp".into(),
                    host_header: Some(b"clock.test:9".to_vec()),
                },
                connecting.targets[0].config
            );
            assert_eq!("counter", connecting.targets[1].name);
            assert_eq!(
                TransportConfig { uri: "http://counter.test/mcp".into(), host_header: None },
                connecting.targets[1].config
            );
        },
        SessionStep::Done(_) => panic!("store not read"),
    }
}

#[test]
fn session_entries_name_no_user() {
    assert_eq!(
        UserSession { user_name: "".into(), session_id: "s".into() },
        UserSession::of(&SessionId { session_id: "s".into() })
    );
}

#[test]
fn connections_are_kept_for_their_session() {
    let mut service = McpService::new();
    let connected = begin("s", [Some(1), None]);
    assert_eq!("known", connected.mapping);
    assert_eq!(
        vec![("clock".to_string(), Some("c1".to_string())), ("counter".to_string(), None)],
        connected.capabilities
    );
    let result = service.session_stored(connected);
    assert_eq!(
        InitializeResult {
            protocol_version: "2025-11-25".into(),
            capabilities: offered(),
            server_name: "rust-conformance-server".into(),
            server_version: "0.1.0".into(),
            instructions: Some("Rust MCP conformance test server".into()),
        },
        result
    );
    let key = |b: &str, s: &str| BackendTransportKey::from((b, s));
    let clock = service.transport(&key("clock", "s")).unwrap();
    assert_eq!((Some(1), Some("c1".to_string())), (clock.service, clock.capabilities.clone()));
    let counter = service.transport(&key("counter", "s")).unwrap();
    assert_eq!((None, None), (counter.service, counter.capabilities.clone()));

    service.session_stored(begin("t", [Some(5), Some(6)]));
    assert_eq!(Some(1), service.transport(&key("clock", "s")).unwrap().service);
    assert_eq!(Some(6), service.transport(&key("counter", "t")).unwrap().service);

    service.session_stored(begin("s", [None, Some(8)]));
    assert_eq!(None, service.transport(&key("clock", "s")).unwrap().service);
    assert_eq!(Some(8), service.transport(&key("counter", "s")).unwrap().service);
    assert_eq!(Some(5), service.transport(&key("clock", "t")).unwrap().service);
    assert!(service.transport(&key("clock", "u")).is_none());

    assert_eq!(Some(8), service.remove(&key("counter", "s")).unwrap().service);
    assert!(service.transport(&key("counter", "s")).is_none());
    assert!(service.remove(&key("counter", "s")).is_none());
    assert_eq!(Some(6), service.transport(&key("counter", "t")).unwrap().service);
}

#[test]
fn targets_without_an_outcome_are_not_connected() {
    let connecting = |outcomes: Vec<Option<Connection<u8, ()>>>| {
        match validated("s").session_read::<String, ()>(Ok(None)) {
            SessionStep::Connect(connecting) => connecting.connected(outcomes),
            SessionStep::Done(_) => panic!("store not read"),
        }
    };
    let made = |service| Some(Connection { service, capabilities: None });
    let short = connecting(vec![made(1)]);
    let names: Vec<_> = short.transports.iter().map(|t| (t.0.as_str(), t.1.service)).collect();
    assert_eq!(vec![("clock", Some(1)), ("counter", None)], names);
    let long = connecting(vec![None, made(2), made(3)]);
    let names: Vec<_> = long.transports.iter().map(|t| (t.0.as_str(), t.1.service)).collect();
    assert_eq!(vec![("clock", None), ("counter", Some(2))], names);
}

#[test]
fn subscriptions_come_and_go() {
    let mut service: McpService<(), ()> = McpService::new();
    assert!(!service.is_subscribed("a"));
    assert_eq!(Ok(()), service.subscribe("a"));
    assert_eq!(Ok(()), service.subscribe("a"));
    assert_eq!(Ok(()), service.subscribe("b"));
    assert!(service.is_subscribed("a"));
    assert_eq!(Ok(()), service.unsubscribe("a"));
    assert!(!service.is_subscribed("a"));
    assert!(service.is_subscribed("b"));
    assert_eq!(Ok(()), service.unsubscribe("a"));
    assert!(service.is_subscribed("b"));
}

#[test]
fn levels_are_set() {
    let mut service: McpService<(), ()> = McpService::new();
    assert_eq!(LoggingLevel::Debug, service.log_level());
    assert_eq!(Ok(()), service.set_level(LoggingLevel::Critical));
    assert_eq!(LoggingLevel::Critical, service.log_level());
}

#[test]
fn pings_are_answered() {
    let service: McpService<(), ()> = McpService::new();
    assert_eq!(Ok(()), service.ping());
}

#[test]
fn one_template_is_listed() {
    let service: McpService<(), ()> = McpService::new();
    let listed = service.list_resource_templates().unwrap();
    assert_eq!((None, None), (listed.meta, listed.next_cursor));
    assert_eq!(1, listed.resource_templates.len());
    let template = &listed.resource_templates[0];
    assert_eq!("test://template/{id}/data", template.uri_template);
    assert_eq!("Dynamic Resource", template.name);
    assert_eq!(None, template.title);
    assert_eq!(
        Some("A dynamic resource with parameter substitution".to_string()),
        template.description
    );
    assert_eq!(Some("application/json".to_string()), template.mime_type);
}

fn suggested(reference: Reference, argument: &str) -> Vec<String> {
    let request = CompleteRequest { reference, argument_name: argument.into() };
    let info = complete(&request).unwrap();
    assert_eq!((None, None), (info.total, info.has_more));
    info.values
}

#[test]
fn arguments_are_completed() {
    let template = || Reference::Resource("test://template/{id}/data".into());
    let prompt = || Reference::Prompt("greet".into());
    assert_eq!(vec!["1", "2", "3"], suggested(template(), "id"));
    assert!(suggested(template(), "name").is_empty());
    assert_eq!(vec!["Alice", "Bob", "Charlie"], suggested(prompt(), "name"));
    assert_eq!(vec!["friendly", "formal", "casual"], suggested(prompt(), "style"));
    assert_eq!(vec!["greet"], suggested(prompt(), "id"));
}

#[test]
fn too_many_suggestions_are_an_error() {
    let values = |count: usize| vec!["v".to_string(); count];
    assert_eq!(100, suggest(values(100)).unwrap().values.len());
    assert_eq!(
        Err(ErrorData {
            code: INTERNAL_ERROR,
            message: "Too many completion values: 101 (max: 100)".into(),
            data: None,
        }),
        suggest(values(101))
    );
}
