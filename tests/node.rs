use node_overseer::api::{Method, Request, RequestBody, ResponseBody, Status};
use node_overseer::base::GetNodeStatusRequest;
use node_overseer::node_manager::{match_node_route, IdentityHandle, NodeManagerWorker, NodeRoute};
use node_overseer::registry::{InletInfo, OutletInfo, ResourceRegistry, SecureChannelInfo, TransportEntry};
use node_overseer::transport::{GetTransportList, TransportMode, TransportType};

fn entry(tid: &str, tt: TransportType, tm: TransportMode, addr: &str) -> TransportEntry {
    TransportEntry { tid: tid.to_string(), tt, tm, addr: addr.to_string() }
}

fn worker(with_identity: bool) -> NodeManagerWorker {
    let mut registry = ResourceRegistry::new();
    registry.transports.push(entry("t1", TransportType::Tcp, TransportMode::Listen, "127.0.0.1:4000"));
    registry.transports.push(entry("t2", TransportType::Tcp, TransportMode::Connect, "10.0.0.2:4000"));
    registry.transports.push(entry("t3", TransportType::Ble, TransportMode::Listen, "ble0"));
    registry.secure_channel_listeners.push("api".to_string());
    registry.secure_channels.push(SecureChannelInfo { route: "0#a => 1#b".to_string(), addr: "sc1".to_string() });
    registry.inlets.push(InletInfo {
        alias: "in1".to_string(),
        bind_addr: "127.0.0.1:7000".to_string(),
        worker_addr: "w1".to_string(),
        outlet_route: "1#out".to_string(),
    });
    registry.outlets.push(OutletInfo {
        alias: "out1".to_string(),
        tcp_addr: "127.0.0.1:8000".to_string(),
        worker_addr: "w2".to_string(),
    });
    registry.uppercase_services.push("uppercase".to_string());
    registry.vault_services.push("vault_service".to_string());
    registry.echoer_services.push("echo".to_string());
    NodeManagerWorker {
        node_name: "relay".to_string(),
        registry,
        identity: if with_identity { Some(IdentityHandle { identifier: "P1234".to_string() }) } else { None },
    }
}

fn request(id: u32, path: &str, body: RequestBody) -> Request {
    Request { id, method: Some(Method::Get), path: path.to_string(), target_node: Some("relay".to_string()), body }
}

#[test]
fn transports_are_filtered_by_type_and_mode() {
    let w = worker(true);
    let l = w.build_transport_list(&vec![TransportType::Tcp], &vec![TransportMode::Listen]);
    assert_eq!(l.list.len(), 1);
    assert_eq!(l.list[0].tid, "t1");
    assert_eq!(l.list[0].payload, "127.0.0.1:4000");
    let all = w.build_transport_list(
        &vec![TransportType::Tcp, TransportType::Ble],
        &vec![TransportMode::Listen, TransportMode::Connect],
    );
    let ids: Vec<&str> = all.list.iter().map(|s| s.tid.as_str()).collect();
    assert_eq!(ids, vec!["t1", "t2", "t3"]);
    let none = w.build_transport_list(&vec![TransportType::WebSocket], &vec![TransportMode::Listen]);
    assert!(none.list.is_empty());
}

#[test]
fn transport_query_without_filters_lists_all() {
    let w = worker(true);
    let resp = w.get_transports(&request(4, "/node/transports", RequestBody::TransportQuery(GetTransportList::new(None, None))));
    assert_eq!(resp.id, 4);
    match resp.body {
        ResponseBody::Transports(l) => assert_eq!(l.list.len(), 3),
        _ => panic!("expected transports"),
    }
    let bad = w.get_transports(&request(5, "/node/transports", RequestBody::Empty));
    assert_eq!(bad.status, Status::BadRequest);
}

#[test]
fn services_are_listed_kind_after_kind() {
    let w = worker(true);
    let l = w.build_service_list();
    let got: Vec<(&str, &str)> = l.list.iter().map(|s| (s.addr.as_str(), s.service_type.as_str())).collect();
    assert_eq!(got, vec![("vault_service", "vault"), ("uppercase", "uppercase"), ("echo", "echoer")]);
}

#[test]
fn empty_registry_gives_empty_lists() {
    let w = NodeManagerWorker { node_name: "n".to_string(), registry: ResourceRegistry::new(), identity: None };
    assert!(w.build_service_list().list.is_empty());
    assert!(w.build_inlets_list().list.is_empty());
    assert!(w.build_outlets_list().list.is_empty());
    assert!(w.build_secure_channel_listeners().is_empty());
    assert!(w.build_secure_channels_list().list.is_empty());
    let s = w.build_node_status(2, 77, false);
    assert_eq!(s.transports, 0);
}

#[test]
fn node_status_with_details() {
    let w = worker(true);
    let s = w.build_node_status(12, 345, true);
    assert_eq!(s.node_name, "relay");
    assert_eq!(s.status, "Running");
    assert_eq!(s.workers, 12);
    assert_eq!(s.pid, 345);
    assert_eq!(s.transports, 3);
    let d = s.details.unwrap();
    assert_eq!(d.short_identity.unwrap().identity_id, "P1234");
    assert_eq!(d.transport_list.list.len(), 1);
    assert_eq!(d.secure_channel_listeners, vec!["api".to_string()]);
    assert_eq!(d.inlets.list[0].alias, "in1");
    assert_eq!(d.inlets.list[0].outlet_route, "1#out");
    assert_eq!(d.outlets.list[0].tcp_addr, "127.0.0.1:8000");
    assert_eq!(d.services.list.len(), 3);
}

#[test]
fn details_without_identity_leave_it_out() {
    let w = worker(false);
    let s = w.build_node_status(1, 1, true);
    let d = s.details.expect("details were asked for");
    assert!(d.short_identity.is_none());
    assert_eq!(d.transport_list.list.len(), 1);
    assert_eq!(d.services.list.len(), 3);
    assert!(w.build_node_status(1, 1, false).details.is_none());
    let resp = w.get_node(&request(9, "/node", RequestBody::NodeStatusQuery(GetNodeStatusRequest::new(Some(true)))), 1, 1);
    assert_eq!(resp.id, 9);
    assert_eq!(resp.status, Status::Success);
    match resp.body {
        ResponseBody::Node(s) => assert!(s.details.unwrap().short_identity.is_none()),
        _ => panic!("expected a node status"),
    }
}

#[test]
fn routes_answer_as_their_handlers() {
    let w = worker(true);
    let status = w.handle_request(&request(50, "/node", RequestBody::NodeStatusQuery(GetNodeStatusRequest::new(None))), 4, 5, None);
    assert_eq!(status.status, Status::Success);
    match status.body {
        ResponseBody::Node(s) => {
            assert_eq!(s.workers, 4);
            assert_eq!(s.pid, 5);
            assert_eq!(s.transports, 3);
        }
        _ => panic!("expected a node status"),
    }
    let bad = w.handle_request(&request(51, "/node", RequestBody::Empty), 4, 5, None);
    assert_eq!(bad.status, Status::BadRequest);
    let services = w.handle_request(&request(52, "/node/services", RequestBody::Empty), 1, 1, None);
    match services.body {
        ResponseBody::Services(l) => assert_eq!(l.list.len(), 3),
        _ => panic!("expected services"),
    }
    let identity = w.handle_request(&request(53, "/node/identity", RequestBody::Empty), 1, 1, Some(vec![3]));
    match identity.body {
        ResponseBody::Identity(i) => assert_eq!(i.long_identity.unwrap().identity, vec![3]),
        _ => panic!("expected an identity"),
    }
    let listeners = w.handle_request(&request(54, "/node/secure_channel_listeners", RequestBody::Empty), 1, 1, None);
    match listeners.body {
        ResponseBody::Listeners(l) => assert_eq!(l, vec!["api".to_string()]),
        _ => panic!("expected listeners"),
    }
    let inlets = w.handle_request(&request(55, "/node/inlets", RequestBody::Empty), 1, 1, None);
    match inlets.body {
        ResponseBody::Inlets(l) => assert_eq!(l.list[0].alias, "in1"),
        _ => panic!("expected inlets"),
    }
}

#[test]
fn new_registry_is_empty() {
    let r = ResourceRegistry::new();
    assert!(r.transports.is_empty() && r.inlets.is_empty() && r.outlets.is_empty());
}

#[test]
fn get_node_needs_a_status_query() {
    let w = worker(true);
    let resp = w.get_node(&request(10, "/node", RequestBody::Empty), 1, 1);
    assert_eq!(resp.id, 10);
    assert_eq!(resp.status, Status::BadRequest);
    let ok = w.get_node(&request(11, "/node", RequestBody::NodeStatusQuery(GetNodeStatusRequest::new(None))), 3, 4);
    assert_eq!(ok.status, Status::Success);
    match ok.body {
        ResponseBody::Node(s) => assert!(s.details.is_none()),
        _ => panic!("expected a node status"),
    }
}

#[test]
fn identity_is_best_effort() {
    let w = worker(false);
    let i = w.retrieve_identity_response(Some(vec![1, 2]));
    assert!(i.short_identity.is_none());
    assert!(i.long_identity.is_none());
    let w = worker(true);
    let i = w.retrieve_identity_response(None);
    assert_eq!(i.short_identity.unwrap().identity_id, "P1234");
    assert!(i.long_identity.is_none());
    let i = w.retrieve_identity_response(Some(vec![7, 8]));
    assert_eq!(i.long_identity.unwrap().identity, vec![7, 8]);
}

#[test]
fn secure_channels_are_seen_from_the_node() {
    let w = worker(true);
    let l = w.build_secure_channels_list();
    assert_eq!(l.list.len(), 1);
    assert_eq!(l.list[0].from, "/node/relay");
    assert_eq!(l.list[0].channel.as_deref(), Some("sc1"));
    assert_eq!(l.list[0].route.as_deref(), Some("0#a => 1#b"));
}

#[test]
fn node_routes_are_matched() {
    assert_eq!(match_node_route(Method::Get, "/node"), Some(NodeRoute::Status));
    assert_eq!(match_node_route(Method::Get, "/node/transports"), Some(NodeRoute::Transports));
    assert_eq!(match_node_route(Method::Get, "node/secure_channels/"), Some(NodeRoute::SecureChannels));
    assert_eq!(match_node_route(Method::Get, "/node/inlets"), Some(NodeRoute::Inlets));
    assert_eq!(match_node_route(Method::Get, "/node/outlets"), Some(NodeRoute::Outlets));
    assert_eq!(match_node_route(Method::Post, "/node"), None);
    assert_eq!(match_node_route(Method::Get, "/node/unknown"), None);
    assert_eq!(match_node_route(Method::Get, "/node/inlets/x"), None);
}

#[test]
fn handle_request_keeps_the_id() {
    let w = worker(true);
    let resp = w.handle_request(&request(31, "/node/services", RequestBody::Empty), 1, 1, None);
    assert_eq!(resp.id, 31);
    assert!(matches!(resp.body, ResponseBody::Services(_)));
    let resp = w.handle_request(&request(32, "/node/nothing", RequestBody::Empty), 1, 1, None);
    assert_eq!(resp.id, 32);
    assert_eq!(resp.status, Status::NotFound);
    let mut no_method = request(33, "/node", RequestBody::Empty);
    no_method.method = None;
    let resp = w.handle_request(&no_method, 1, 1, None);
    assert_eq!(resp.id, 33);
    assert_eq!(resp.status, Status::BadRequest);
}
