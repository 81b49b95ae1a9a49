use node_overseer::api::{Method, Reply, Request, RequestBody, ResponseBody, Status};
use node_overseer::base::{CreateNodeRequest, GetNodeStatusRequest};
use node_overseer::config::{Directories, GlobalConfig};
use node_overseer::lifecycle::{
    create_node_body, get_open_tcp_address, needs_port_probe, node_created, post_node_start, post_node_step, state_dir_for,
    BindAddress, PostNodeAction, PostNodeStep,
};
use node_overseer::overseer::{match_route, relay_reply, Dispatch, Overseer, Route};

fn overseer() -> Overseer {
    let dirs = Directories { config_dir: "/cfg".to_string(), data_local_dir: "/data".to_string() };
    Overseer::new("/cfg/config.json".to_string(), GlobalConfig::new(Some(dirs)))
}

fn request(id: u32, method: Option<Method>, path: &str, target: Option<&str>) -> Request {
    Request {
        id,
        method,
        path: path.to_string(),
        target_node: target.map(|t| t.to_string()),
        body: RequestBody::Empty,
    }
}

fn bind(addr: &str, port: u16) -> BindAddress {
    let host = addr.rsplit_once(':').map(|(h, _)| h.to_string()).unwrap_or_default();
    BindAddress { host, addr: addr.to_string(), port }
}

fn create_request(name: &str, verbose: u8) -> CreateNodeRequest {
    CreateNodeRequest {
        node_name: name.to_string(),
        tcp_listener_address: "127.0.0.1:0".to_string(),
        skip_defaults: false,
        enable_credential_checks: false,
        no_shared_identity: false,
        launch_config: None,
        no_watchdog: false,
        project: None,
        config: None,
        verbose,
    }
}

#[test]
fn create_relay_then_list_then_conflict() {
    let mut o = overseer();
    let requested = Some(bind("127.0.0.1:0", 0));
    assert!(needs_port_probe(&requested));
    let b = get_open_tcp_address(requested, Some(40123)).ok().unwrap();
    assert_eq!(b.addr, "127.0.0.1:40123");
    assert_eq!(b.port, 40123);
    let dir = o.admit_node("relay", &b, true).ok().unwrap();
    assert_eq!(dir, "/data/node-relay");
    assert_eq!(o.create_node("relay", &b, 0, true, true), Ok(()));
    let req = request(7, Some(Method::Post), "/node", None);
    let resp = node_created(&req, "relay");
    assert_eq!(resp.id, 7);
    assert_eq!(resp.status, Status::Success);
    match resp.body {
        ResponseBody::Node(s) => {
            assert_eq!(s.node_name, "relay");
            assert_eq!(s.status, "Pending");
            assert_eq!(s.workers, 0);
            assert_eq!(s.transports, 0);
            assert!(s.details.is_none());
        }
        _ => panic!("expected a node status"),
    }
    let list_req = request(8, Some(Method::Get), "/nodes", None);
    let listed = o.get_nodes(&list_req);
    assert_eq!(listed.id, 8);
    match listed.body {
        ResponseBody::Nodes(l) => {
            assert_eq!(l.list.len(), 1);
            assert_eq!(l.list[0].node_name, "relay");
            assert_eq!(l.list[0].status, "Up");
            assert_eq!(l.list[0].port, Some(40123));
        }
        _ => panic!("expected a node list"),
    }
    let record = &o.config().nodes[0];
    assert_eq!(record.port, 40123);
    assert_eq!(record.addr, "127.0.0.1:40123");
    assert_eq!(record.state_dir.as_deref(), Some("/data/node-relay"));
    assert_eq!(o.config().default.as_deref(), Some("relay"));
    assert_eq!(o.config().lookup[0].name, "relay");
    let again = get_open_tcp_address(Some(bind("127.0.0.1:0", 0)), Some(40200)).ok().unwrap();
    assert_eq!(o.create_node("relay", &again, 0, true, true), Err(Status::Conflict));
    assert_eq!(o.config().nodes.len(), 1);
}

#[test]
fn unmanaged_target_node_is_not_found() {
    let o = overseer();
    let req = request(11, Some(Method::Get), "/node", Some("ghost"));
    match o.handle_message(&req) {
        Dispatch::Respond(resp) => {
            assert_eq!(resp.id, 11);
            assert_eq!(resp.status, Status::NotFound);
            assert!(matches!(resp.body, ResponseBody::Empty));
        }
        _ => panic!("expected an immediate response"),
    }
}

#[test]
fn managed_target_node_is_forwarded() {
    let mut o = overseer();
    assert_eq!(o.create_node("relay", &bind("127.0.0.1:4000", 4000), 1, true, true), Ok(()));
    let req = request(12, Some(Method::Get), "/node", Some("relay"));
    match o.handle_message(&req) {
        Dispatch::Forward { node_name, address } => {
            assert_eq!(node_name, "relay");
            assert_eq!(address, "127.0.0.1:4000");
        }
        _ => panic!("expected forwarding"),
    }
}

#[test]
fn list_nodes_is_served_locally() {
    let o = overseer();
    let req = request(3, Some(Method::Get), "/nodes", None);
    match o.handle_message(&req) {
        Dispatch::Local(route) => assert_eq!(route, Route::ListNodes),
        _ => panic!("expected a local route"),
    }
    let post = request(4, Some(Method::Post), "node/", None);
    match o.handle_message(&post) {
        Dispatch::Local(route) => assert_eq!(route, Route::CreateNode),
        _ => panic!("expected a local route"),
    }
}

#[test]
fn unknown_route_names_method_and_path() {
    let o = overseer();
    let req = request(5, Some(Method::Put), "/nodes", None);
    match o.handle_message(&req) {
        Dispatch::Respond(resp) => {
            assert_eq!(resp.id, 5);
            assert_eq!(resp.status, Status::NotFound);
            match resp.body {
                ResponseBody::Message(m) => assert_eq!(m, "Path not found: Put /nodes"),
                _ => panic!("expected a message"),
            }
        }
        _ => panic!("expected an immediate response"),
    }
    assert_eq!(match_route(Method::Get, "/nodes/extra"), None);
    assert_eq!(match_route(Method::Get, "//nodes//"), Some(Route::ListNodes));
}

#[test]
fn unknown_method_is_bad_request() {
    let o = overseer();
    let req = request(6, None, "/nodes", None);
    match o.handle_message(&req) {
        Dispatch::Respond(resp) => {
            assert_eq!(resp.id, 6);
            assert_eq!(resp.status, Status::BadRequest);
            match resp.body {
                ResponseBody::Message(m) => assert_eq!(m, "Invalid request method."),
                _ => panic!("expected a message"),
            }
        }
        _ => panic!("expected an immediate response"),
    }
}

#[test]
fn forwarded_reply_is_relayed_verbatim() {
    let req = request(21, Some(Method::Get), "/node", Some("relay"));
    match relay_reply(&req, Some(vec![1, 2, 3, 250])) {
        Reply::Relay(bytes) => assert_eq!(bytes, vec![1, 2, 3, 250]),
        _ => panic!("expected the node's bytes"),
    }
    match relay_reply(&req, None) {
        Reply::Envelope(resp) => {
            assert_eq!(resp.id, 21);
            assert_eq!(resp.status, Status::InternalServerError);
        }
        _ => panic!("expected an error envelope"),
    }
}

#[test]
fn handler_failure_keeps_id_and_cause() {
    let req = request(22, Some(Method::Post), "/node", None);
    let resp = node_overseer::overseer::handler_failure(&req, "disk full");
    assert_eq!(resp.id, 22);
    assert_eq!(resp.status, Status::InternalServerError);
    match resp.body {
        ResponseBody::Message(m) => assert_eq!(m, "failed to handle request: disk full"),
        _ => panic!("expected a message"),
    }
}

#[test]
fn port_claimed_by_a_node_is_a_conflict() {
    let mut o = overseer();
    assert_eq!(o.create_node("a", &bind("127.0.0.1:5000", 5000), 0, true, true), Ok(()));
    assert_eq!(o.create_node("b", &bind("0.0.0.0:5000", 5000), 0, true, true), Err(Status::Conflict));
    assert_eq!(o.admit_node("b", &bind("0.0.0.0:5000", 5000), true), Err(Status::Conflict));
    assert_eq!(o.create_node("b", &bind("127.0.0.1:5001", 5001), 0, false, true), Err(Status::Conflict));
    assert_eq!(o.create_node("b", &bind("127.0.0.1:5001", 5001), 0, true, true), Ok(()));
    assert_eq!(o.config().nodes.len(), 2);
    assert_eq!(o.config().default.as_deref(), Some("a"));
}

#[test]
fn creation_errors() {
    let mut bare = Overseer::new("/c".to_string(), GlobalConfig::new(None));
    assert_eq!(bare.create_node("n", &bind("127.0.0.1:6000", 6000), 0, true, true), Err(Status::BadRequest));
    assert_eq!(bare.admit_node("n", &bind("127.0.0.1:6000", 6000), true), Err(Status::BadRequest));
    let mut o = overseer();
    assert_eq!(o.create_node("n", &bind("127.0.0.1:6000", 6000), 0, true, false), Err(Status::InternalServerError));
    assert_eq!(o.config().nodes.len(), 0);
    assert!(o.config().default.is_none());
    assert_eq!(get_open_tcp_address(Some(bind("127.0.0.1:0", 0)), None).err(), Some(Status::InternalServerError));
    assert_eq!(get_open_tcp_address(Some(bind("127.0.0.1:0", 0)), Some(0)).err(), Some(Status::InternalServerError));
    assert_eq!(get_open_tcp_address(None, None).err(), Some(Status::BadRequest));
    assert!(!needs_port_probe(&Some(bind("10.0.0.1:80", 80))));
    assert!(!needs_port_probe(&None));
    let given = get_open_tcp_address(Some(bind("10.0.0.1:80", 80)), Some(5)).ok().unwrap();
    assert_eq!(given.addr, "10.0.0.1:80");
    assert_eq!(given.port, 80);
}

#[test]
fn state_directory_is_a_slug_of_the_name() {
    assert_eq!(state_dir_for("/data", "My Node!"), "/data/node-my-node");
    assert_eq!(state_dir_for("/d", "relay"), "/d/node-relay");
}

#[test]
fn spawn_plan_of_a_created_node() {
    let mut o = overseer();
    assert_eq!(o.create_node("relay", &bind("127.0.0.1:4000", 4000), 0, true, true), Ok(()));
    let mut req = create_request("relay", 0);
    req.project = Some("/p/project.json".to_string());
    req.skip_defaults = true;
    req.enable_credential_checks = true;
    let plan = o.spawn_node(&req, "127.0.0.1:4000").ok().unwrap();
    assert_eq!(plan.stdout_log, "/data/node-relay/relay.log");
    assert_eq!(plan.stderr_log, "/data/node-relay/relay.log.stderr");
    let expected: Vec<String> = vec![
        "-vv", "--no-color", "node", "create", "--tcp-listener-address", "127.0.0.1:4000",
        "--foreground", "--child-process", "--project", "/p/project.json", "--skip-defaults",
        "--enable-credential-checks", "relay",
    ]
    .into_iter()
    .map(|s| s.to_string())
    .collect();
    assert_eq!(plan.args, expected);
    let loud = create_request("relay", 3);
    let plan = o.spawn_node(&loud, "127.0.0.1:4000").ok().unwrap();
    assert_eq!(plan.args[0], "-vvv");
    assert_eq!(plan.args.len(), 9);
    assert_eq!(plan.args[8], "relay");
    let missing = create_request("ghost", 0);
    assert_eq!(o.spawn_node(&missing, "127.0.0.1:4000").err(), Some(Status::NotFound));
}

#[test]
fn recorded_pid_is_listed() {
    let mut o = overseer();
    assert_eq!(o.create_node("relay", &bind("127.0.0.1:4000", 4000), 0, true, true), Ok(()));
    assert_eq!(o.record_pid("ghost", 9), Err(Status::NotFound));
    assert_eq!(o.record_pid("relay", 4242), Ok(()));
    assert_eq!(o.config().nodes[0].pid, Some(4242));
    let listed = o.get_nodes(&request(1, Some(Method::Get), "/nodes", None));
    match listed.body {
        ResponseBody::Nodes(l) => assert_eq!(l.list[0].pid, 4242),
        _ => panic!("expected a node list"),
    }
}

#[test]
fn identity_bootstrap_is_idempotent() {
    let mut o = overseer();
    let first = o.ensure_default_vault_path("/cfg");
    assert_eq!(first, "/cfg/default_vault.json");
    assert!(o.get_default_identity().is_none());
    o.adopt_default_identity(vec![1, 2, 3]);
    let second = o.ensure_default_vault_path("/elsewhere");
    assert_eq!(second, first);
    o.adopt_default_identity(vec![9, 9]);
    assert_eq!(o.get_default_identity(), Some(vec![1, 2, 3]));
    assert_eq!(o.get_default_vault_path().as_deref(), Some("/cfg/default_vault.json"));
}

#[test]
fn default_vault_path_is_kept_once_set() {
    let mut o = overseer();
    o.set_default_vault_path(Some("/v/vault.json".to_string()));
    assert_eq!(o.ensure_default_vault_path("/cfg"), "/v/vault.json");
    o.set_default_identity(Some(vec![5]));
    o.adopt_default_identity(vec![6]);
    assert_eq!(o.get_default_identity(), Some(vec![5]));
}

#[test]
fn status_query_body_is_carried() {
    let q = GetNodeStatusRequest::new(Some(true));
    assert_eq!(q.detailed, Some(true));
}

#[test]
fn create_body_is_required() {
    let mut req = request(40, Some(Method::Post), "/node", None);
    match create_node_body(&req) {
        Err(resp) => {
            assert_eq!(resp.id, 40);
            assert_eq!(resp.status, Status::BadRequest);
        }
        Ok(_) => panic!("a request without a node was taken"),
    }
    req.body = RequestBody::CreateNode(create_request("relay", 1));
    let body = create_node_body(&req).ok().unwrap();
    assert_eq!(body.node_name, "relay");
    assert_eq!(body.verbose, 1);
}

#[test]
fn any_port_zero_address_is_probed_on_its_host() {
    let requested = Some(bind("0.0.0.0:0", 0));
    assert!(needs_port_probe(&requested));
    let b = get_open_tcp_address(requested, Some(41000)).ok().unwrap();
    assert_eq!(b.host, "0.0.0.0");
    assert_eq!(b.addr, "0.0.0.0:41000");
    assert_eq!(b.port, 41000);
    let v6 = get_open_tcp_address(Some(bind("[::1]:0", 0)), Some(42)).ok().unwrap();
    assert_eq!(v6.addr, "[::1]:42");
}

#[test]
fn post_node_steps_run_in_order_and_stop_at_the_first_failure() {
    let mut req = request(60, Some(Method::Post), "/node", None);
    match post_node_start(&req) {
        PostNodeAction::Respond(r) => {
            assert_eq!(r.id, 60);
            assert_eq!(r.status, Status::BadRequest);
        }
        _ => panic!("a request without a node must be answered"),
    }
    req.body = RequestBody::CreateNode(create_request("relay", 0));
    assert!(matches!(post_node_start(&req), PostNodeAction::Run(PostNodeStep::ResolveAddress)));
    assert!(matches!(post_node_step(&req, PostNodeStep::ResolveAddress, Ok(())), PostNodeAction::Run(PostNodeStep::CreateNode)));
    assert!(matches!(post_node_step(&req, PostNodeStep::CreateNode, Ok(())), PostNodeAction::Run(PostNodeStep::CreateIdentity)));
    assert!(matches!(post_node_step(&req, PostNodeStep::CreateIdentity, Ok(())), PostNodeAction::Run(PostNodeStep::SpawnNode)));
    match post_node_step(&req, PostNodeStep::SpawnNode, Ok(())) {
        PostNodeAction::Respond(r) => {
            assert_eq!(r.id, 60);
            assert_eq!(r.status, Status::Success);
            match r.body {
                ResponseBody::Node(s) => {
                    assert_eq!(s.node_name, "relay");
                    assert_eq!(s.status, "Pending");
                }
                _ => panic!("expected a node status"),
            }
        }
        _ => panic!("the last step answers"),
    }
    match post_node_step(&req, PostNodeStep::CreateNode, Err(Status::Conflict)) {
        PostNodeAction::Respond(r) => {
            assert_eq!(r.id, 60);
            assert_eq!(r.status, Status::Conflict);
        }
        _ => panic!("a failure answers"),
    }
}
