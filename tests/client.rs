use node_overseer::api::{Method, RequestBody, Status};
use node_overseer::cli::create::{CreateCommand, CreateSubcommand, NodeCommand as CreateNode};
use node_overseer::cli::get::{GetCommand, GetSubcommand, NodeCommand as GetNode, NodeSubcommand, NodesCommand, TransportsCommand};
use node_overseer::cli::{ApiBuilder, InitCommand};
use node_overseer::lifecycle::BindAddress;
use node_overseer::text::{path_segments, str_equals, to_decimal};
use node_overseer::transport::{TransportMode, TransportType};

#[test]
fn request_path_is_joined_with_slashes() {
    let mut b = ApiBuilder::new(Method::Get);
    b.to_path("node".to_string());
    b.to_path("transports".to_string());
    b.for_node("relay".to_string());
    let req = b.build(17, RequestBody::Empty);
    assert_eq!(req.id, 17);
    assert_eq!(req.path, "node/transports");
    assert_eq!(req.method, Some(Method::Get));
    assert_eq!(req.target_node.as_deref(), Some("relay"));
    let empty = ApiBuilder::new(Method::Delete).build(1, RequestBody::Empty);
    assert_eq!(empty.path, "");
    assert!(empty.target_node.is_none());
}

#[test]
fn create_command_prepares_post_node() {
    let mut cmd = CreateNode::default();
    cmd.node_name = "relay".to_string();
    let (b, body) = CreateCommand { subcommand: CreateSubcommand::Node(cmd) }.run(2);
    assert_eq!(b.method, Method::Post);
    assert_eq!(b.path, vec!["node".to_string()]);
    match body {
        RequestBody::CreateNode(r) => {
            assert_eq!(r.node_name, "relay");
            assert_eq!(r.tcp_listener_address, "127.0.0.1:0");
            assert_eq!(r.verbose, 2);
        }
        _ => panic!("expected a create-node body"),
    }
}

#[test]
fn default_node_name_is_eight_hex_digits() {
    let a = CreateNode::default();
    assert_eq!(a.node_name.len(), 8);
    assert!(a.node_name.chars().all(|c| c.is_ascii_hexdigit() && !c.is_ascii_uppercase()));
    assert!(!a.skip_defaults);
    assert!(a.project.is_none());
}

#[test]
fn get_commands_prepare_paths() {
    let (b, body) = GetCommand { subcommand: GetSubcommand::Nodes(NodesCommand {}) }.run();
    assert_eq!(b.method, Method::Get);
    assert_eq!(b.build(1, body).path, "nodes");
    let node = GetNode {
        api_node: "relay".to_string(),
        detailed: Some(true),
        subcommand: Some(NodeSubcommand::Transports(TransportsCommand {
            tts: Some(vec![TransportType::Tcp]),
            tms: None,
        })),
    };
    let (b, body) = GetCommand { subcommand: GetSubcommand::Node(node) }.run();
    let req = b.build(2, body);
    assert_eq!(req.path, "node/transports");
    assert_eq!(req.target_node.as_deref(), Some("relay"));
    match req.body {
        RequestBody::TransportQuery(q) => assert_eq!(q.tts, Some(vec![TransportType::Tcp])),
        _ => panic!("expected a transport query"),
    }
    let status = GetNode { api_node: "relay".to_string(), detailed: Some(false), subcommand: None };
    let (b, body) = GetCommand { subcommand: GetSubcommand::Node(status) }.run();
    let req = b.build(3, body);
    assert_eq!(req.path, "node");
    match req.body {
        RequestBody::NodeStatusQuery(q) => assert_eq!(q.detailed, Some(false)),
        _ => panic!("expected a status query"),
    }
}

fn addr(host: &str, port: u16) -> BindAddress {
    BindAddress { host: host.to_string(), addr: format!("{}:{}", host, port), port }
}

#[test]
fn init_address_is_resolved() {
    let init = InitCommand::default();
    let resolved = init.overwrite_addr(Some(addr("127.0.0.1", 0)), Some(50505)).ok().unwrap();
    assert_eq!(resolved.tcp_listener_address, "127.0.0.1:50505");
    assert_eq!(init.overwrite_addr(Some(addr("127.0.0.1", 0)), None).err(), Some(Status::InternalServerError));
    let fixed = InitCommand { tcp_listener_address: "0.0.0.0:9".to_string(), init_in_current_process: true };
    let kept = fixed.overwrite_addr(Some(addr("0.0.0.0", 9)), None).ok().unwrap();
    assert_eq!(kept.tcp_listener_address, "0.0.0.0:9");
    assert!(kept.init_in_current_process);
    assert_eq!(fixed.overwrite_addr(None, None).err(), Some(Status::BadRequest));
}

#[test]
fn transport_names_are_read_in_any_case() {
    assert_eq!(TransportType::parse("tcp").ok(), Some(TransportType::Tcp));
    assert_eq!(TransportType::parse("Ble").ok(), Some(TransportType::Ble));
    assert_eq!(TransportType::parse("ws").ok(), Some(TransportType::WebSocket));
    assert_eq!(TransportType::parse("websocket").ok(), Some(TransportType::WebSocket));
    assert_eq!(TransportType::parse("udp").err().unwrap().message, "'UDP' is not a valid TransportType");
    assert_eq!(TransportMode::parse("listening").ok(), Some(TransportMode::Listen));
    assert_eq!(TransportMode::parse("Remote Connection").ok(), Some(TransportMode::Connect));
    assert_eq!(TransportMode::parse("x").err().unwrap().message, "'X' is not a valid TransportMode");
    assert_eq!("connect".parse::<TransportMode>().ok(), Some(TransportMode::Connect));
    assert_eq!(TransportType::WebSocket.to_display(), "Websocket");
    assert_eq!(TransportMode::Connect.to_display(), "Remote connection");
}

#[test]
fn text_helpers() {
    assert_eq!(to_decimal(0), "0");
    assert_eq!(to_decimal(65535), "65535");
    assert_eq!(path_segments("/a//b/"), vec!["a".to_string(), "b".to_string()]);
    assert!(path_segments("").is_empty());
    assert!(str_equals("node", "node"));
    assert!(!str_equals("node", "nodes"));
}
