use node_overseer::config::{Directories, GlobalConfig, NodeRecord};
use node_overseer::lifecycle::BindAddress;
use node_overseer::overseer::Overseer;
use node_overseer::store::{decode_config, encode_config, push_token, read_token};

fn sample() -> GlobalConfig {
    let dirs = Directories { config_dir: "/cfg".to_string(), data_local_dir: "/data dir".to_string() };
    let mut o = Overseer::new("/cfg/config".to_string(), GlobalConfig::new(Some(dirs)));
    let b = BindAddress { host: "127.0.0.1".to_string(), addr: "127.0.0.1:4000".to_string(), port: 4000 };
    assert!(o.create_node("relay", &b, 2, true, true).is_ok());
    let c = BindAddress { host: "[::1]".to_string(), addr: "[::1]:4001".to_string(), port: 4001 };
    assert!(o.create_node("näme:with 12:colons", &c, 0, true, true).is_ok());
    assert!(o.record_pid("relay", -7).is_ok());
    o.ensure_default_vault_path("/cfg");
    o.adopt_default_identity(vec![0, 1, 255, 16]);
    o.config
}

fn same(a: &GlobalConfig, b: &GlobalConfig) {
    assert_eq!(a.nodes.len(), b.nodes.len());
    for (x, y) in a.nodes.iter().zip(b.nodes.iter()) {
        assert_eq!(x.name, y.name);
        assert_eq!(x.addr, y.addr);
        assert_eq!(x.port, y.port);
        assert_eq!(x.pid, y.pid);
        assert_eq!(x.verbose, y.verbose);
        assert_eq!(x.state_dir, y.state_dir);
    }
    assert_eq!(a.default, b.default);
    assert_eq!(a.default_vault_path, b.default_vault_path);
    assert_eq!(a.default_identity, b.default_identity);
    assert_eq!(a.lookup.len(), b.lookup.len());
    for (x, y) in a.lookup.iter().zip(b.lookup.iter()) {
        assert_eq!(x.name, y.name);
        assert_eq!(x.addr, y.addr);
    }
    match (&a.directories, &b.directories) {
        (Some(x), Some(y)) => {
            assert_eq!(x.config_dir, y.config_dir);
            assert_eq!(x.data_local_dir, y.data_local_dir);
        }
        (None, None) => {}
        _ => panic!("directories differ"),
    }
}

#[test]
fn stored_config_reads_back_equal() {
    let c = sample();
    let text = encode_config(&c);
    let back = decode_config(&text).expect("stored text reads back");
    same(&c, &back);
    assert_eq!(encode_config(&back), text);
}

#[test]
fn empty_config_reads_back() {
    let c = GlobalConfig::new(None);
    let text = encode_config(&c);
    assert_eq!(text, "1:01:01:01:01:0");
    let back = decode_config(&text).unwrap();
    same(&c, &back);
}

#[test]
fn interrupted_or_damaged_text_is_refused() {
    let text = encode_config(&sample());
    for cut in [0, 1, 5, text.chars().count() / 2, text.chars().count() - 1] {
        let prefix: String = text.chars().take(cut).collect();
        assert!(decode_config(&prefix).is_none(), "prefix of {} chars was taken up", cut);
    }
    let mut longer = text.clone();
    longer.push('x');
    assert!(decode_config(&longer).is_none());
    assert!(decode_config("garbage").is_none());
}

#[test]
fn duplicate_names_are_refused() {
    let mut c = GlobalConfig::new(None);
    let rec = |name: &str| NodeRecord {
        name: name.to_string(),
        addr: "127.0.0.1:1".to_string(),
        port: 1,
        pid: None,
        verbose: 0,
        state_dir: None,
    };
    c.nodes.push(rec("a"));
    c.nodes.push(rec("a"));
    c.default = Some("a".to_string());
    assert!(decode_config(&encode_config(&c)).is_none());
    let mut no_default = GlobalConfig::new(None);
    no_default.nodes.push(rec("b"));
    assert!(decode_config(&encode_config(&no_default)).is_none());
}

#[test]
fn tokens_hold_any_text() {
    let mut out = String::new();
    push_token(&mut out, "a:b");
    push_token(&mut out, "");
    assert_eq!(out, "3:a:b0:");
    assert_eq!(read_token(&out, 0), Some(("a:b".to_string(), 5)));
    assert_eq!(read_token(&out, 5), Some((String::new(), 7)));
    assert_eq!(read_token("12:short", 0), None);
    assert_eq!(read_token(":x", 0), None);
}
