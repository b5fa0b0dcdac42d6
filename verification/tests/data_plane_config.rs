use base64::Engine;
use orange_platform::data_plane_config::{
    check_subscription_input, is_public_address, is_valid_domain, normalize_vless_subscription,
    parse_ipv4, DataPlaneConfigErrorCode, NodeProtocol, NormalizedSubscription, WireOutbound,
    WireOutboundKind, WireRoute, WireSubscription,
};

const VLESS_SUBSCRIPTION: &str = "dmxlc3M6Ly8xMjNlNDU2Ny1lODliLTEyZDMtYTQ1Ni00MjY2MTQxNzQwMDBAZWRnZS5leGFtcGxlLmNvbTo0NDM/ZW5jcnlwdGlvbj1ub25lJmZsb3c9eHRscy1ycHJ4LXZpc2lvbiZmcD1jaHJvbWUmbW9kZT1tdWx0aSZwYms9QUFFQ0F3UUZCZ2NJQ1FvTERBME9EeEFSRWhNVUZSWVhHQmthR3h3ZEhoOCZzZWN1cml0eT1yZWFsaXR5JnNlcnZlcm5hbWU9d3d3LmV4YW1wbGUuY29tJnNuaT13d3cuZXhhbXBsZS5jb20mc3B4PSUyRiZ0eXBlPXRjcCNUb2t5bw==";

#[test]
fn a_vless_subscription_becomes_one_selector_over_its_nodes() {
    let model = normalize_vless_subscription(VLESS_SUBSCRIPTION.as_bytes()).unwrap();
    assert_eq!(model.nodes.len(), 1);
    let node = &model.nodes[0];
    assert_eq!(node.name, "Tokyo");
    assert_eq!(node.server, "edge.example.com");
    assert_eq!(node.server_port, 443);
    assert_eq!(node.credential, "123e4567-e89b-12d3-a456-426614174000");
    assert_eq!(node.tls_server_name.as_deref(), Some("www.example.com"));
    assert!(matches!(node.protocol, NodeProtocol::Vless { .. }));
    assert_eq!(model.selectors.len(), 1);
    assert_eq!(model.selectors[0].tag, "proxy");
    assert_eq!(model.selectors[0].outbounds, vec![node.tag.clone()]);
}

#[test]
fn malformed_vless_subscriptions_are_refused() {
    let empty = normalize_vless_subscription(b"").err().unwrap();
    assert_eq!(empty.code(), DataPlaneConfigErrorCode::EmptyInput);
    let not_base64 = normalize_vless_subscription(b"%%%").err().unwrap();
    assert_eq!(not_base64.code(), DataPlaneConfigErrorCode::InvalidStructure);
    assert_eq!(not_base64.path(), "$.base64");
    let too_large = check_subscription_input(usize::MAX).err().unwrap();
    assert_eq!(too_large.code(), DataPlaneConfigErrorCode::InputTooLarge);
}

#[test]
fn domains_and_addresses() {
    assert!(is_valid_domain(b"edge.example.com"));
    assert!(!is_valid_domain(b"Edge.example.com"));
    assert!(!is_valid_domain(b"-edge.example.com"));
    assert!(!is_valid_domain(b"edge..example.com"));
    assert_eq!(parse_ipv4(b"8.8.4.4"), Some(vec![8, 8, 4, 4]));
    assert_eq!(parse_ipv4(b"8.8.4"), None);
    assert_eq!(parse_ipv4(b"8.8.4.256"), None);
    assert_eq!(parse_ipv4(b"08.8.4.4"), None);
    assert!(is_public_address(&[8, 8, 4, 4]));
    assert!(!is_public_address(&[10, 0, 0, 1]));
    assert!(!is_public_address(&[127, 0, 0, 1]));
    assert!(!is_public_address(&[192, 168, 1, 1]));
}

#[test]
fn vless_node_names_are_percent_decoded() {
    let link = "vless://123e4567-e89b-12d3-a456-426614174000@edge.example.com:443?encryption=none&flow=xtls-rprx-vision&fp=chrome&mode=multi&pbk=AAECAwQFBgcICQoLDA0ODxAREhMUFRYXGBkaGxwdHh8&security=reality&servername=www.example.com&sni=www.example.com&spx=%2F&type=tcp#Tokyo%20East+2";
    let encoded = base64::engine::general_purpose::STANDARD.encode(link);
    let model = normalize_vless_subscription(encoded.as_bytes()).unwrap();
    assert_eq!(model.nodes[0].name, "Tokyo East 2");
}

fn shadowsocks_outbound(tag: &str) -> WireOutbound {
    WireOutbound {
        kind: WireOutboundKind::Shadowsocks,
        tag: tag.to_owned(),
        server: Some("x.org".to_owned()),
        server_address: None,
        server_port: Some(8388),
        method: Some("aes-128-gcm".to_owned()),
        password: Some("pw".to_owned()),
        tls: None,
        outbounds: None,
        default: None,
    }
}

fn proxy_selector(references: &[&str], default: &str) -> WireOutbound {
    WireOutbound {
        kind: WireOutboundKind::Selector,
        tag: "proxy".to_owned(),
        server: None,
        server_address: None,
        server_port: None,
        method: None,
        password: None,
        tls: None,
        outbounds: Some(references.iter().map(|reference| (*reference).to_owned()).collect()),
        default: Some(default.to_owned()),
    }
}

fn wire_subscription(outbounds: Vec<WireOutbound>) -> WireSubscription {
    WireSubscription {
        outbounds,
        route: WireRoute { rules: Vec::new(), final_outbound: "proxy".to_owned() },
    }
}

#[test]
fn a_node_that_no_selector_references_is_refused_at_the_outbound_list() {
    let wire = wire_subscription(vec![
        shadowsocks_outbound("a"),
        shadowsocks_outbound("b"),
        proxy_selector(&["a"], "a"),
    ]);
    let error = NormalizedSubscription::from_wire(&wire).err().unwrap();
    assert_eq!(error.code(), DataPlaneConfigErrorCode::InvalidSelector);
    assert_eq!(error.path(), "$.outbounds");
}

#[test]
fn a_subscription_whose_nodes_are_all_referenced_is_accepted() {
    let wire = wire_subscription(vec![
        shadowsocks_outbound("a"),
        shadowsocks_outbound("b"),
        proxy_selector(&["a", "b"], "b"),
    ]);
    assert!(NormalizedSubscription::from_wire(&wire).is_ok());
}
