use orkactl::{validate_and_normalize, CustomError, Node};

fn get<'a>(n: &'a Node, key: &str) -> &'a Node {
    match n {
        Node::Mapping(pairs) => {
            for (k, v) in pairs {
                if let Node::Str(s) = k {
                    if s == key {
                        return v;
                    }
                }
            }
            panic!("key {} not found", key);
        },
        _ => panic!("not a mapping"),
    }
}

fn str_node(s: &str) -> Node {
    Node::Str(s.to_string())
}

#[test]
fn round_trip_valid_container() {
    let text = "version: \"1\"\nworkload:\n  kind: container\n  port: 8080\n  name: web\n  image: nginx\n";
    let tree = validate_and_normalize(text).unwrap();
    assert_eq!(get(&tree, "version"), &str_node("1"));
    let w = get(&tree, "workload");
    assert_eq!(get(w, "kind"), &str_node("Container"));
    assert_eq!(get(w, "port"), &str_node("8080"));
    assert_eq!(get(w, "name"), &str_node("web"));
    assert_eq!(get(w, "registry"), &str_node("Docker"));
    assert_eq!(get(w, "image"), &str_node("nginx"));
    assert_eq!(get(w, "environment"), &Node::List(vec![]));
    assert_eq!(get(w, "network"), &Node::List(vec![]));
}

#[test]
fn container_kind_produces_container_tag() {
    let text = "version: \"1\"\nworkload:\n  kind: container\n  port: 80\n  name: a\n  image: b\n";
    let tree = validate_and_normalize(text).unwrap();
    assert_eq!(get(get(&tree, "workload"), "kind"), &str_node("Container"));
}

#[test]
fn network_kind_produces_network_tag() {
    let text = "version: \"1\"\nworkload:\n  kind: network\n  name: net\n  allowService: [svc]\n";
    let tree = validate_and_normalize(text).unwrap();
    let w = get(&tree, "workload");
    assert_eq!(get(w, "kind"), &str_node("Network"));
    assert_eq!(get(w, "name"), &str_node("net"));
    assert_eq!(get(w, "allowService"), &Node::List(vec![str_node("svc")]));
    assert_eq!(get(w, "egress"), &Node::List(vec![]));
    assert_eq!(get(w, "ingress"), &Node::List(vec![]));
}

#[test]
fn unknown_kind_is_malformed() {
    let text = "version: \"1\"\nworkload:\n  kind: deployment\n  name: a\n";
    match validate_and_normalize(text) {
        Err(CustomError::FileContentError(_)) => {},
        other => panic!("expected a structural failure, got {:?}", other),
    }
}

#[test]
fn fail_fast_reports_egress_ip_before_ingress_port() {
    let text = "version: \"1\"\nworkload:\n  kind: network\n  name: net\n  allowService: []\n  egress:\n    - not-an-ip:\n        mask: 24\n  ingress:\n    - 10.0.0.1:\n        ports: [\"70000\"]\n";
    match validate_and_normalize(text) {
        Err(CustomError::InvalidIpAddress(ip)) => assert_eq!(ip, "not-an-ip"),
        other => panic!("expected InvalidIpAddress, got {:?}", other),
    }
}

#[test]
fn port_65535_validates() {
    let text = "version: \"1\"\nworkload:\n  kind: network\n  name: net\n  allowService: []\n  egress:\n    - 10.0.0.1:\n        ports: [\"65535\"]\n";
    assert!(validate_and_normalize(text).is_ok());
}

#[test]
fn port_65536_is_outside_range() {
    let text = "version: \"1\"\nworkload:\n  kind: network\n  name: net\n  allowService: []\n  egress:\n    - 10.0.0.1:\n        ports: [\"65536\"]\n";
    match validate_and_normalize(text) {
        Err(CustomError::OutsidePortRange(v)) => assert_eq!(v, 65536),
        other => panic!("expected OutsidePortRange, got {:?}", other),
    }
}

#[test]
fn range_end_70000_is_outside_range() {
    let text = "version: \"1\"\nworkload:\n  kind: network\n  name: net\n  allowService: []\n  egress:\n    - 10.0.0.1:\n        ports: [\"8000-70000\"]\n";
    match validate_and_normalize(text) {
        Err(CustomError::OutsidePortRange(v)) => assert_eq!(v, 70000),
        other => panic!("expected OutsidePortRange, got {:?}", other),
    }
}

#[test]
fn non_numeric_port_token_is_invalid_format() {
    let text = "version: \"1\"\nworkload:\n  kind: network\n  name: net\n  allowService: []\n  ingress:\n    - 10.0.0.1:\n        ports: [\"eighty\"]\n";
    match validate_and_normalize(text) {
        Err(CustomError::InvalidPortFormat(t)) => assert_eq!(t, "eighty"),
        other => panic!("expected InvalidPortFormat, got {:?}", other),
    }
}

#[test]
fn mask_bounds_validate() {
    for mask in ["0", "32"] {
        let text = format!(
            "version: \"1\"\nworkload:\n  kind: network\n  name: net\n  allowService: []\n  egress:\n    - 10.0.0.1:\n        mask: {}\n",
            mask
        );
        assert!(validate_and_normalize(&text).is_ok(), "mask {} should pass", mask);
    }
}

#[test]
fn mask_33_fails_structural_parsing() {
    let text = "version: \"1\"\nworkload:\n  kind: network\n  name: net\n  allowService: []\n  egress:\n    - 10.0.0.1:\n        mask: 33\n";
    match validate_and_normalize(text) {
        Err(CustomError::FileContentError(_)) => {},
        other => panic!("expected a structural failure, got {:?}", other),
    }
}

#[test]
fn omitted_mask_defaults_to_32() {
    let text = "version: \"1\"\nworkload:\n  kind: network\n  name: net\n  allowService: []\n  egress:\n    - 10.0.0.1:\n        ports: []\n";
    let tree = validate_and_normalize(text).unwrap();
    let egress = get(get(&tree, "workload"), "egress");
    let entry = match egress {
        Node::List(items) => &items[0],
        _ => panic!("egress is not a list"),
    };
    let rule = get(entry, "10.0.0.1");
    assert_eq!(get(rule, "mask"), &Node::Num(Some(32)));
    assert_eq!(get(rule, "ports"), &Node::List(vec![]));
}

#[test]
fn octet_range_is_not_checked() {
    let text = "version: \"1\"\nworkload:\n  kind: network\n  name: net\n  allowService: []\n  egress:\n    - 999.999.999.999:\n        ports: []\n";
    assert!(validate_and_normalize(text).is_ok());
}

#[test]
fn short_ip_literal_fails() {
    let text = "version: \"1\"\nworkload:\n  kind: network\n  name: net\n  allowService: []\n  egress:\n    - 1.2.3:\n        ports: []\n";
    match validate_and_normalize(text) {
        Err(CustomError::InvalidIpAddress(ip)) => assert_eq!(ip, "1.2.3"),
        other => panic!("expected InvalidIpAddress, got {:?}", other),
    }
}

#[test]
fn long_group_ip_literal_fails() {
    let text = "version: \"1\"\nworkload:\n  kind: network\n  name: net\n  allowService: []\n  egress:\n    - 1.2.3.4567:\n        ports: []\n";
    match validate_and_normalize(text) {
        Err(CustomError::InvalidIpAddress(ip)) => assert_eq!(ip, "1.2.3.4567"),
        other => panic!("expected InvalidIpAddress, got {:?}", other),
    }
}

#[test]
fn environment_is_sorted_and_deduplicated() {
    let text = "version: \"1\"\nworkload:\n  kind: container\n  port: 80\n  name: a\n  image: b\n  environment:\n    - ZED=1\n    - ALPHA=2\n    - ZED=1\n";
    let tree = validate_and_normalize(text).unwrap();
    let env = get(get(&tree, "workload"), "environment");
    assert_eq!(env, &Node::List(vec![str_node("ALPHA=2"), str_node("ZED=1")]));
}

#[test]
fn port_out_of_u32_range_is_malformed() {
    let text = "version: \"1\"\nworkload:\n  kind: container\n  port: 4294967296\n  name: a\n  image: b\n";
    match validate_and_normalize(text) {
        Err(CustomError::FileContentError(_)) => {},
        other => panic!("expected a structural failure, got {:?}", other),
    }
}

#[test]
fn negative_port_is_malformed() {
    let text = "version: \"1\"\nworkload:\n  kind: container\n  port: -1\n  name: a\n  image: b\n";
    match validate_and_normalize(text) {
        Err(CustomError::FileContentError(_)) => {},
        other => panic!("expected a structural failure, got {:?}", other),
    }
}

#[test]
fn string_port_is_malformed() {
    let text = "version: \"1\"\nworkload:\n  kind: container\n  port: \"8080\"\n  name: a\n  image: b\n";
    match validate_and_normalize(text) {
        Err(CustomError::FileContentError(_)) => {},
        other => panic!("expected a structural failure, got {:?}", other),
    }
}

#[test]
fn empty_name_is_malformed() {
    let text = "version: \"1\"\nworkload:\n  kind: container\n  port: 80\n  name: \"\"\n  image: b\n";
    match validate_and_normalize(text) {
        Err(CustomError::FileContentError(_)) => {},
        other => panic!("expected a structural failure, got {:?}", other),
    }
}

#[test]
fn ghcr_registry_is_kept_and_capitalized() {
    let text = "version: \"1\"\nworkload:\n  kind: container\n  port: 80\n  name: a\n  image: b\n  registry: ghcr\n";
    let tree = validate_and_normalize(text).unwrap();
    assert_eq!(get(get(&tree, "workload"), "registry"), &str_node("Ghcr"));
}

#[test]
fn unknown_registry_is_malformed() {
    let text = "version: \"1\"\nworkload:\n  kind: container\n  port: 80\n  name: a\n  image: b\n  registry: quay\n";
    match validate_and_normalize(text) {
        Err(CustomError::FileContentError(_)) => {},
        other => panic!("expected a structural failure, got {:?}", other),
    }
}

#[test]
fn read_failure_maps_into_the_taxonomy() {
    assert_eq!(
        CustomError::from_read_failure(true, "work.yaml".to_string()),
        CustomError::FileNotFound("work.yaml".to_string())
    );
    assert_eq!(
        CustomError::from_read_failure(false, "work.yaml".to_string()),
        CustomError::FileCouldNotBeRead
    );
}

#[test]
fn unparseable_text_is_malformed() {
    let text = "workload: [unclosed\n";
    match validate_and_normalize(text) {
        Err(CustomError::FileContentError(_)) => {},
        other => panic!("expected a structural failure, got {:?}", other),
    }
}
