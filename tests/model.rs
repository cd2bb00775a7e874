use rtshark::{Layer, Metadata, Packet};

#[test]
fn metadata_accessors() {
    let ip_src = Metadata::new(
        "ip.src".to_string(),
        "127.0.0.1".to_string(),
        Some("Source: 127.0.0.1".to_string()),
        Some(4),
        Some(12),
    );
    assert_eq!(ip_src.name(), "ip.src");
    assert_eq!(ip_src.value(), "127.0.0.1");
    assert_eq!(ip_src.raw_value(), "127.0.0.1");
    assert_eq!(ip_src.display(), Some("Source: 127.0.0.1"));
    assert_eq!(ip_src.size(), Some(4));
    assert_eq!(ip_src.position(), Some(12));
}

#[test]
fn metadata_without_optional_parts() {
    let m = Metadata::new("ip.src".to_string(), "127.0.0.1".to_string(), None, None, None);
    assert_eq!(m.display(), None);
    assert_eq!(m.size(), None);
    assert_eq!(m.position(), None);
}

#[test]
fn metadata_keeps_raw_value_apart() {
    let m = Metadata::with_raw_value(
        "tcp.srcport".to_string(),
        "52796".to_string(),
        "ce3c".to_string(),
        None,
        None,
        None,
    );
    assert_eq!(m.value(), "52796");
    assert_eq!(m.raw_value(), "ce3c");
}

#[test]
fn layer_lookup_and_iteration() {
    let mut ip_layer = Layer::new("ip".to_string(), 1);
    assert_eq!(ip_layer.name(), "ip");
    assert_eq!(ip_layer.index(), 1);
    ip_layer.add(Metadata::new(
        "ip.src".to_string(),
        "127.0.0.1".to_string(),
        Some("Source: 127.0.0.1".to_string()),
        None,
        None,
    ));
    ip_layer.add(Metadata::new("ip.src".to_string(), "10.0.0.1".to_string(), None, None, None));
    let first = ip_layer.metadata("ip.src").unwrap();
    assert_eq!(first.display(), Some("Source: 127.0.0.1"));
    assert!(ip_layer.metadata("ip.dst").is_none());
    assert_eq!(ip_layer.iter().count(), 2);
    let values: Vec<String> = ip_layer.into_iter().map(|m| m.value().to_string()).collect();
    assert_eq!(values, vec!["127.0.0.1".to_string(), "10.0.0.1".to_string()]);
}

#[test]
fn packet_layers() {
    let mut packet = Packet::new();
    assert_eq!(packet.layer_count(), 0);
    assert_eq!(packet.timestamp_micros(), None);
    packet.push("eth".to_string());
    packet.push("ip".to_string());
    packet.push("ip".to_string());
    packet.push("tcp".to_string());
    assert_eq!(packet.layer_count(), 4);
    assert_eq!(packet.layer_index(0).unwrap().name(), "eth");
    assert_eq!(packet.layer_index(2).unwrap().index(), 2);
    assert!(packet.layer_index(4).is_none());
    assert_eq!(packet.layer_name("ip").unwrap().index(), 1);
    assert!(packet.layer_name("udp").is_none());
    let names: Vec<&str> = packet.iter().map(|l| l.name()).collect();
    assert_eq!(names, vec!["eth", "ip", "ip", "tcp"]);
    let owned: Vec<usize> = packet.into_iter().map(|l| l.index()).collect();
    assert_eq!(owned, vec![0, 1, 2, 3]);
}

#[test]
fn packet_push_if_not_exist() {
    let mut packet = Packet::new();
    packet.push_if_not_exist("ip".to_string());
    packet.push_if_not_exist("ip".to_string());
    assert_eq!(packet.layer_count(), 1);
    packet.push_if_not_exist("udp".to_string());
    packet.push_if_not_exist("ip".to_string());
    assert_eq!(packet.layer_count(), 3);
    assert_eq!(packet.layer_index(2).unwrap().name(), "ip");
}
