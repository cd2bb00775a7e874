use rtshark::decoder::{build_metadata, geninfo_timestamp, Context};
use rtshark::markup::AttrError;
use rtshark::text::{parse_i64_bytes, parse_u32_bytes};
use rtshark::timestamp::{parse_timestamp, split_timestamp_bytes};
use rtshark::{parse_xml, Attribute, DecodeError, Decoder, Fed, Packet, Tag, XmlEvent};
use std::io::BufReader;

fn decode_all(xml: &str, filters: &[String]) -> Vec<Result<Option<Packet>, DecodeError>> {
    let mut reader = quick_xml::Reader::from_reader(BufReader::new(xml.as_bytes()));
    let mut out = vec![];
    loop {
        let r = parse_xml(&mut reader, filters);
        let stop = !matches!(r, Ok(Some(_)));
        out.push(r);
        if stop {
            return out;
        }
    }
}

fn first(xml: &str, filters: &[String]) -> Result<Option<Packet>, DecodeError> {
    let mut reader = quick_xml::Reader::from_reader(BufReader::new(xml.as_bytes()));
    parse_xml(&mut reader, filters)
}

fn tag(name: &str, attrs: &[(&str, &str)]) -> Tag {
    Tag {
        name: name.as_bytes().to_vec(),
        attributes: attrs
            .iter()
            .map(|(k, v)| Some(Attribute { key: k.as_bytes().to_vec(), value: v.as_bytes().to_vec() }))
            .collect(),
    }
}

#[test]
fn show_only_field_value_and_raw_value() {
    let xml = r#"<pdml><packet><proto name="ip"><field name="ip.ttl" show="64"/></proto></packet></pdml>"#;
    let pkt = first(xml, &[]).unwrap().unwrap();
    let m = pkt.layer_name("ip").unwrap().metadata("ip.ttl").unwrap();
    assert_eq!(m.value(), "64");
    assert_eq!(m.raw_value(), "64");
    assert_eq!(m.display(), None);
}

#[test]
fn show_value_showname_all_present() {
    let t = tag("field", &[("name", "tcp.srcport"), ("show", "52796"), ("value", "ce3c"), ("showname", "Source Port: 52796")]);
    let m = build_metadata(&t, &[]).unwrap().unwrap();
    assert_eq!(m.value(), "52796");
    assert_eq!(m.raw_value(), "ce3c");
    assert_ne!(m.raw_value(), m.value());
    assert_eq!(m.display(), Some("Source Port: 52796"));
}

#[test]
fn equal_show_and_value_keep_no_raw_value() {
    let t = tag("field", &[("name", "ip.ttl"), ("show", "64"), ("value", "64")]);
    let m = build_metadata(&t, &[]).unwrap().unwrap();
    assert_eq!(m.raw_value(), "64");
}

#[test]
fn size_and_position_are_best_effort() {
    let t = tag("field", &[("name", "ip.ttl"), ("show", "64"), ("pos", "+22"), ("size", "x1")]);
    let m = build_metadata(&t, &[]).unwrap().unwrap();
    assert_eq!(m.position(), Some(22));
    assert_eq!(m.size(), None);
    let t = tag("field", &[("name", "ip.ttl"), ("show", "64"), ("size", "4294967296")]);
    assert_eq!(build_metadata(&t, &[]).unwrap().unwrap().size(), None);
}

#[test]
fn field_without_value_attributes_is_missing_attribute() {
    let t = tag("field", &[("name", "frame.time"), ("pos", "0")]);
    assert_eq!(build_metadata(&t, &[]), Err(DecodeError::MissingAttribute));
}

#[test]
fn field_without_name_is_missing_attribute() {
    let xml = r#"<pdml><packet><proto name="frame"><field show="x"/></proto></packet></pdml>"#;
    assert_eq!(first(xml, &[]), Err(DecodeError::MissingAttribute));
}

#[test]
fn broken_attribute_list_is_malformed_attribute() {
    let t = Tag { name: b"field".to_vec(), attributes: vec![None] };
    assert_eq!(build_metadata(&t, &[]), Err(DecodeError::MalformedAttribute));
    let t = Tag {
        name: b"field".to_vec(),
        attributes: vec![Some(Attribute { key: b"name".to_vec(), value: vec![0xff, 0x2e] })],
    };
    assert_eq!(build_metadata(&t, &[]), Err(DecodeError::MalformedAttribute));
}

#[test]
fn non_ascii_values_are_decoded() {
    let t = tag("field", &[("name", "http.host"), ("show", "caf\u{e9}.example")]);
    let m = build_metadata(&t, &[]).unwrap().unwrap();
    assert_eq!(m.value(), "caf\u{e9}.example");
}

#[test]
fn diagnostic_and_empty_names_are_skipped() {
    let t = tag("field", &[("name", "_ws.expert"), ("show", "x")]);
    assert_eq!(build_metadata(&t, &[]), Ok(None));
    let t = tag("field", &[("name", ""), ("show", "x")]);
    assert_eq!(build_metadata(&t, &[]), Ok(None));
}

#[test]
fn repeated_protocol_makes_consecutive_layers() {
    let xml = r#"<pdml><packet>
        <proto name="eth"><field name="eth.type" show="0x0800"/></proto>
        <proto name="ip"><field name="ip.src" show="10.0.0.1"/></proto>
        <proto name="ip"><field name="ip.src" show="10.0.0.2"/></proto>
        </packet></pdml>"#;
    let pkt = first(xml, &[]).unwrap().unwrap();
    assert_eq!(pkt.layer_count(), 3);
    assert_eq!(pkt.layer_index(1).unwrap().name(), "ip");
    assert_eq!(pkt.layer_index(2).unwrap().name(), "ip");
    assert_eq!(pkt.layer_index(2).unwrap().index(), 2);
    let ip = pkt.layer_name("ip").unwrap();
    assert_eq!(ip.index(), 1);
    assert_eq!(ip.metadata("ip.src").unwrap().value(), "10.0.0.1");
}

#[test]
fn filtered_only_field_makes_no_layer() {
    let xml = r#"<pdml><packet>
        <field name="ip.src" show="127.0.0.1"/>
        <field name="udp.dstport" show="53"/>
        </packet></pdml>"#;
    let pkt = first(xml, &["ip.src".to_string()]).unwrap().unwrap();
    assert_eq!(pkt.layer_count(), 1);
    assert_eq!(pkt.layer_index(0).unwrap().name(), "udp");
    assert!(pkt.layer_name("ip").is_none());
}

#[test]
fn ungrouped_fields_make_their_own_layers() {
    let xml = r#"<pdml><packet>
        <proto name="geninfo"><field name="num" show="1" value="1"/></proto>
        <field name="ip.src" show="127.0.0.1"/>
        <field name="ip.dst" show="127.0.0.2"/>
        <field name="udp.dstport" show="53"/>
        </packet></pdml>"#;
    let pkt = first(xml, &[]).unwrap().unwrap();
    assert_eq!(pkt.layer_count(), 2);
    assert_eq!(pkt.layer_index(0).unwrap().iter().count(), 2);
    assert_eq!(pkt.layer_name("udp").unwrap().metadata("udp.dstport").unwrap().value(), "53");
}

#[test]
fn geninfo_timestamp_sets_packet_time() {
    let xml = r#"<pdml><packet>
        <proto name="geninfo">
          <field name="num" show="1" value="1"/>
          <field name="timestamp" show="May  8, 2022 12:06:00.275852000 UTC" value="1652011560.275852000"/>
        </proto>
        <proto name="frame"><field name="frame.len" show="60"/></proto>
        </packet></pdml>"#;
    let pkt = first(xml, &[]).unwrap().unwrap();
    assert_eq!(pkt.timestamp_micros(), Some(1652011560275852));
    assert_eq!(pkt.layer_count(), 1);
}

#[test]
fn bad_timestamp_is_an_error() {
    let t = tag("field", &[("name", "timestamp"), ("value", "1652011560")]);
    assert_eq!(geninfo_timestamp(&t), Err(DecodeError::BadTimestamp));
    let t = tag("field", &[("name", "timestamp"), ("value", "abc.5")]);
    assert_eq!(geninfo_timestamp(&t), Err(DecodeError::BadTimestamp));
    let t = tag("field", &[("name", "timestamp"), ("value", "1.2000000000")]);
    assert_eq!(geninfo_timestamp(&t), Err(DecodeError::BadTimestamp));
    let t = tag("field", &[("name", "timestamp"), ("show", "1.5")]);
    assert_eq!(geninfo_timestamp(&t), Err(DecodeError::MissingAttribute));
    let t = tag("field", &[("name", "num"), ("value", "junk")]);
    assert_eq!(geninfo_timestamp(&t), Ok(None));
}

#[test]
fn timestamp_arithmetic() {
    assert_eq!(parse_timestamp(b"1652011560.275852000"), Some(1652011560275852));
    assert_eq!(parse_timestamp(b"0.999"), Some(0));
    assert_eq!(parse_timestamp(b"-1.500000000"), Some(-500000));
    assert_eq!(parse_timestamp(b"9223372036854775807.0"), None);
    assert_eq!(split_timestamp_bytes(b"12.34.5"), None);
    assert_eq!(split_timestamp_bytes(b"+12.034"), Some((12, 34)));
}

#[test]
fn decimal_parsing() {
    assert_eq!(parse_u32_bytes(b"4294967295"), Some(u32::MAX));
    assert_eq!(parse_u32_bytes(b"4294967296"), None);
    assert_eq!(parse_u32_bytes(b"+7"), Some(7));
    assert_eq!(parse_u32_bytes(b"-7"), None);
    assert_eq!(parse_u32_bytes(b""), None);
    assert_eq!(parse_u32_bytes(b"+"), None);
    assert_eq!(parse_i64_bytes(b"-9223372036854775808"), Some(i64::MIN));
    assert_eq!(parse_i64_bytes(b"9223372036854775807"), Some(i64::MAX));
    assert_eq!(parse_i64_bytes(b"9223372036854775808"), None);
    assert_eq!(parse_i64_bytes(b"-"), None);
    assert_eq!(parse_i64_bytes(b"12a"), None);
}

#[test]
fn three_packets_then_end() {
    let xml = r#"<pdml>
        <packet><proto name="tcp"></proto></packet>
        <packet><proto name="udp"></proto></packet>
        <packet><proto name="igmp"></proto></packet>
        </pdml>"#;
    let results = decode_all(xml, &[]);
    assert_eq!(results.len(), 4);
    assert!(results[..3].iter().all(|r| matches!(r, Ok(Some(_)))));
    assert_eq!(results[3], Ok(None));
}

#[test]
fn wrapped_field_of_absent_protocol_is_dropped() {
    let xml = r#"<pdml><packet>
        <proto name="ip"><field name="ip.src" show="1.1.1.1"/></proto>
        <proto name="fake-field-wrapper">
          <field name="tcp.reassembled.data" show="aa"/>
          <field name="ip.checksum" show="0x1"/>
        </proto>
        </packet></pdml>"#;
    let pkt = first(xml, &[]).unwrap().unwrap();
    assert_eq!(pkt.layer_count(), 1);
    let ip = pkt.layer_name("ip").unwrap();
    assert!(ip.metadata("tcp.reassembled.data").is_none());
    assert_eq!(ip.metadata("ip.checksum").unwrap().value(), "0x1");
    assert_eq!(ip.iter().count(), 2);
}

#[test]
fn broken_markup_reports_offset() {
    let xml = r#"<pdml><packet><proto name="ip"></field></packet></pdml>"#;
    match first(xml, &[]) {
        Err(DecodeError::Markup { offset, message }) => {
            assert!(offset > 0);
            assert!(!message.is_empty());
        }
        other => panic!("unexpected {other:?}"),
    }
}

#[test]
fn decoder_fed_by_hand() {
    let d = Decoder::new();
    let d = match d.feed(&XmlEvent::Start(tag("packet", &[])), &[]) {
        Fed::More(d) => d,
        Fed::Done(r) => panic!("unexpected {r:?}"),
    };
    let d = match d.feed(&XmlEvent::Empty(tag("field", &[("name", "udp.port"), ("show", "53")])), &[]) {
        Fed::More(d) => d,
        Fed::Done(r) => panic!("unexpected {r:?}"),
    };
    let d = match d.feed(&XmlEvent::Other, &[]) {
        Fed::More(d) => d,
        Fed::Done(r) => panic!("unexpected {r:?}"),
    };
    match d.feed(&XmlEvent::End(b"packet".to_vec()), &[]) {
        Fed::Done(Ok(Some(p))) => {
            assert_eq!(p.layer_count(), 1);
            assert_eq!(p.layer_index(0).unwrap().name(), "udp");
        }
        _ => panic!("packet expected"),
    }
    match Decoder::new().feed(&XmlEvent::Eof, &[]) {
        Fed::Done(Ok(None)) => {}
        _ => panic!("end expected"),
    }
    let _ = Context::Outside;
    let _ = AttrError::Missing;
}
