use portal::addr::IpAddress;
use portal::codec::{decode_handshake, encode_handshake};
use portal::handshake::{AgentHandshake, Auth, Encryption, LocalInfo, ServiceInfo, Version};
use portal::ident::{AgentId, ParseError};

const ID_TEXT: &str = "3f2504e0-4f89-41d3-9a0c-0305e82c3301";

fn sample_handshake() -> AgentHandshake {
    AgentHandshake {
        agent_id: AgentId::parse_text(ID_TEXT).unwrap(),
        agent_name: None,
        auth: Auth::Key("secret-key".to_string()),
        version: Some(Version::parse("1.0.0").unwrap()),
        local_info: Some(LocalInfo {
            ip: IpAddress::new(127, 0, 0, 1),
            port: 8080,
        }),
        service_info: Some(ServiceInfo {
            target_ip: IpAddress::new(192, 168, 0, 1),
            target_port: 9000,
        }),
        encryption: Some(Encryption::new(
            "AES-256".to_string(),
            "encryption-key".to_string(),
        )),
        heartbeat_interval: 5000,
        timestamp: 1631234567890,
    }
}

#[test]
fn test_agent_handshake_serialization() {
    let handshake = sample_handshake();

    let serialized = encode_handshake(&handshake);
    let deserialized: AgentHandshake = decode_handshake(serialized.as_str()).unwrap();

    println!("{} - {}", serialized.len(), serialized);
    println!("{:?}", deserialized);

    assert_eq!(handshake, deserialized);
}

#[test]
fn test_agent_handshake_builder() {
    let handshake = AgentHandshake::builder()
        .agent_id_text(ID_TEXT)
        .unwrap()
        .auth_key("secret-key")
        .version("1.0.0")
        .unwrap()
        .local_info(LocalInfo {
            ip: IpAddress::new(127, 0, 0, 1),
            port: 8080,
        })
        .service_info(ServiceInfo {
            target_ip: IpAddress::new(192, 168, 0, 1),
            target_port: 9000,
        })
        .encryption(Encryption::new(
            "AES-256".to_string(),
            "encryption-key".to_string(),
        ))
        .heartbeat_interval(5000u32)
        .timestamp(1631234567890u64)
        .build()
        .unwrap();

    assert_eq!(handshake.agent_id.as_text(), ID_TEXT);
}

#[test]
fn test_builder_with_default() {
    let handshake = AgentHandshake::builder().build().unwrap();
    println!("{:?}", handshake);
}

#[test]
fn builder_defaults_are_the_documented_ones() {
    let handshake = AgentHandshake::builder().build().unwrap();
    assert_eq!(handshake.auth, Auth::Anonymous);
    assert_eq!(handshake.heartbeat_interval, 0);
    assert_eq!(handshake.timestamp, 0);
    assert!(handshake.agent_name.is_none());
    assert!(handshake.version.is_none());
    assert!(handshake.local_info.is_none());
    assert!(handshake.service_info.is_none());
    assert!(handshake.encryption.is_none());
}

#[test]
fn round_trip_with_all_optionals_absent() {
    let handshake = AgentHandshake::builder().build().unwrap();
    let wire = encode_handshake(&handshake);
    let back = decode_handshake(wire.as_str()).unwrap();
    assert_eq!(handshake, back);
}

#[test]
fn round_trip_with_all_optionals_present() {
    let handshake = AgentHandshake::builder()
        .agent_id_text(ID_TEXT)
        .unwrap()
        .agent_name("edge-agent")
        .auth_key("secret-key")
        .version("2.1.7")
        .unwrap()
        .local_info(LocalInfo {
            ip: IpAddress::new(10, 0, 0, 2),
            port: 65535,
        })
        .service_info(ServiceInfo {
            target_ip: IpAddress::new(172, 16, 254, 7),
            target_port: 1,
        })
        .encryption(Encryption::new("AES-256".to_string(), "k".to_string()))
        .heartbeat_interval(u32::MAX)
        .timestamp(u64::MAX)
        .build()
        .unwrap();
    let wire = encode_handshake(&handshake);
    let back = decode_handshake(wire.as_str()).unwrap();
    assert_eq!(handshake, back);
}

#[test]
fn round_trip_escapes_quotes_and_backslashes() {
    let handshake = AgentHandshake::builder()
        .agent_name("a\"b\\c")
        .auth_key("key\"with\\specials")
        .build()
        .unwrap();
    let wire = encode_handshake(&handshake);
    let back = decode_handshake(wire.as_str()).unwrap();
    assert_eq!(handshake, back);
}

#[test]
fn encoding_is_the_exact_canonical_text() {
    let handshake = AgentHandshake {
        agent_id: AgentId::parse_text(ID_TEXT).unwrap(),
        agent_name: Some("relay-7".to_string()),
        auth: Auth::Anonymous,
        version: None,
        local_info: Some(LocalInfo {
            ip: IpAddress::new(127, 0, 0, 1),
            port: 8080,
        }),
        service_info: None,
        encryption: None,
        heartbeat_interval: 0,
        timestamp: 42,
    };
    let wire = encode_handshake(&handshake);
    assert_eq!(
        wire,
        "{\"agent_id\":\"3f2504e0-4f89-41d3-9a0c-0305e82c3301\",\
         \"agent_name\":\"relay-7\",\"auth\":\"Anonymous\",\"version\":null,\
         \"local_info\":{\"ip\":\"127.0.0.1\",\"port\":8080},\
         \"service_info\":null,\"encryption\":null,\
         \"heartbeat_interval\":0,\"timestamp\":42}"
    );
}

#[test]
fn decode_rejects_garbage() {
    assert!(decode_handshake("").is_none());
    assert!(decode_handshake("{}").is_none());
    assert!(decode_handshake("{\"agent_id\":\"not-a-uuid\"}").is_none());
}

#[test]
fn decode_rejects_trailing_characters() {
    let wire = encode_handshake(&AgentHandshake::builder().build().unwrap());
    let mut longer = wire.clone();
    longer.push(' ');
    assert!(decode_handshake(longer.as_str()).is_none());
    assert!(decode_handshake(wire.as_str()).is_some());
}

#[test]
fn version_setter_reports_malformed_input() {
    let r = AgentHandshake::builder().version("not a version");
    assert_eq!(r.err(), Some(ParseError::Version));
    let r2 = AgentHandshake::builder().version("1.0.0");
    assert!(r2.is_ok());
}

#[test]
fn version_parse_extracts_the_numbers() {
    let v = Version::parse("1.2.3").unwrap();
    assert_eq!(v.major(), 1);
    assert_eq!(v.minor(), 2);
    assert_eq!(v.patch(), 3);
    assert_eq!(v.as_text(), "1.2.3");
    assert!(Version::parse("1.2").is_err());
}

#[test]
fn agent_id_rejects_non_canonical_text() {
    assert_eq!(
        AgentId::parse_text("agent-123").err(),
        Some(ParseError::Identifier)
    );
    assert_eq!(
        AgentId::parse_text("3F2504E0-4F89-41D3-9A0C-0305E82C3301").err(),
        Some(ParseError::Identifier)
    );
}

#[test]
fn generated_agent_ids_are_distinct_and_canonical() {
    let a = AgentId::generate();
    let b = AgentId::generate();
    assert_ne!(a, b);
    let text = a.as_text();
    assert_eq!(text.len(), 36);
    for (i, c) in text.chars().enumerate() {
        if i == 8 || i == 13 || i == 18 || i == 23 {
            assert_eq!(c, '-');
        } else {
            assert!(c.is_ascii_hexdigit() && !c.is_ascii_uppercase());
        }
    }
}

#[test]
fn agent_ids_from_the_same_text_are_equal() {
    let a = AgentId::parse_text(ID_TEXT).unwrap();
    let b = AgentId::parse_text(ID_TEXT).unwrap();
    assert_eq!(a, b);
    assert_eq!(a.as_text(), ID_TEXT);
}

#[test]
fn generate_agent_id_overwrites_a_set_identity() {
    let handshake = AgentHandshake::builder()
        .agent_id_text(ID_TEXT)
        .unwrap()
        .generate_agent_id()
        .build()
        .unwrap();
    assert_ne!(handshake.agent_id.as_text(), ID_TEXT);
}

#[test]
fn decode_ignores_unknown_members() {
    let handshake = sample_handshake();
    let wire = encode_handshake(&handshake);
    // A leading unknown member before every known field.
    let extended = wire.replacen(
        "{\"agent_id\":",
        "{\"trace\":\"abc\",\"agent_id\":",
        1,
    );
    let back = decode_handshake(extended.as_str()).unwrap();
    assert_eq!(handshake, back);
    // An unknown member in the middle, with a nested object value.
    let extended = wire.replacen(
        ",\"auth\":",
        ",\"extra\":{\"deep\":[1,2,{\"x\":null}]},\"auth\":",
        1,
    );
    let back = decode_handshake(extended.as_str()).unwrap();
    assert_eq!(handshake, back);
}

#[test]
fn decode_ignores_a_trailing_unknown_member() {
    let handshake = AgentHandshake::builder().build().unwrap();
    let wire = encode_handshake(&handshake);
    let body = &wire[..wire.len() - 1];
    let extended = format!("{},\"pad\":\"x\"}}", body);
    let back = decode_handshake(extended.as_str()).unwrap();
    assert_eq!(handshake, back);
}

#[test]
fn round_trip_escapes_control_characters() {
    let handshake = AgentHandshake::builder()
        .agent_name("line1\nline2\ttabbed\rreturn")
        .build()
        .unwrap();
    let wire = encode_handshake(&handshake);
    assert!(wire.contains("line1\\nline2\\ttabbed\\rreturn"));
    let back = decode_handshake(wire.as_str()).unwrap();
    assert_eq!(handshake, back);
}

#[test]
fn decode_reads_standard_escapes() {
    let plain = AgentHandshake::builder().build().unwrap();
    let wire = encode_handshake(&plain);
    let with_name = wire.replacen(
        "\"agent_name\":null",
        "\"agent_name\":\"a\\nb\"",
        1,
    );
    let back = decode_handshake(with_name.as_str()).unwrap();
    assert_eq!(back.agent_name.as_deref(), Some("a\nb"));
}
