use std::collections::hash_map::DefaultHasher;
use std::hash::{Hash, Hasher};

use pimax_alvr::config::{
    default_client_name, default_config_base, package_files_directory, ClientConfig, ConfigBase,
    Platform,
};
use pimax_alvr::discovery::{
    add_streamer, discovery_heartbeat_targets, ensure_alvr_mdns_registration, heartbeat_outcome,
    heartbeat_packet, last_known_server, mdns_registration, read_discovery_response,
    sort_streamers, DiscoveredStreamer, IpAddress, MdnsStep, SocketAddress,
};
use pimax_alvr::protocol::{
    alvr_protocol_string, hash_string, normalize_hostname, DiscoveryPacket, ProtocolId,
    DISCOVERY_PORT, STREAM_PORT,
};

const LAN_IP: u32 = u32::from_be_bytes([192, 168, 1, 5]);

#[test]
fn protocol_id_is_deterministic() {
    let a = ProtocolId::from_version("1.2.3");
    let b = ProtocolId::from_version("1.2.3");
    assert_eq!(a, b);
}

#[test]
fn discovery_packet_round_trips() {
    let packet = DiscoveryPacket {
        protocol_id: ProtocolId::from_version("1.2.3"),
        hostname: "pimax-crystal".to_string(),
    };

    let bytes = packet.encode();
    let decoded = DiscoveryPacket::decode(&bytes).expect("decode");
    assert_eq!(decoded, packet);
}

#[test]
fn discovery_packets_have_a_fixed_layout() {
    let packet = DiscoveryPacket {
        protocol_id: ProtocolId::from_u64(0x0102_0304_0506_0708),
        hostname: "pimax".to_string(),
    };
    let bytes = packet.encode();
    assert_eq!(bytes.len(), 56);
    assert_eq!(bytes[..4], *b"ALVR");
    assert_eq!(bytes[4..16], [0; 12]);
    assert_eq!(bytes[16..24], [8, 7, 6, 5, 4, 3, 2, 1]);
    assert_eq!(bytes[24..29], *b"pimax");
    assert_eq!(bytes[29..], [0; 27]);
}

#[test]
fn discovery_ignores_what_follows_the_packet() {
    let packet = DiscoveryPacket {
        protocol_id: ProtocolId::from_u64(7),
        hostname: "pimax".to_string(),
    };
    let mut bytes = packet.encode();
    bytes.push(1);
    assert_eq!(DiscoveryPacket::decode(&bytes), Some(packet));
}

#[test]
fn broken_discovery_packets_are_refused() {
    let packet = DiscoveryPacket {
        protocol_id: ProtocolId::from_u64(7),
        hostname: "pimax".to_string(),
    };
    let bytes = packet.encode();
    assert_eq!(DiscoveryPacket::decode(&bytes[..55]), None);
    let mut renamed = bytes.clone();
    renamed[0] = b'B';
    assert_eq!(DiscoveryPacket::decode(&renamed), None);
    let mut garbled = bytes;
    garbled[24] = 0xff;
    assert_eq!(DiscoveryPacket::decode(&garbled), None);
}

#[test]
fn long_names_are_cut() {
    let long = "0123456789012345678901234567890123456789";
    assert_eq!(normalize_hostname(long), *b"01234567890123456789012345678901");
}

#[test]
fn protocol_ids_are_written_in_hexadecimal() {
    let id = ProtocolId::from_u64(0x0123);
    assert_eq!(id.as_u64(), 0x0123);
    assert_eq!(id.as_bytes(), [0x23, 0x01, 0, 0, 0, 0, 0, 0]);
    assert_eq!(id.to_text(), "2301000000000000");
}

#[test]
fn hashes_follow_the_standard_hasher() {
    for text in ["", "/user/head", "20", "grüße"] {
        let mut hasher = DefaultHasher::new();
        text.hash(&mut hasher);
        assert_eq!(hash_string(text), hasher.finish());
    }
}

#[test]
fn alvr_protocol_string_stable_uses_major_only() {
    assert_eq!(alvr_protocol_string("20.14.1"), "20");
    assert_eq!(alvr_protocol_string("21.0.0"), "21");
}

#[test]
fn alvr_protocol_string_prerelease_appends_pre_tag() {
    assert_eq!(alvr_protocol_string("20.14.1-alpha.1"), "20-alpha.1");
    assert_eq!(alvr_protocol_string("21.0.0-rc.2"), "21-rc.2");
}

#[test]
fn alvr_protocol_string_unparseable_falls_back_to_input() {
    assert_eq!(alvr_protocol_string("not-a-version"), "not-a-version");
}

#[test]
fn releases_of_one_major_version_understand_each_other() {
    assert_eq!(ProtocolId::from_version("20.14.1"), ProtocolId::from_version("20.0.0"));
    assert_ne!(ProtocolId::from_version("20.14.1"), ProtocolId::from_version("21.0.0"));
}

#[test]
fn discovery_heartbeat_targets_include_broadcast_and_directed_ipv4() {
    let directed = u32::from_be_bytes([192, 168, 1, 44]);
    let targets = discovery_heartbeat_targets(Some(IpAddress::V4(directed)), 9943);

    assert_eq!(
        targets,
        vec![
            SocketAddress::V4 {
                ip: u32::from_be_bytes([255, 255, 255, 255]),
                port: 9943
            },
            SocketAddress::V4 {
                ip: directed,
                port: 9943
            },
        ]
    );
}

#[test]
fn discovery_heartbeat_targets_ignore_non_ipv4_directed_targets() {
    let targets = discovery_heartbeat_targets(
        Some(IpAddress::V6(0xfe80_0000_0000_0000_0000_0000_0000_0001)),
        DISCOVERY_PORT,
    );

    assert_eq!(
        targets,
        vec![SocketAddress::V4 {
            ip: u32::from_be_bytes([255, 255, 255, 255]),
            port: DISCOVERY_PORT
        }]
    );
}

#[test]
fn discovered_streamer_can_be_debugged() {
    let streamer = DiscoveredStreamer {
        addr: SocketAddress::V4 {
            ip: LAN_IP,
            port: DISCOVERY_PORT,
        },
        hostname: Some("pimax".to_string()),
        protocol_id: None,
    };
    let text = format!("{streamer:?}");
    assert!(text.contains("pimax"));
}

#[test]
fn heartbeats_succeed_where_one_target_was_reached() {
    assert_eq!(heartbeat_outcome(true, &vec!["lost".to_string()]), Ok(()));
    assert!(heartbeat_outcome(false, &vec!["a".to_string(), "b".to_string()]).is_err());
}

#[test]
fn heartbeats_name_the_client() {
    let mut config = ClientConfig::for_host(None, None);
    config.client_name = "pimax-test".to_string();
    let packet = DiscoveryPacket::decode(&heartbeat_packet(&config)).unwrap();
    assert_eq!(packet.hostname, "pimax-test");
    assert_eq!(packet.protocol_id, config.protocol_id());
}

#[test]
fn answers_of_other_versions_are_ignored() {
    let addr = SocketAddress::V4 {
        ip: LAN_IP,
        port: DISCOVERY_PORT,
    };
    let id = ProtocolId::from_version("20.14.1");
    let answer = DiscoveryPacket {
        protocol_id: id,
        hostname: "server".to_string(),
    }
    .encode();
    let found = read_discovery_response(&answer, addr, id).unwrap();
    assert_eq!(found.hostname.as_deref(), Some("server"));
    assert_eq!(found.protocol_id, Some(id));
    assert!(read_discovery_response(&answer, addr, ProtocolId::from_u64(1)).is_none());
    let other = read_discovery_response(&answer[..20], addr, id).unwrap();
    assert_eq!(other.addr, addr);
    assert_eq!(other.hostname, None);
    assert_eq!(other.protocol_id, None);
}

#[test]
fn servers_are_listed_once_and_in_order() {
    let streamer = |ip: u32, name: &str| DiscoveredStreamer {
        addr: SocketAddress::V4 { ip, port: 9943 },
        hostname: Some(name.to_string()),
        protocol_id: None,
    };
    let mut found = Vec::new();
    add_streamer(&mut found, streamer(LAN_IP + 1, "second"));
    add_streamer(&mut found, streamer(LAN_IP, "first"));
    add_streamer(&mut found, streamer(LAN_IP + 1, "again"));
    let sorted = sort_streamers(found);
    assert_eq!(sorted.len(), 2);
    assert_eq!(sorted[0].hostname.as_deref(), Some("first"));
    assert_eq!(sorted[1].hostname.as_deref(), Some("second"));
}

#[test]
fn the_service_is_announced_under_the_clients_name() {
    let mut config = ClientConfig::for_host(None, None);
    config.client_name = "pimax-test".to_string();
    let registration = mdns_registration(&config);
    assert_eq!(registration.protocol, "20");
    assert_eq!(registration.port, DISCOVERY_PORT);
    assert_eq!(registration.instance_name, "alvr-pimax-test");
    assert_eq!(registration.host_name, "pimax-test.local.");
    assert_eq!(registration.device_id, "pimax-test");
    assert!(matches!(ensure_alvr_mdns_registration(true, false), MdnsStep::Keep));
    assert!(matches!(ensure_alvr_mdns_registration(true, true), MdnsStep::Replace));
    assert!(matches!(ensure_alvr_mdns_registration(false, false), MdnsStep::Register));
}

#[test]
fn the_last_server_is_remembered() {
    let mut config = ClientConfig::for_host(None, None);
    assert!(last_known_server(&config).is_err());
    config.last_server_ip = Some("192.168.1.5".to_string());
    assert_eq!(last_known_server(&config).ok().as_deref(), Some("192.168.1.5"));
}

#[test]
fn default_config_has_required_fields() {
    let config = ClientConfig::for_host(None, None);
    assert!(!config.client_name.is_empty());
    assert_eq!(config.discovery_port, DISCOVERY_PORT);
    assert_eq!(config.stream_port, STREAM_PORT);
}

#[test]
fn client_names_come_from_the_machine() {
    assert_eq!(default_client_name(None, None), "pimax-crystal-og");
    assert_eq!(default_client_name(Some("desk"), Some("lap")), "desk");
    assert_eq!(default_client_name(None, Some("lap")), "lap");
    let long = "0123456789012345678901234567890123456789";
    assert_eq!(default_client_name(Some(long), None).len(), 32);
}

#[test]
fn a_new_version_renews_the_identity() {
    let mut config = ClientConfig::for_host(Some("desk"), None);
    config.version_string = "1.0.0".to_string();
    config.generated_for_version = Some("1.0.0".to_string());
    config.ensure_fresh_identity(Some("desk"), None);
    assert_eq!(config.version_string, "20.14.1");
    let before = config.clone();
    config.ensure_fresh_identity(Some("desk"), None);
    assert_eq!(config, before);
}

#[test]
fn configuration_directories_depend_on_the_platform() {
    assert!(matches!(
        default_config_base(Platform::Unix, true, true),
        ConfigBase::Primary
    ));
    assert!(matches!(
        default_config_base(Platform::Unix, false, true),
        ConfigBase::Fallback
    ));
    assert_eq!(package_files_directory(), "/sdcard/Android/data/com.pimax.alvr.client/files");
}

#[test]
fn the_first_save_names_the_version() {
    let mut config = ClientConfig::for_host(Some("desk"), None);
    assert_eq!(config.client_name, "desk");
    assert_eq!(config.generated_for_version, None);
    let saved = config.to_save();
    assert_eq!(saved.generated_for_version, Some(config.version_string.clone()));
    assert_eq!(saved.client_name, "desk");
    assert_eq!(saved.stream_port, STREAM_PORT);
    config.generated_for_version = Some("19.0.0".to_string());
    config.last_server_ip = Some("192.168.1.5".to_string());
    let saved = config.to_save();
    assert_eq!(saved.generated_for_version.as_deref(), Some("19.0.0"));
    assert_eq!(saved.last_server_ip.as_deref(), Some("192.168.1.5"));
}
