use rvpnse::net::IpAddress;
use rvpnse::protocol::binary::{SoftEtherPacket, PACKET_TYPE_KEEPALIVE};
use rvpnse::protocol::pack::{ElementType, Pack, Value};
use rvpnse::protocol::packets::{Packet, PacketBuilder, PacketType};
use rvpnse::protocol::watermark::{WatermarkResponse, SOFTETHER_WATERMARK};
use rvpnse::protocol::handler::ProtocolHandler;
use rvpnse::net::SocketAddress;
use rvpnse::protocol::session::SessionManager;
use rvpnse::config::Config;

#[test]
fn test_pack_creation() {
    let mut pack = Pack::new();
    pack.add_int("test_int", 42);
    pack.add_str("test_str", "hello");
    pack.add_data("test_data", vec![1, 2, 3, 4]);

    assert_eq!(pack.get_int("test_int"), Some(42));
    assert_eq!(pack.get_str("test_str"), Some(&"hello".to_string()));
    assert_eq!(pack.get_data("test_data"), Some(&vec![1, 2, 3, 4]));
}

#[test]
fn test_pack_serialization() {
    let mut pack = Pack::new();
    pack.add_int("test_int", 42);
    pack.add_str("test_str", "hello");

    let bytes = pack.to_bytes().unwrap();
    let deserialized = Pack::from_bytes(bytes).unwrap();

    assert_eq!(deserialized.get_int("test_int"), Some(42));
    assert_eq!(deserialized.get_str("test_str"), Some(&"hello".to_string()));
}

#[test]
fn test_ip_address_handling() {
    let mut pack = Pack::new();
    let ipv4 = IpAddress::V4(rvpnse::net::ipv4(192, 168, 1, 1));
    pack.add_ip("server_ip", ipv4);

    let serialized = pack.to_bytes().unwrap();
    let deserialized = Pack::from_bytes(serialized).unwrap();

    assert!(deserialized.get_int("server_ip").is_some());
}

#[test]
fn test_unicode_string() {
    let mut pack = Pack::new();
    pack.add_unistr("unicode_test", "Hello 世界 🌍");

    let serialized = pack.to_bytes().unwrap();
    let deserialized = Pack::from_bytes(serialized).unwrap();

    assert_eq!(deserialized.get_str("unicode_test"), Some(&"Hello 世界 🌍".to_string()));
}

#[test]
fn pack_bytes_are_exact() {
    let mut pack = Pack::new();
    pack.add_int("a", 5);
    let bytes = pack.to_bytes().unwrap();
    assert_eq!(
        bytes,
        vec![0, 0, 0, 1, 0, 0, 0, 2, b'a', 0, 0, 0, 0, 0, 0, 0, 0, 1, 0, 0, 0, 4, 0, 0, 0, 5]
    );
}

#[test]
fn pack_roundtrip_keeps_every_kind() {
    let mut pack = Pack::new();
    pack.add_int64("big", 0x0102_0304_0506_0708);
    pack.add_int_array("list", vec![1, 2, 3]);
    pack.add_data("blob", vec![9, 8, 7]);
    let back = Pack::from_bytes(pack.to_bytes().unwrap()).unwrap();
    assert_eq!(back.get_int64("big"), Some(0x0102_0304_0506_0708));
    assert_eq!(back.get_int("list"), Some(1));
    assert_eq!(back.get_data("blob"), Some(&vec![9, 8, 7]));
}

#[test]
fn pack_from_bytes_rejects_short_input() {
    assert!(Pack::from_bytes(vec![0, 0]).is_err());
}

#[test]
fn element_type_codes() {
    assert_eq!(ElementType::from_code(0).unwrap(), ElementType::Int);
    assert_eq!(ElementType::from_code(4).unwrap(), ElementType::Int64);
    assert_eq!(ElementType::from_code(9).unwrap(), ElementType::Data);
    assert!(ElementType::from_code(10001).is_err());
    assert_eq!(Value::Int(3).element_type(), ElementType::Int);
}

#[test]
fn packets_test_packet_serialization() {
    let packet = Packet::new(PacketType::Handshake, 1, b"test payload".to_vec());

    let serialized = packet.serialize().unwrap();
    let deserialized = Packet::deserialize(serialized).unwrap();

    assert_eq!(packet.packet_type, deserialized.packet_type);
    assert_eq!(packet.sequence, deserialized.sequence);
    assert_eq!(packet.payload, deserialized.payload);
}

#[test]
fn test_packet_type_conversion() {
    assert_eq!(PacketType::try_from(0x01).unwrap(), PacketType::Handshake);
    assert_eq!(PacketType::try_from(0x02).unwrap(), PacketType::Auth);
    assert_eq!(PacketType::try_from(0x03).unwrap(), PacketType::Data);
    assert_eq!(PacketType::try_from(0x04).unwrap(), PacketType::Keepalive);
    assert_eq!(PacketType::try_from(0x05).unwrap(), PacketType::Disconnect);

    assert!(PacketType::try_from(0xFF).is_err());
}

#[test]
fn test_packet_builder() {
    let handshake = PacketBuilder::handshake(1, 1, "test-client").unwrap();
    assert_eq!(handshake.packet_type, PacketType::Handshake);
    assert_eq!(handshake.sequence, 1);

    let auth = PacketBuilder::auth(2, "user", "pass").unwrap();
    assert_eq!(auth.packet_type, PacketType::Auth);
    assert_eq!(auth.sequence, 2);

    let keepalive = PacketBuilder::keepalive(3).unwrap();
    assert_eq!(keepalive.packet_type, PacketType::Keepalive);
    assert_eq!(keepalive.sequence, 3);
    assert!(keepalive.payload.is_empty());
}

#[test]
fn test_invalid_packet() {
    let short_data = vec![0x01, 0x02];
    assert!(Packet::deserialize(short_data).is_err());

    let mut invalid_magic: Vec<u8> = Vec::new();
    invalid_magic.extend_from_slice(&0xDEAD_BEEFu32.to_be_bytes());
    invalid_magic.push(0x01);
    invalid_magic.extend_from_slice(&1u32.to_be_bytes());
    assert!(Packet::deserialize(invalid_magic).is_err());
}

#[test]
fn binary_test_packet_serialization() {
    let packet = SoftEtherPacket::create_hello();
    let bytes = packet.to_bytes();
    let parsed = SoftEtherPacket::from_bytes(bytes).unwrap();

    assert_eq!(packet.packet_type, parsed.packet_type);
    assert_eq!(packet.session_id, parsed.session_id);
    assert_eq!(packet.sequence, parsed.sequence);
    assert_eq!(packet.data, parsed.data);
}

#[test]
fn test_keepalive_packet() {
    let packet = SoftEtherPacket::create_keepalive(12345, 100);
    assert_eq!(packet.packet_type, PACKET_TYPE_KEEPALIVE);
    assert_eq!(packet.session_id, 12345);
    assert_eq!(packet.sequence, 100);
}

#[test]
fn test_watermark_data() {
    assert_eq!(&SOFTETHER_WATERMARK[0..6], b"GIF89a");
    assert!(SOFTETHER_WATERMARK.len() > 100);
}

#[test]
fn watermark_response_accessors() {
    let r = WatermarkResponse { session_established: true, response_data: vec![1, 2] };
    assert!(r.is_session_established());
    assert_eq!(r.response_data(), &[1u8, 2][..]);
}

fn local_addr() -> SocketAddress {
    SocketAddress { ip: IpAddress::V4(rvpnse::net::ipv4(127, 0, 0, 1)), port: 443 }
}

#[test]
fn handshake_gives_numbered_session() {
    let mut h = ProtocolHandler::new(local_addr(), false).unwrap();
    assert!(!h.has_session());
    let resp = WatermarkResponse { session_established: true, response_data: vec![] };
    h.accept_handshake_with(&resp, 42).unwrap();
    assert!(h.has_session());
    assert_eq!(h.session_id(), Some("session_42"));
    let refused = WatermarkResponse { session_established: false, response_data: vec![] };
    let mut h2 = ProtocolHandler::new(local_addr(), false).unwrap();
    assert!(h2.accept_handshake_with(&refused, 1).is_err());
    assert!(!h2.has_session());
}

#[test]
fn data_pack_carries_session_packet_and_time() {
    let mut h = ProtocolHandler::new(local_addr(), true).unwrap();
    let resp = WatermarkResponse { session_established: true, response_data: vec![] };
    h.accept_handshake_with(&resp, 7).unwrap();
    let p = h.create_data_pack_at(&[1, 2, 3], 1000);
    assert_eq!(p.get_str("session_id"), Some(&"session_7".to_string()));
    assert_eq!(p.get_data("packet_data"), Some(&vec![1, 2, 3]));
    assert_eq!(p.get_int64("timestamp"), Some(1000));
    let k = h.create_keepalive_pack_at(5);
    assert_eq!(k.get_str("type"), Some(&"keepalive".to_string()));
}

#[test]
fn session_manager_lifecycle() {
    let config = Config::default_test();
    let mut m = SessionManager::new(&config).unwrap();
    assert!(!m.is_active());
    assert!(m.send_keepalive_at(5).is_err());
    m.start_session_at(99, 10).unwrap();
    assert!(m.is_active());
    assert_eq!(m.session_duration_at(25), Some(15));
    m.send_keepalive_at(20).unwrap();
    assert_eq!(m.time_since_keepalive_at(26), Some(6));
    m.end_session();
    assert!(m.session_id().is_none());
    let id = m.start_session().unwrap();
    assert_eq!((id >> 76) & 0xf, 4);
}
