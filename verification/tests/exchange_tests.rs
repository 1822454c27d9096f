use rvpnse::crypto::{opened_message, sealed_message};
use rvpnse::tunnel::parse::default_gateway_given;
use rvpnse::error::VpnError;
use rvpnse::net::{IpAddress, SocketAddress};
use rvpnse::protocol::handler::ProtocolHandler;
use rvpnse::protocol::pack::Pack;
use rvpnse::protocol::watermark::{
    connect_url, handshake_reply, watermark_request, HandshakeStep, WatermarkBody, WatermarkResponse,
    SOFTETHER_WATERMARK,
};
use rvpnse::tunnel::routing::{
    nsswitch_dns_command, resolv_conf_backup_command, resolv_conf_install_commands, uses_systemd_resolved,
};

fn server() -> SocketAddress {
    SocketAddress { ip: IpAddress::V4(rvpnse::net::ipv4(10, 1, 2, 3)), port: 992 }
}

#[test]
fn watermark_requests() {
    let first = watermark_request(WatermarkBody::Connect);
    assert_eq!(first.content_type, "application/x-www-form-urlencoded");
    assert_eq!(first.body, b"VPNCONNECT".to_vec());
    let second = watermark_request(WatermarkBody::Watermark);
    assert_eq!(second.content_type, "image/gif");
    assert_eq!(second.body, SOFTETHER_WATERMARK.to_vec());
    assert_eq!(&second.body[..6], b"GIF89a");
    assert_eq!(connect_url("10.1.2.3", 992), "https://10.1.2.3:992/vpnsvc/connect.cgi");
}

#[test]
fn watermark_handshake_steps() {
    match handshake_reply(WatermarkBody::Connect, true, "200 OK", vec![9, 8]) {
        Ok(HandshakeStep::Done(r)) => {
            assert!(r.is_session_established());
            assert_eq!(r.response_data(), &[9u8, 8][..]);
        }
        _ => panic!("a successful reply establishes the session"),
    }
    assert!(matches!(
        handshake_reply(WatermarkBody::Connect, false, "403 Forbidden", vec![]),
        Ok(HandshakeStep::Send(WatermarkBody::Watermark))
    ));
    match handshake_reply(WatermarkBody::Watermark, false, "403 Forbidden", vec![]) {
        Err(VpnError::Protocol(m)) => assert_eq!(m, "Watermark handshake rejected: HTTP 403 Forbidden"),
        _ => panic!("a refused watermark ends the handshake"),
    }
}

#[test]
fn pack_exchange_needs_session() {
    let mut h = ProtocolHandler::new(server(), false).unwrap();
    let mut pack = Pack::new();
    pack.add_int("x", 1);
    match h.pack_request(&pack) {
        Err(VpnError::Protocol(m)) => assert_eq!(m, "Session not established"),
        _ => panic!("no exchange before the handshake"),
    }
    let resp = WatermarkResponse { session_established: true, response_data: vec![] };
    h.accept_handshake_with(&resp, 3).unwrap();
    let body = h.pack_request(&pack).unwrap();
    assert_eq!(body, pack.to_bytes().unwrap());
    let back = ProtocolHandler::pack_reply(true, "200 OK", body).unwrap();
    assert_eq!(back.get_int("x"), Some(1));
    match ProtocolHandler::pack_reply(false, "500 Internal Server Error", vec![]) {
        Err(VpnError::Protocol(m)) => assert_eq!(m, "PACK communication failed: HTTP 500 Internal Server Error"),
        _ => panic!("a failed status is an error"),
    }
    assert!(ProtocolHandler::pack_reply(true, "200 OK", vec![0, 0]).is_err());
}

#[test]
fn dns_set_up_commands() {
    assert!(uses_systemd_resolved("active\n"));
    assert!(!uses_systemd_resolved("inactive\n"));
    assert!(!uses_systemd_resolved(""));
    assert_eq!(resolv_conf_backup_command().args, vec!["cp", "/etc/resolv.conf", "/etc/resolv.conf.vpn_backup"]);
    let install = resolv_conf_install_commands();
    assert_eq!(install.len(), 3);
    assert_eq!(install[1].args, vec!["chmod", "644", "/etc/resolv.conf"]);
    assert_eq!(nsswitch_dns_command().args, vec!["sed", "-i", "/hosts:/s/$/ dns/", "/etc/nsswitch.conf"]);
}

#[test]
fn gateway_from_capture_or_words() {
    assert_eq!(default_gateway_given("anything", Some("10.9.8.7")), "10.9.8.7");
    assert_eq!(default_gateway_given("default dev ppp0 via gw1 x", None), "gw1");
    assert_eq!(default_gateway_given("default via", None), "192.168.1.1");
    assert_eq!(default_gateway_given("", None), "192.168.1.1");
}

#[test]
fn sealed_and_opened_messages() {
    assert_eq!(sealed_message(&[1, 2], Ok(vec![3, 4])).unwrap(), vec![1, 2, 3, 4]);
    match sealed_message(&[1, 2], Err("bad".to_string())) {
        Err(VpnError::Network(m)) => assert_eq!(m, "Encryption failed: bad"),
        _ => panic!("a sealing failure is a network error"),
    }
    assert_eq!(opened_message(Ok(vec![7])).unwrap(), vec![7]);
    match opened_message(Err("tag".to_string())) {
        Err(VpnError::Network(m)) => assert_eq!(m, "Decryption failed: tag"),
        _ => panic!("an opening failure is a network error"),
    }
}
