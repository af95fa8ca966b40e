use mpc_lanes::error::TransportError;
use mpc_lanes::net::{channel_for, establishment_plan, link_role, route_incoming, Address, Channel, DummyNetwork, LinkRole, LinkStep, Network, ParseAddressError};
use mpc_lanes::wire::{Handshake, StreamRole};

#[test]
fn address_new_keeps_fields() {
    let a = Address::new("localhost".to_string(), 10000);
    assert_eq!(a.hostname, "localhost");
    assert_eq!(a.port, 10000);
}

#[test]
fn address_parse_ok() {
    let a = Address::parse("example.org:8080").unwrap();
    assert_eq!(a, Address::new("example.org".to_string(), 8080));
    let b = Address::parse(":+0").unwrap();
    assert_eq!(b, Address::new(String::new(), 0));
}

#[test]
fn address_parse_format_errors() {
    assert_eq!(Address::parse("localhost"), Err(ParseAddressError::InvalidFormat));
    assert_eq!(Address::parse("a:b:1"), Err(ParseAddressError::InvalidFormat));
    assert_eq!(Address::parse(""), Err(ParseAddressError::InvalidFormat));
}

#[test]
fn address_parse_port_errors() {
    assert!(matches!(Address::parse("host:"), Err(ParseAddressError::InvalidPort(_))));
    assert!(matches!(Address::parse("host:65536"), Err(ParseAddressError::InvalidPort(_))));
    assert!(matches!(Address::parse("host:-1"), Err(ParseAddressError::InvalidPort(_))));
    assert!(matches!(Address::parse("host:12a"), Err(ParseAddressError::InvalidPort(_))));
}

#[test]
fn address_text_round_trip() {
    let a = Address::new("10.0.0.1".to_string(), 443);
    assert_eq!(a.to_text(), "10.0.0.1:443");
    assert_eq!(Address::parse(&a.to_text()).unwrap(), a);
    assert_eq!(Address::new("h".to_string(), 0).to_text(), "h:0");
}

#[test]
fn dummy_network_is_inert() {
    let nets = DummyNetwork::networks(3);
    assert_eq!(nets.len(), 3);
    let n = nets[0];
    assert_eq!(n.id(), 0);
    assert_eq!(n.send(1, &[1, 2, 3]), Ok(()));
    assert_eq!(n.recv(1), Ok(Vec::new()));
    assert!(DummyNetwork::networks(0).is_empty());
}

#[test]
fn lower_id_dials() {
    assert_eq!(link_role(0, 2), Some(LinkRole::Connect));
    assert_eq!(link_role(2, 0), Some(LinkRole::Accept));
    assert_eq!(link_role(1, 1), None);
}

#[test]
fn secure_streams_fill_opposite_channels() {
    assert_eq!(channel_for(LinkRole::Connect, StreamRole::LowToHigh), Channel::Send);
    assert_eq!(channel_for(LinkRole::Accept, StreamRole::LowToHigh), Channel::Recv);
    assert_eq!(channel_for(LinkRole::Connect, StreamRole::HighToLow), Channel::Recv);
    assert_eq!(channel_for(LinkRole::Accept, StreamRole::HighToLow), Channel::Send);
}

#[test]
fn incoming_connections_are_routed_by_header() {
    let h = Handshake { lane: 1, origin: 0, role: None };
    assert_eq!(route_incoming(&h, 2, 3, 2), Ok((1, 0)));
    let bad_lane = Handshake { lane: 2, origin: 0, role: None };
    assert_eq!(route_incoming(&bad_lane, 2, 3, 2), Err(TransportError::HandshakeFailed));
    let higher = Handshake { lane: 0, origin: 2, role: None };
    assert_eq!(route_incoming(&higher, 1, 3, 2), Err(TransportError::HandshakeFailed));
    let unknown = Handshake { lane: 0, origin: 5, role: None };
    assert_eq!(route_incoming(&unknown, 6, 3, 2), Err(TransportError::HandshakeFailed));
}

#[test]
fn plain_plan_lists_each_lane_and_peer_once() {
    let plan = establishment_plan(1, 3, 2, false);
    let expected = vec![
        LinkStep { lane: 0, role: None, peer: 0, link: LinkRole::Accept },
        LinkStep { lane: 0, role: None, peer: 2, link: LinkRole::Connect },
        LinkStep { lane: 1, role: None, peer: 0, link: LinkRole::Accept },
        LinkStep { lane: 1, role: None, peer: 2, link: LinkRole::Connect },
    ];
    assert_eq!(plan, expected);
}

#[test]
fn secure_plan_has_both_directions() {
    let plan = establishment_plan(0, 2, 1, true);
    let expected = vec![
        LinkStep { lane: 0, role: Some(StreamRole::LowToHigh), peer: 1, link: LinkRole::Connect },
        LinkStep { lane: 0, role: Some(StreamRole::HighToLow), peer: 1, link: LinkRole::Connect },
    ];
    assert_eq!(plan, expected);
    assert_eq!(establishment_plan(0, 4, 3, true).len(), 3 * 2 * 3);
    assert!(establishment_plan(0, 1, 5, false).is_empty());
    assert!(establishment_plan(0, 3, 0, true).is_empty());
}

#[test]
fn every_dummy_lane_has_id_zero() {
    for n in DummyNetwork::networks(4) {
        assert_eq!(n.id(), 0);
        assert_eq!(n.recv(3), Ok(vec![]));
        assert_eq!(n.send(2, &[]), Ok(()));
    }
}
