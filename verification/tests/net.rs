use sdroxide_ui::net::{
    fill_status, ClientMsg, Link, Product, ServerMsg, Slot, SocketEvent, SolarClient,
    DEFAULT_RESOLUTION,
};

#[test]
fn the_handshake_greets_once_the_socket_is_open() {
    let mut c = SolarClient::connect(3);
    assert_eq!(c.link, Link::Connecting);
    let (msg, slot) = c.poll(SocketEvent::Opened);
    assert!(matches!(msg, Some(ClientMsg::Hello { proto: 3 })));
    assert_eq!(slot, Slot::Nowhere);
    assert_eq!(c.link, Link::Connecting);
    c.poll(SocketEvent::Message(ServerMsg::HelloAck { proto: 3 }));
    assert_eq!(c.link, Link::Up);
}

#[test]
fn another_version_takes_the_link_down() {
    let mut c = SolarClient::connect(3);
    c.poll(SocketEvent::Message(ServerMsg::HelloAck { proto: 12 }));
    assert_eq!(
        c.link,
        Link::Down("solar protocol mismatch: server 12, client 3".to_string())
    );
}

#[test]
fn a_failure_says_why() {
    for (ev, why) in [
        (SocketEvent::BadMessage("eof".to_string()), "bad message: eof"),
        (SocketEvent::Error("refused".to_string()), "refused"),
        (SocketEvent::Closed, "connection closed"),
        (SocketEvent::Message(ServerMsg::Error("full".to_string())), "full"),
    ] {
        let mut c = SolarClient::connect(3);
        c.poll(ev);
        assert_eq!(c.link, Link::Down(why.to_string()));
    }
    let mut c = SolarClient::connect(3);
    c.poll(SocketEvent::Other);
    c.poll(SocketEvent::Message(ServerMsg::Pong));
    assert_eq!(c.link, Link::Connecting);
}

#[test]
fn a_channel_is_sent_once() {
    let mut c = SolarClient::connect(3);
    assert!(c.sync_channel(2, 2048).is_empty(), "nothing before the handshake");
    assert_eq!(c.sent_channel, None);
    c.apply(ServerMsg::HelloAck { proto: 3 });
    let m = c.sync_channel(2, 2048);
    assert!(matches!(m[..], [ClientMsg::SetChannel(2), ClientMsg::SetResolution(2048)]));
    assert!(c.sync_channel(2, 2048).is_empty());
    let m = c.sync_channel(2, DEFAULT_RESOLUTION);
    assert!(matches!(m[..], [ClientMsg::SetResolution(1024)]));
    // The server's own defaults need no telling.
    let mut c = SolarClient::connect(3);
    c.apply(ServerMsg::HelloAck { proto: 3 });
    assert!(c.sync_channel(0, DEFAULT_RESOLUTION).is_empty());
}

#[test]
fn products_find_their_place() {
    let mut c = SolarClient::connect(3);
    assert_eq!(c.apply(ServerMsg::Product(Product::Sun { decoded: true })), Slot::Sun);
    assert_eq!(c.apply(ServerMsg::Product(Product::Sun { decoded: false })), Slot::Nowhere);
    assert_eq!(c.apply(ServerMsg::Product(Product::Aurora)), Slot::Aurora);
    assert_eq!((c.sun_gen, c.aurora_gen), (1, 1));
    let slot = |p: Product| SolarClient::connect(3).apply(ServerMsg::Product(p));
    assert_eq!(slot(Product::Satellites { geo: true }), Slot::GeoSatellites);
    assert_eq!(slot(Product::Satellites { geo: false }), Slot::AmateurSatellites);
    assert_eq!(slot(Product::Clouds { infrared: true, decoded: true }), Slot::InfraredClouds);
    assert_eq!(slot(Product::Clouds { infrared: false, decoded: true }), Slot::VisibleClouds);
    assert_eq!(slot(Product::Clouds { infrared: true, decoded: false }), Slot::Nowhere);
    assert_eq!(slot(Product::Weather), Slot::Weather);
    assert_eq!(slot(Product::Events), Slot::Events);
    assert_eq!(slot(Product::Status), Slot::Status);
}

#[test]
fn the_contact_is_followed() {
    let mut c = SolarClient::connect(3);
    c.apply(ServerMsg::Digi {
        my_grid: "JN77".to_string(),
        dx_grid: Some("FN42".to_string()),
        transmitting: true,
    });
    assert_eq!((c.my_grid.as_str(), c.dx_grid.as_deref(), c.transmitting), ("JN77", Some("FN42"), true));
    c.apply(ServerMsg::Decodes(vec![]));
    assert!(c.decodes.is_empty());
}

#[test]
fn status_is_copied_as_far_as_both_have_it() {
    let mut slots = vec![1, 2, 3];
    fill_status(&mut slots, &[9, 8]);
    assert_eq!(slots, [9, 8, 3]);
    fill_status(&mut slots, &[7, 7, 7, 7]);
    assert_eq!(slots, [7, 7, 7]);
}
