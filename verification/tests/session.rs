use bililive::connector::{ConnectError, Connector, Host};
use bililive::packet::{Auth, Data, DispatchAction, EventParseError, RawPacket};
use bililive::room::{self, InboundAction, RoomService, StreamMessage};

fn two_hosts() -> Vec<Host> {
    vec![
        Host { host: String::from("first.example"), wss_port: 443 },
        Host { host: String::from("second.example"), wss_port: 2245 },
    ]
}

#[test]
fn empty_host_list_fails_immediately() {
    let svc = RoomService::new(510).into_disconnected(String::from("tok"), Vec::new());
    assert!(matches!(svc.connect_url(), Err(room::ConnectError::HostListIsEmpty)));
}

#[test]
fn connector_empty_host_list_fails_immediately() {
    let connector = Connector::new(510, 7, String::from("tok"), Vec::new());
    assert!(matches!(connector.prepare_connect(), Err(ConnectError::HostListIsEmpty)));
}

#[test]
fn connect_url_uses_first_host() {
    let svc = RoomService::new(1)
        .with_room_id(Some(510))
        .into_disconnected(String::from("tok"), two_hosts());
    assert_eq!(svc.room_id(), 510);
    assert_eq!(svc.connect_url().unwrap(), "wss://first.example:443/sub");
}

#[test]
fn unresolved_room_id_is_kept() {
    let svc = RoomService::new(23).with_room_id(None);
    assert_eq!(svc.room_id(), 23);
}

#[test]
fn wss_url_format() {
    let host = Host { host: String::from("h.example"), wss_port: 8080 };
    assert_eq!(host.wss(), "wss://h.example:8080/sub");
}

#[test]
fn use_host_selects_and_reports_out_of_range() {
    let mut connector = Connector::new(510, 7, String::from("tok"), two_hosts());
    assert_eq!(connector.use_host(1), Ok("second.example"));
    assert_eq!(connector.host_index, 1);
    assert_eq!(connector.use_host(2), Err(2));
    assert_eq!(connector.host_index, 1);
}

#[test]
fn prepare_connect_uses_selected_host() {
    let mut connector = Connector::new(510, 7, String::from("tok"), two_hosts());
    connector.use_host(1).unwrap();
    let (url, _auth) = connector.prepare_connect().unwrap();
    assert_eq!(url, "wss://second.example:2245/sub");
}

#[test]
fn auth_message_carries_token_and_room() {
    let svc = RoomService::new(1)
        .with_room_id(Some(510))
        .into_disconnected(String::from("tok"), two_hosts());
    let auth = svc.auth_message();
    let expected: &[u8] =
        br#"{"uid":0,"roomid":510,"protover":3,"platform":"web","type":2,"key":"tok"}"#;
    assert_eq!(auth.ser(), expected.to_vec());
}

#[test]
fn auth_packet_frames_the_serialized_message() {
    let json = Auth::new(0, 510, Some(String::from("tok"))).ser();
    let bytes = room::auth_packet_bytes(Auth::new(0, 510, Some(String::from("tok")))).unwrap();
    assert_eq!(bytes.len(), 16 + json.len());
    let size = u32::from_be_bytes([bytes[0], bytes[1], bytes[2], bytes[3]]);
    assert_eq!(size as usize, bytes.len());
    assert_eq!(u16::from_be_bytes([bytes[4], bytes[5]]), 16);
    assert_eq!(u16::from_be_bytes([bytes[6], bytes[7]]), 1);
    assert_eq!(u32::from_be_bytes([bytes[8], bytes[9], bytes[10], bytes[11]]), 7);
    assert_eq!(u32::from_be_bytes([bytes[12], bytes[13], bytes[14], bytes[15]]), 1);
    assert_eq!(&bytes[16..], json.as_slice());
}

#[test]
fn inbound_step_delivers_parsed_frames() {
    let heartbeat = RawPacket::heartbeat();
    let bytes = heartbeat.clone().ser();
    match room::inbound_step(StreamMessage::Binary(bytes)) {
        InboundAction::Deliver(frame) => assert_eq!(frame, heartbeat),
        _ => panic!("expected the frame to be delivered"),
    }
}

#[test]
fn inbound_step_skips_short_and_foreign_messages() {
    assert!(matches!(
        room::inbound_step(StreamMessage::Binary(vec![1, 2, 3])),
        InboundAction::Skip
    ));
    assert!(matches!(room::inbound_step(StreamMessage::Other), InboundAction::Skip));
    assert!(matches!(room::inbound_step(StreamMessage::Close), InboundAction::Stop));
}

#[test]
fn handshake_reply_must_be_binary() {
    assert!(room::check_handshake_reply(None).is_none());
    assert!(room::check_handshake_reply(Some(StreamMessage::Other)).is_none());
    assert!(room::check_handshake_reply(Some(StreamMessage::Close)).is_none());
    assert!(room::check_handshake_reply(Some(StreamMessage::Binary(vec![0; 8]))).is_none());
    let reply = RawPacket::heartbeat().ser();
    assert!(room::check_handshake_reply(Some(StreamMessage::Binary(reply))).is_some());
}

#[test]
fn dispatch_publishes_popularity_directly() {
    match Data::Popularity(7).dispatch_action() {
        Ok(DispatchAction::PublishPopularity(7)) => {}
        other => panic!("expected a direct popularity publish, got {:?}", other),
    }
}

#[test]
fn dispatch_delegates_structured_payloads() {
    match Data::Json(b"{}".to_vec()).dispatch_action() {
        Ok(DispatchAction::DecodeStructured(b)) => assert_eq!(b, b"{}".to_vec()),
        other => panic!("expected delegation to the external decoder, got {:?}", other),
    }
}

#[test]
fn dispatch_rejects_legacy_compressed_payloads() {
    assert!(matches!(
        Data::Deflate(String::new()).dispatch_action(),
        Err(EventParseError::DeflateMessage)
    ));
}

#[test]
fn outbound_queue_exerts_backpressure_at_capacity() {
    let (tx, _rx) = tokio::sync::mpsc::channel::<RawPacket>(room::QUEUE_CAPACITY);
    for _ in 0..room::QUEUE_CAPACITY {
        tx.try_send(RawPacket::heartbeat()).unwrap();
    }
    assert!(matches!(
        tx.try_send(RawPacket::heartbeat()),
        Err(tokio::sync::mpsc::error::TrySendError::Full(_))
    ));
}

#[test]
fn multicast_fans_out_to_each_subscriber_once_in_order() {
    let (tx, mut rx1) = tokio::sync::broadcast::channel::<Data>(room::EVENT_BACKLOG);
    let mut rx2 = tx.subscribe();
    tx.send(Data::Popularity(1)).unwrap();
    tx.send(Data::Popularity(2)).unwrap();
    for rx in [&mut rx1, &mut rx2] {
        assert!(matches!(rx.try_recv().unwrap(), Data::Popularity(1)));
        assert!(matches!(rx.try_recv().unwrap(), Data::Popularity(2)));
        assert!(rx.try_recv().is_err());
    }
}

#[test]
fn subscriber_sees_only_events_published_after_subscribing() {
    let (tx, mut rx1) = tokio::sync::broadcast::channel::<Data>(room::EVENT_BACKLOG);
    tx.send(Data::Popularity(1)).unwrap();
    let mut rx2 = tx.subscribe();
    tx.send(Data::Popularity(2)).unwrap();
    assert!(matches!(rx1.try_recv().unwrap(), Data::Popularity(1)));
    assert!(matches!(rx2.try_recv().unwrap(), Data::Popularity(2)));
}

#[test]
fn pipeline_constants() {
    assert_eq!(room::QUEUE_CAPACITY, 64);
    assert_eq!(room::HEARTBEAT_INTERVAL_SECS, 30);
    assert_eq!(room::EVENT_BACKLOG, 128);
}
