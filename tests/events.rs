use qmsg::events::{
    AsciiMessage, DecodeError, DeviceInfo, EncodeError, EncryptedAsciiMessageIn,
    EncryptedAsciiMessageOut, MlsAddKeyPackage, MlsCommitIn, MlsCommitOut, MlsKeyPackage,
    MlsSignatureHash, MlsWelcome, NetworkToSecurityEvent, SecurityToNetworkEvent,
    SecurityToUiEvent, TlsSerialized, UiToSecurityEvent, UnwatchChannel, UnwatchDevices,
    WatchChannel, WatchDevices,
};
use qmsg::frame::Message;

fn tls(bytes: &[u8]) -> TlsSerialized {
    TlsSerialized::new(bytes.to_vec())
}

#[test]
fn test_tls_serialized() {
    // the TLS encoding of the tuple (1u16, 2u32, 3u8)
    let original = TlsSerialized::new(vec![0, 1, 0, 0, 0, 2, 3]);

    let serialized = original.serialize();
    assert_eq!(serialized, [0, 0, 0, 7, 0, 1, 0, 0, 0, 2, 3]);

    let (deserialized, read) = TlsSerialized::deserialize(serialized.as_slice()).unwrap();
    assert_eq!(deserialized, original);
    assert_eq!(read, 11);
}

#[test]
fn test_message_tls() {
    // An event carried in a message and read back from it, with its exact
    // payload bytes.
    let event = SecurityToUiEvent::AsciiMessage(AsciiMessage {
        team: 1,
        channel: 2,
        device_id: 3,
        ascii: vec![4, 5],
    });
    let msg = event.encode().unwrap();
    assert_eq!(
        msg,
        Message::from(vec![0, 0, 0, 2, 0, 0, 0, 1, 0, 0, 0, 2, 0, 3, 0, 0, 0, 2, 4, 5])
    );

    let event_parsed = SecurityToUiEvent::decode(&msg).unwrap();
    assert_eq!(event_parsed, event);
}

#[test]
fn tls_serialized_unwrap_gives_bytes_back() {
    let t = TlsSerialized::new(vec![9, 9]);
    assert_eq!(t.len(), 2);
    assert_eq!(t.as_slice(), &[9, 9]);
    assert_eq!(t.unwrap(), vec![9, 9]);
    assert!(TlsSerialized::deserialize(&[0, 0, 0, 3, 1, 2]).is_none());
}

fn tag_of(m: &Message) -> u32 {
    u32::from_be_bytes([m.data()[0], m.data()[1], m.data()[2], m.data()[3]])
}

#[test]
fn network_to_security_round_trip_and_tags() {
    let events = vec![
        (
            NetworkToSecurityEvent::MlsKeyPackage(MlsKeyPackage {
                team: 1,
                key_package: tls(&[1, 2, 3]),
                hash_bytes: vec![4, 5],
            }),
            6,
        ),
        (
            NetworkToSecurityEvent::MlsAddKeyPackage(MlsAddKeyPackage {
                team: 2,
                key_package: tls(&[7]),
            }),
            7,
        ),
        (NetworkToSecurityEvent::MlsWelcome(MlsWelcome { team: 3, welcome: tls(&[]) }), 8),
        (NetworkToSecurityEvent::MlsCommit(MlsCommitIn { team: 4, commit: tls(&[0xFF; 40]) }), 9),
        (
            NetworkToSecurityEvent::EncryptedAsciiMessage(EncryptedAsciiMessageIn {
                team: 5,
                channel: 6,
                ciphertext: tls(&[1, 1]),
            }),
            2,
        ),
    ];
    for (e, tag) in events {
        let m = e.encode().unwrap();
        assert_eq!(tag_of(&m), tag);
        assert_eq!(NetworkToSecurityEvent::decode(&m).unwrap(), e);
    }
}

#[test]
fn security_to_network_round_trip_and_tags() {
    let events = vec![
        (
            SecurityToNetworkEvent::JoinRequest(MlsAddKeyPackage { team: 1, key_package: tls(&[1]) }),
            7,
        ),
        (SecurityToNetworkEvent::MlsWelcome(MlsWelcome { team: 2, welcome: tls(&[2, 2]) }), 8),
        (SecurityToNetworkEvent::MlsCommitOut(MlsCommitOut { team: 3, commit: tls(&[3]) }), 9),
        (
            SecurityToNetworkEvent::EncryptedAsciiMessage(EncryptedAsciiMessageOut {
                team: 4,
                channel: 5,
                ciphertext: tls(&[6, 7]),
            }),
            1,
        ),
        (
            SecurityToNetworkEvent::WatchDevices(WatchDevices {
                team: 5,
                channel: 6,
                device_ids: vec![0, 1, 0xFFFF_FFFF],
            }),
            3,
        ),
        (
            SecurityToNetworkEvent::UnwatchDevices(UnwatchDevices {
                team: 6,
                channel: 7,
                device_ids: vec![],
            }),
            4,
        ),
        (
            SecurityToNetworkEvent::MlsSignatureHash(MlsSignatureHash {
                team: 7,
                hash_bytes: vec![8; 32],
            }),
            5,
        ),
        (SecurityToNetworkEvent::DeviceInfo(DeviceInfo { team: 8, device_id: 0xBEEF }), 10),
    ];
    for (e, tag) in events {
        let m = e.encode().unwrap();
        assert_eq!(tag_of(&m), tag);
        assert_eq!(SecurityToNetworkEvent::decode(&m).unwrap(), e);
    }
}

#[test]
fn ui_to_security_round_trip_and_tags() {
    let events = vec![
        (
            UiToSecurityEvent::AsciiMessage(AsciiMessage {
                team: 1,
                channel: 2,
                device_id: 3,
                ascii: b"hi".to_vec(),
            }),
            1,
        ),
        (
            UiToSecurityEvent::MlsSignatureHash(MlsSignatureHash { team: 2, hash_bytes: vec![1] }),
            5,
        ),
        (UiToSecurityEvent::WatchChannel(WatchChannel { team: 3, channel: 4 }), 11),
        (UiToSecurityEvent::UnwatchChannel(UnwatchChannel { team: 5, channel: 6 }), 12),
    ];
    for (e, tag) in events {
        let m = e.encode().unwrap();
        assert_eq!(tag_of(&m), tag);
        assert_eq!(UiToSecurityEvent::decode(&m).unwrap(), e);
    }
}

#[test]
fn security_to_ui_round_trip_and_tag() {
    let e = SecurityToUiEvent::AsciiMessage(AsciiMessage {
        team: 9,
        channel: 8,
        device_id: 7,
        ascii: vec![],
    });
    let m = e.encode().unwrap();
    assert_eq!(tag_of(&m), 2);
    assert_eq!(SecurityToUiEvent::decode(&m).unwrap(), e);
}

#[test]
fn watch_devices_exact_bytes() {
    let e = SecurityToNetworkEvent::WatchDevices(WatchDevices {
        team: 1,
        channel: 2,
        device_ids: vec![3, 0x01020304],
    });
    let m = e.encode().unwrap();
    assert_eq!(
        m.data(),
        &vec![0, 0, 0, 3, 0, 0, 0, 1, 0, 0, 0, 2, 0, 8, 0, 0, 0, 3, 1, 2, 3, 4]
    );
}

#[test]
fn device_info_exact_bytes() {
    let e = SecurityToNetworkEvent::DeviceInfo(DeviceInfo { team: 0x01020304, device_id: 0x0506 });
    assert_eq!(e.encode().unwrap().data(), &vec![0, 0, 0, 10, 1, 2, 3, 4, 5, 6]);
}

#[test]
fn unknown_discriminant_is_reported() {
    let m = Message::from(vec![0, 0, 0, 3, 0, 0, 0, 1]);
    assert_eq!(NetworkToSecurityEvent::decode(&m), Err(DecodeError::UnknownDiscriminant));
    // tag 3 is WatchDevices in another family only
    assert_eq!(UiToSecurityEvent::decode(&m), Err(DecodeError::UnknownDiscriminant));
    let m = Message::from(vec![0, 0, 0, 1, 0, 0, 0, 1]);
    assert_eq!(SecurityToUiEvent::decode(&m), Err(DecodeError::UnknownDiscriminant));
}

#[test]
fn truncated_payloads_are_reported() {
    assert_eq!(
        UiToSecurityEvent::decode(&Message::from(vec![0, 0, 0])),
        Err(DecodeError::Truncated)
    );
    // WatchChannel needs two u32 fields
    assert_eq!(
        UiToSecurityEvent::decode(&Message::from(vec![0, 0, 0, 11, 0, 0, 0, 1, 0, 0])),
        Err(DecodeError::Truncated)
    );
    // a byte vector that declares more than is there
    assert_eq!(
        NetworkToSecurityEvent::decode(&Message::from(vec![0, 0, 0, 8, 0, 0, 0, 1, 0, 0, 0, 5, 1])),
        Err(DecodeError::Truncated)
    );
    // a device id list whose byte length is not a multiple of four
    assert_eq!(
        SecurityToNetworkEvent::decode(&Message::from(vec![
            0, 0, 0, 3, 0, 0, 0, 1, 0, 0, 0, 2, 0, 3, 1, 2, 3
        ])),
        Err(DecodeError::Truncated)
    );
}

#[test]
fn trailing_bytes_are_ignored() {
    let m = Message::from(vec![0, 0, 0, 11, 0, 0, 0, 1, 0, 0, 0, 2, 0xEE]);
    assert_eq!(
        UiToSecurityEvent::decode(&m).unwrap(),
        UiToSecurityEvent::WatchChannel(WatchChannel { team: 1, channel: 2 })
    );
}

#[test]
fn too_many_device_ids_do_not_encode() {
    let e = SecurityToNetworkEvent::WatchDevices(WatchDevices {
        team: 1,
        channel: 2,
        device_ids: vec![0; 16384],
    });
    assert_eq!(e.encode(), Err(EncodeError::VectorTooLong));
    let ok = SecurityToNetworkEvent::WatchDevices(WatchDevices {
        team: 1,
        channel: 2,
        device_ids: vec![0; 16383],
    });
    let m = ok.encode().unwrap();
    assert_eq!(&m.data()[12..14], &[0xFF, 0xFC]);
    assert_eq!(SecurityToNetworkEvent::decode(&m).unwrap(), ok);
}
