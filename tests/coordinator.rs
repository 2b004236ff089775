use openmls::prelude::{
    Ciphersuite, CredentialBundle, CredentialType, GroupId, KeyPackage, KeyPackageBundle,
    MlsGroup, MlsGroupConfig, OpenMlsCryptoProvider, OpenMlsKeyStore, SignatureScheme,
    WelcomeError,
};
use openmls_rust_crypto::OpenMlsRustCrypto;
use qmsg::coordinator::{
    commit_of, join_reaction, leaf_index, placeholder_device_ids, text_reaction, Outcome,
    SecurityProcessor,
};
use qmsg::engine::Processed;
use qmsg::events::{
    AsciiMessage, EncryptedAsciiMessageIn, MlsAddKeyPackage, MlsCommitIn, MlsKeyPackage,
    MlsSignatureHash, MlsWelcome, NetworkToSecurityEvent, SecurityToNetworkEvent,
    SecurityToUiEvent, TlsSerialized, UiToSecurityEvent, UnwatchChannel, WatchChannel,
};
use qmsg::frame::Message;
use tls_codec::Serialize;

const TEAM: u32 = 123;

fn identity(name: &str) -> (OpenMlsRustCrypto, KeyPackage) {
    let backend = OpenMlsRustCrypto::default();
    let credential_bundle = CredentialBundle::new(
        name.as_bytes().to_vec(),
        CredentialType::Basic,
        SignatureScheme::ED25519,
        &backend,
    )
    .unwrap();
    let cred = credential_bundle.credential().clone();
    backend
        .key_store()
        .store(&cred.signature_key().tls_serialize_detached().unwrap(), &credential_bundle)
        .unwrap();
    let key_package_bundle = KeyPackageBundle::new(
        &[Ciphersuite::MLS_128_DHKEMX25519_AES128GCM_SHA256_Ed25519],
        &credential_bundle,
        &backend,
        vec![],
    )
    .unwrap();
    let key_package = key_package_bundle.key_package().clone();
    backend
        .key_store()
        .store(key_package.hash_ref(backend.crypto()).unwrap().value(), &key_package_bundle)
        .unwrap();
    (backend, key_package)
}

fn leader() -> SecurityProcessor {
    let (backend, key_package) = identity("leader");
    let config = MlsGroupConfig::builder().use_ratchet_tree_extension(true).build();
    let group = MlsGroup::new(
        &backend,
        &config,
        GroupId::from_slice(b"Static team test group"),
        key_package.hash_ref(backend.crypto()).unwrap().value(),
    )
    .unwrap();
    let mut p = SecurityProcessor::new(backend, key_package);
    p.insert_group(TEAM, group);
    p
}

fn member(name: &str) -> (SecurityProcessor, Vec<u8>) {
    let (backend, key_package) = identity(name);
    let bytes = key_package.tls_serialize_detached().unwrap();
    (SecurityProcessor::new(backend, key_package), bytes)
}

#[test]
fn leaf_index_counts_leaves_only() {
    assert_eq!(leaf_index(&vec![]), None);
    assert_eq!(leaf_index(&vec![None, Some(false), None]), None);
    assert_eq!(leaf_index(&vec![Some(true)]), Some(0));
    // parent and blank slots are not counted
    assert_eq!(leaf_index(&vec![Some(false), None, None, Some(true), Some(true)]), Some(1));
    assert_eq!(leaf_index(&vec![None, Some(false), None, Some(false), None, Some(true)]), Some(2));
}

#[test]
fn leaf_index_beyond_sixteen_bits_is_none() {
    let mut slots = vec![Some(false); 65535];
    slots.push(Some(true));
    assert_eq!(leaf_index(&slots), Some(65535));
    let mut slots = vec![Some(false); 65536];
    slots.push(Some(true));
    assert_eq!(leaf_index(&slots), None);
}

#[test]
fn text_reaction_forwards_text_from_device() {
    let r = text_reaction(3, 4, Some(9), b"abc".to_vec());
    assert!(matches!(r.outcome, Outcome::Done));
    assert!(r.to_network.is_empty());
    assert_eq!(
        r.to_ui,
        vec![SecurityToUiEvent::AsciiMessage(AsciiMessage {
            team: 3,
            channel: 4,
            device_id: 9,
            ascii: b"abc".to_vec(),
        })]
    );
    let r = text_reaction(3, 4, None, b"abc".to_vec());
    assert!(matches!(r.outcome, Outcome::NotInTree));
    assert!(r.to_ui.is_empty() && r.to_network.is_empty());
}

#[test]
fn join_reaction_sends_commit_then_welcome() {
    let r = join_reaction(5, Ok(vec![1, 2]), Ok(vec![3]));
    assert!(matches!(r.outcome, Outcome::Done));
    assert!(r.to_ui.is_empty());
    assert_eq!(r.to_network.len(), 2);
    match (&r.to_network[0], &r.to_network[1]) {
        (SecurityToNetworkEvent::MlsCommitOut(c), SecurityToNetworkEvent::MlsWelcome(w)) => {
            assert_eq!((c.team, c.commit.as_slice()), (5, &[1u8, 2][..]));
            assert_eq!((w.team, w.welcome.as_slice()), (5, &[3u8][..]));
        }
        other => panic!("unexpected events {:?}", other),
    }
    let r = join_reaction(5, Ok(vec![1]), Err(tls_codec::Error::InvalidVectorLength));
    assert!(matches!(r.outcome, Outcome::EncodeFailed(_)));
    assert!(r.to_network.is_empty());
}

#[test]
fn commit_of_refuses_other_messages() {
    assert!(matches!(commit_of(Ok(Processed::Proposal)), Err(Outcome::NotACommit)));
    assert!(matches!(commit_of(Err(Outcome::NotInTree)), Err(Outcome::NotInTree)));
}

#[test]
fn install_joined_failure_changes_nothing() {
    let (mut p, _) = member("member");
    let r = p.install_joined(TEAM, Err(WelcomeError::NoMatchingKeyPackageBundle));
    assert!(matches!(r.outcome, Outcome::JoinFailed(_)));
    assert!(!p.has_group(TEAM));
}

#[test]
fn placeholder_ids_are_zero_to_nine() {
    assert_eq!(placeholder_device_ids(), (0u32..10).collect::<Vec<u32>>());
}

#[test]
fn commit_for_unknown_team_is_dropped() {
    let (mut p, _) = member("member");
    let r = p.handle_network_event(NetworkToSecurityEvent::MlsCommit(MlsCommitIn {
        team: 7,
        commit: TlsSerialized::new(vec![1, 2, 3]),
    }));
    assert!(r.to_network.is_empty());
    assert!(r.to_ui.is_empty());
    assert!(matches!(r.outcome, Outcome::UnknownTeam(7)));
    assert!(!p.has_group(7));
}

#[test]
fn encrypted_message_for_unknown_team_is_dropped() {
    let mut p = leader();
    let r = p.handle_network_event(NetworkToSecurityEvent::EncryptedAsciiMessage(
        EncryptedAsciiMessageIn { team: 7, channel: 1, ciphertext: TlsSerialized::new(vec![0]) },
    ));
    assert!(r.to_network.is_empty());
    assert!(r.to_ui.is_empty());
    assert!(matches!(r.outcome, Outcome::UnknownTeam(7)));
    assert!(!p.has_group(7));
    assert!(p.has_group(TEAM));
    assert_eq!(p.member_count(TEAM), Some(1));
}

#[test]
fn join_request_for_unknown_team_is_dropped() {
    let (mut p, kp) = member("member");
    let r = p.handle_network_event(NetworkToSecurityEvent::MlsAddKeyPackage(MlsAddKeyPackage {
        team: TEAM,
        key_package: TlsSerialized::new(kp),
    }));
    assert!(r.to_network.is_empty());
    assert!(matches!(r.outcome, Outcome::UnknownTeam(TEAM)));
}

#[test]
fn text_from_ui_for_unknown_team_is_dropped() {
    let (mut p, _) = member("member");
    let r = p.handle_ui_event(UiToSecurityEvent::AsciiMessage(AsciiMessage {
        team: 1,
        channel: 2,
        device_id: 0,
        ascii: b"x".to_vec(),
    }));
    assert!(r.to_network.is_empty());
    assert!(matches!(r.outcome, Outcome::UnknownTeam(1)));
}

#[test]
fn watch_and_unwatch_name_placeholder_devices() {
    let (mut p, _) = member("member");
    let r = p.handle_ui_event(UiToSecurityEvent::WatchChannel(WatchChannel { team: 4, channel: 5 }));
    assert!(matches!(r.outcome, Outcome::Done));
    assert_eq!(r.to_network.len(), 1);
    match &r.to_network[0] {
        SecurityToNetworkEvent::WatchDevices(w) => {
            assert_eq!((w.team, w.channel), (4, 5));
            assert_eq!(w.device_ids, (0u32..10).collect::<Vec<u32>>());
        }
        other => panic!("unexpected event {:?}", other),
    }
    let r = p.handle_ui_event(UiToSecurityEvent::UnwatchChannel(UnwatchChannel {
        team: 4,
        channel: 6,
    }));
    match &r.to_network[0] {
        SecurityToNetworkEvent::UnwatchDevices(u) => {
            assert_eq!((u.team, u.channel), (4, 6));
            assert_eq!(u.device_ids.len(), 10);
        }
        other => panic!("unexpected event {:?}", other),
    }
}

#[test]
fn unhandled_events_change_nothing() {
    let (mut p, _) = member("member");
    let r = p.handle_network_event(NetworkToSecurityEvent::MlsKeyPackage(MlsKeyPackage {
        team: 1,
        key_package: TlsSerialized::new(vec![]),
        hash_bytes: vec![],
    }));
    assert!(matches!(r.outcome, Outcome::Unhandled));
    let r = p.handle_ui_event(UiToSecurityEvent::MlsSignatureHash(MlsSignatureHash {
        team: 1,
        hash_bytes: vec![1],
    }));
    assert!(matches!(r.outcome, Outcome::Unhandled));
    assert!(r.to_network.is_empty());
}

#[test]
fn undecodable_payload_is_dropped() {
    let (mut p, _) = member("member");
    let r = p.handle_network_message(&Message::from(vec![0, 0, 0, 77]));
    assert!(r.to_network.is_empty() && r.to_ui.is_empty());
    assert!(matches!(r.outcome, Outcome::Undecodable(_)));
}

#[test]
fn bad_welcome_leaves_team_without_group() {
    let (mut p, _) = member("member");
    let r = p.handle_network_event(NetworkToSecurityEvent::MlsWelcome(MlsWelcome {
        team: TEAM,
        welcome: TlsSerialized::new(vec![1, 2, 3]),
    }));
    assert!(!matches!(r.outcome, Outcome::Done));
    assert!(!p.has_group(TEAM));
}

#[test]
fn join_flow_sends_commit_then_welcome() {
    let mut lead = leader();
    let (mut joiner, kp) = member("member");

    let r = lead.handle_network_event(NetworkToSecurityEvent::MlsAddKeyPackage(
        MlsAddKeyPackage { team: TEAM, key_package: TlsSerialized::new(kp) },
    ));
    assert!(matches!(r.outcome, Outcome::Done), "{:?}", r.outcome);
    assert!(r.to_ui.is_empty());
    assert_eq!(r.to_network.len(), 2);
    assert!(matches!(&r.to_network[0], SecurityToNetworkEvent::MlsCommitOut(c) if c.team == TEAM));
    let welcome = match &r.to_network[1] {
        SecurityToNetworkEvent::MlsWelcome(w) => w.clone(),
        other => panic!("unexpected event {:?}", other),
    };
    assert_eq!(welcome.team, TEAM);
    assert_eq!(lead.member_count(TEAM), Some(2));

    // the welcome travels over the wire and is taken in by the new member
    let wire = SecurityToNetworkEvent::MlsWelcome(welcome).encode().unwrap();
    let r = joiner.handle_network_message(&wire);
    assert!(matches!(r.outcome, Outcome::Done), "{:?}", r.outcome);
    assert!(joiner.has_group(TEAM));
    assert_eq!(joiner.member_count(TEAM), Some(2));

    // text from the leader's interface reaches the member's interface
    let r = lead.handle_ui_event(UiToSecurityEvent::AsciiMessage(AsciiMessage {
        team: TEAM,
        channel: 5,
        device_id: 0,
        ascii: b"hello group".to_vec(),
    }));
    assert!(matches!(r.outcome, Outcome::Done), "{:?}", r.outcome);
    let ciphertext = match &r.to_network[0] {
        SecurityToNetworkEvent::EncryptedAsciiMessage(m) => {
            assert_eq!((m.team, m.channel), (TEAM, 5));
            m.ciphertext.clone()
        }
        other => panic!("unexpected event {:?}", other),
    };
    let r = joiner.handle_network_event(NetworkToSecurityEvent::EncryptedAsciiMessage(
        EncryptedAsciiMessageIn { team: TEAM, channel: 5, ciphertext },
    ));
    assert!(matches!(r.outcome, Outcome::Done), "{:?}", r.outcome);
    assert!(r.to_network.is_empty());
    assert_eq!(
        r.to_ui,
        vec![SecurityToUiEvent::AsciiMessage(AsciiMessage {
            team: TEAM,
            channel: 5,
            device_id: 1,
            ascii: b"hello group".to_vec(),
        })]
    );
}

#[test]
fn commit_from_leader_is_applied_by_member() {
    let mut lead = leader();
    let (mut joiner, kp) = member("member");
    let r = lead.handle_network_event(NetworkToSecurityEvent::MlsAddKeyPackage(
        MlsAddKeyPackage { team: TEAM, key_package: TlsSerialized::new(kp) },
    ));
    let welcome = match &r.to_network[1] {
        SecurityToNetworkEvent::MlsWelcome(w) => w.clone(),
        other => panic!("unexpected event {:?}", other),
    };
    joiner.handle_network_event(NetworkToSecurityEvent::MlsWelcome(welcome));
    assert_eq!(joiner.member_count(TEAM), Some(2));

    // a third member joins through the leader
    let (_third, kp3) = member("third");
    let r = lead.handle_network_event(NetworkToSecurityEvent::MlsAddKeyPackage(
        MlsAddKeyPackage { team: TEAM, key_package: TlsSerialized::new(kp3) },
    ));
    assert!(matches!(r.outcome, Outcome::Done), "{:?}", r.outcome);
    assert_eq!(lead.member_count(TEAM), Some(3));
    let commit = match &r.to_network[0] {
        SecurityToNetworkEvent::MlsCommitOut(c) => c.commit.clone(),
        other => panic!("unexpected event {:?}", other),
    };

    let r = joiner.handle_network_event(NetworkToSecurityEvent::MlsCommit(MlsCommitIn {
        team: TEAM,
        commit: commit.clone(),
    }));
    assert!(matches!(r.outcome, Outcome::Done), "{:?}", r.outcome);
    assert!(r.to_ui.is_empty() && r.to_network.is_empty());
    assert_eq!(joiner.member_count(TEAM), Some(3));
}

#[test]
fn commit_handed_over_as_text_is_refused() {
    let mut lead = leader();
    let (mut joiner, kp) = member("member");
    let r = lead.handle_network_event(NetworkToSecurityEvent::MlsAddKeyPackage(
        MlsAddKeyPackage { team: TEAM, key_package: TlsSerialized::new(kp) },
    ));
    let welcome = match &r.to_network[1] {
        SecurityToNetworkEvent::MlsWelcome(w) => w.clone(),
        other => panic!("unexpected event {:?}", other),
    };
    joiner.handle_network_event(NetworkToSecurityEvent::MlsWelcome(welcome));
    let (_third, kp3) = member("third");
    let r = lead.handle_network_event(NetworkToSecurityEvent::MlsAddKeyPackage(
        MlsAddKeyPackage { team: TEAM, key_package: TlsSerialized::new(kp3) },
    ));
    let commit = match &r.to_network[0] {
        SecurityToNetworkEvent::MlsCommitOut(c) => c.commit.clone(),
        other => panic!("unexpected event {:?}", other),
    };
    let r = joiner.handle_network_event(NetworkToSecurityEvent::EncryptedAsciiMessage(
        EncryptedAsciiMessageIn { team: TEAM, channel: 1, ciphertext: commit },
    ));
    assert!(matches!(r.outcome, Outcome::NotApplicationData), "{:?}", r.outcome);
    assert!(r.to_ui.is_empty() && r.to_network.is_empty());
    assert!(joiner.has_group(TEAM));
}
