//! The group cryptographic engine, reached through openmls and tls_codec.
//!
//! Every item here is trusted: its contract is believed, not proved. None of
//! them promises anything about its result: the results are opaque engine
//! values, or depend on random numbers and on the key store inside the crypto
//! provider. The verified callers state what holds whatever comes back.

use vstd::prelude::*;
use openmls::prelude::{
    AddMembersError, ApplicationMessage, CreateMessageError, KeyPackage, LeafNode, LibraryError,
    MlsGroup, MlsGroupConfig, MlsGroupConfigBuilder, MlsGroupStateError, MlsMessageIn,
    MlsMessageOut, Node, ParseMessageError, ProcessedMessage, StagedCommit, UnverifiedMessage,
    UnverifiedMessageError, Welcome, WelcomeError,
};
use openmls_rust_crypto::OpenMlsRustCrypto;
use tls_codec::{Deserialize, Serialize};

verus! {

#[verifier::external_type_specification]
#[verifier::external_body]
pub struct ExOpenMlsRustCrypto(OpenMlsRustCrypto);

#[verifier::external_type_specification]
#[verifier::external_body]
pub struct ExMlsGroup(MlsGroup);

#[verifier::external_type_specification]
#[verifier::external_body]
pub struct ExMlsGroupConfig(MlsGroupConfig);

#[verifier::external_type_specification]
#[verifier::external_body]
pub struct ExMlsGroupConfigBuilder(MlsGroupConfigBuilder);

#[verifier::external_type_specification]
#[verifier::external_body]
pub struct ExApplicationMessage(ApplicationMessage);

#[verifier::external_type_specification]
#[verifier::external_body]
pub struct ExKeyPackage(KeyPackage);

#[verifier::external_type_specification]
#[verifier::external_body]
pub struct ExWelcome(Welcome);

#[verifier::external_type_specification]
#[verifier::external_body]
pub struct ExMlsMessageIn(MlsMessageIn);

#[verifier::external_type_specification]
#[verifier::external_body]
pub struct ExMlsMessageOut(MlsMessageOut);

#[verifier::external_type_specification]
#[verifier::external_body]
pub struct ExUnverifiedMessage(UnverifiedMessage);

#[verifier::external_type_specification]
#[verifier::external_body]
pub struct ExStagedCommit(StagedCommit);

#[verifier::external_type_specification]
#[verifier::external_body]
pub struct ExLeafNode(LeafNode);

#[verifier::external_type_specification]
#[verifier::external_body]
pub struct ExTlsCodecError(tls_codec::Error);

#[verifier::external_type_specification]
#[verifier::external_body]
pub struct ExAddMembersError(AddMembersError);

#[verifier::external_type_specification]
#[verifier::external_body]
pub struct ExMlsGroupStateError(MlsGroupStateError);

#[verifier::external_type_specification]
#[verifier::external_body]
pub struct ExWelcomeError(WelcomeError);

#[verifier::external_type_specification]
#[verifier::external_body]
pub struct ExParseMessageError(ParseMessageError);

#[verifier::external_type_specification]
#[verifier::external_body]
pub struct ExUnverifiedMessageError(UnverifiedMessageError);

#[verifier::external_type_specification]
#[verifier::external_body]
pub struct ExLibraryError(LibraryError);

#[verifier::external_type_specification]
#[verifier::external_body]
pub struct ExCreateMessageError(CreateMessageError);

/// What verifying an incoming group message yielded.
pub enum Processed {
    /// Decrypted application data.
    Application(ApplicationMessage),
    /// A standalone proposal.
    Proposal,
    /// A commit, staged and ready to merge.
    Commit(StagedCommit),
}

/// One node slot of an exported ratchet tree.
pub enum TreeSlot {
    Blank,
    Parent,
    Leaf(LeafNode),
}

/// Relies on `KeyPackage::tls_deserialize` to read a key package.
#[verifier::external_body]
pub(crate) fn read_key_package(bytes: &[u8]) -> (r: Result<KeyPackage, tls_codec::Error>) {
    let mut reader = bytes;
    KeyPackage::tls_deserialize(&mut reader)
}

/// Relies on `Welcome::tls_deserialize` to read a welcome.
#[verifier::external_body]
pub(crate) fn read_welcome(bytes: &[u8]) -> (r: Result<Welcome, tls_codec::Error>) {
    let mut reader = bytes;
    Welcome::tls_deserialize(&mut reader)
}

/// Relies on `MlsMessageIn::tls_deserialize` to read a group message.
#[verifier::external_body]
pub(crate) fn read_mls_message(bytes: &[u8]) -> (r: Result<MlsMessageIn, tls_codec::Error>) {
    let mut reader = bytes;
    MlsMessageIn::tls_deserialize(&mut reader)
}

/// Relies on `MlsMessageOut::tls_serialize_detached` to encode a group message.
#[verifier::external_body]
pub(crate) fn write_mls_message(m: &MlsMessageOut) -> (r: Result<Vec<u8>, tls_codec::Error>) {
    m.tls_serialize_detached()
}

/// Relies on `Welcome::tls_serialize_detached` to encode a welcome.
#[verifier::external_body]
pub(crate) fn write_welcome(w: &Welcome) -> (r: Result<Vec<u8>, tls_codec::Error>) {
    w.tls_serialize_detached()
}

/// Relies on `MlsGroupConfig::builder` for a builder of group configurations.
#[verifier::external_body]
pub(crate) fn config_builder() -> (r: MlsGroupConfigBuilder) {
    MlsGroupConfig::builder()
}

/// Relies on `MlsGroupConfigBuilder::use_ratchet_tree_extension` to choose
/// whether welcomes carry the ratchet tree.
#[verifier::external_body]
pub(crate) fn with_ratchet_tree(builder: MlsGroupConfigBuilder, on: bool) -> (r:
    MlsGroupConfigBuilder) {
    builder.use_ratchet_tree_extension(on)
}

/// Relies on `MlsGroupConfigBuilder::build` for the configuration.
#[verifier::external_body]
pub(crate) fn build_config(builder: MlsGroupConfigBuilder) -> (r: MlsGroupConfig) {
    builder.build()
}

/// Relies on `MlsGroup::new_from_welcome` to join a group from a welcome that
/// carries the ratchet tree.
#[verifier::external_body]
pub(crate) fn join_from_welcome(
    backend: &OpenMlsRustCrypto,
    config: &MlsGroupConfig,
    welcome: Welcome,
) -> (r: Result<MlsGroup, WelcomeError>) {
    MlsGroup::new_from_welcome(backend, config, welcome, None)
}

/// Relies on `MlsGroup::add_members` to add one member, giving the commit and
/// the welcome.
#[verifier::external_body]
pub(crate) fn add_member(
    group: &mut MlsGroup,
    backend: &OpenMlsRustCrypto,
    key_package: KeyPackage,
) -> (r: Result<(MlsMessageOut, Welcome), AddMembersError>) {
    group.add_members(backend, &[key_package])
}

/// Relies on `MlsGroup::merge_pending_commit` to apply this member's own commit.
#[verifier::external_body]
pub(crate) fn merge_pending_commit(group: &mut MlsGroup) -> (r: Result<(), MlsGroupStateError>) {
    group.merge_pending_commit()
}

/// Relies on `MlsGroup::parse_message` to check and decrypt an incoming message.
#[verifier::external_body]
pub(crate) fn parse_message(
    group: &mut MlsGroup,
    backend: &OpenMlsRustCrypto,
    message: MlsMessageIn,
) -> (r: Result<UnverifiedMessage, ParseMessageError>) {
    group.parse_message(message, backend)
}

/// Relies on `MlsGroup::process_unverified_message` to verify a parsed message.
#[verifier::external_body]
pub(crate) fn process_message(
    group: &mut MlsGroup,
    backend: &OpenMlsRustCrypto,
    message: UnverifiedMessage,
) -> (r: Result<Processed, UnverifiedMessageError>) {
    match group.process_unverified_message(message, None, backend)? {
        ProcessedMessage::ApplicationMessage(m) => Ok(Processed::Application(m)),
        ProcessedMessage::ProposalMessage(_) => Ok(Processed::Proposal),
        ProcessedMessage::StagedCommitMessage(c) => Ok(Processed::Commit(*c)),
    }
}

/// Relies on `ApplicationMessage::into_bytes` for the decrypted bytes.
#[verifier::external_body]
pub(crate) fn application_bytes(m: ApplicationMessage) -> (r: Vec<u8>) {
    m.into_bytes()
}

/// Relies on `MlsGroup::merge_staged_commit` to apply a verified commit.
#[verifier::external_body]
pub(crate) fn merge_staged_commit(group: &mut MlsGroup, commit: StagedCommit) -> (r: Result<
    (),
    LibraryError,
>) {
    group.merge_staged_commit(commit)
}

/// Relies on `MlsGroup::create_message` to encrypt application data.
#[verifier::external_body]
pub(crate) fn create_message(
    group: &mut MlsGroup,
    backend: &OpenMlsRustCrypto,
    plaintext: &[u8],
) -> (r: Result<MlsMessageOut, CreateMessageError>) {
    group.create_message(backend, plaintext)
}

/// Relies on `MlsGroup::export_ratchet_tree` for the node slots of the tree,
/// in order.
#[verifier::external_body]
pub(crate) fn export_tree(group: &MlsGroup) -> (r: Vec<TreeSlot>) {
    group.export_ratchet_tree().into_iter().map(|n| match n {
        None => TreeSlot::Blank,
        Some(Node::ParentNode(_)) => TreeSlot::Parent,
        Some(Node::LeafNode(l)) => TreeSlot::Leaf(l),
    }).collect()
}

/// Relies on `MlsGroup::members` for the number of members.
#[verifier::external_body]
pub(crate) fn member_count(group: &MlsGroup) -> (r: usize) {
    group.members().len()
}

/// Relies on `LeafNode::key_package` for the key package of a leaf.
#[verifier::external_body]
pub(crate) fn leaf_key_package(leaf: &LeafNode) -> (r: &KeyPackage) {
    leaf.key_package()
}

/// Relies on `KeyPackage`'s `PartialEq`, which compares the payloads.
#[verifier::external_body]
pub(crate) fn same_key_package(a: &KeyPackage, b: &KeyPackage) -> (r: bool) {
    a == b
}

} // verus!
