//! The security coordinator: routes events from the network and interface
//! peers into group operations and answers with outbound events.
//!
//! The coordinator owns one group per team. An event that names a team
//! without a group, an event that does not decode, and any failure of the
//! engine are reported in the `Outcome` and otherwise dropped: the groups are
//! left as they were and nothing is sent.

use vstd::prelude::*;
use std::collections::HashMap;
use openmls::prelude::{
    AddMembersError, CreateMessageError, KeyPackage, LibraryError, MlsGroup, MlsGroupStateError,
    MlsMessageIn, ParseMessageError, StagedCommit, UnverifiedMessage, UnverifiedMessageError,
    WelcomeError,
};
use openmls_rust_crypto::OpenMlsRustCrypto;
use crate::engine::{
    Processed, TreeSlot, add_member, application_bytes, build_config, config_builder,
    create_message, export_tree, join_from_welcome, leaf_key_package, member_count,
    merge_pending_commit, merge_staged_commit, parse_message, process_message, read_key_package,
    read_mls_message, read_welcome, same_key_package, with_ratchet_tree, write_mls_message,
    write_welcome,
};
use crate::events::{
    AsciiMessage, DecodeError, EncryptedAsciiMessageOut, Family, MlsCommitOut, MlsWelcome,
    NetworkToSecurityEvent, SecurityToNetworkEvent, SecurityToUiEvent, TlsSerialized,
    UiToSecurityEvent, UnwatchDevices, WatchDevices, EventModel, decode_event_spec,
};
use crate::frame::Message;

verus! {

broadcast use vstd::std_specs::hash::group_hash_axioms;

/// How many device ids a watch request stands for while devices are not
/// yet looked up in a directory.
pub const PLACEHOLDER_DEVICE_COUNT: u32 = 10;

/// The device ids that a watch or unwatch request names: `0` up to
/// `PLACEHOLDER_DEVICE_COUNT`, exclusive.
pub open spec fn placeholder_ids() -> Seq<u32> {
    Seq::new(PLACEHOLDER_DEVICE_COUNT as nat, |i: int| i as u32)
}

/// What became of one incoming event.
#[derive(Debug)]
pub enum Outcome {
    /// The event was acted on.
    Done,
    /// The event is of a kind that the coordinator does not act on.
    Unhandled,
    /// The payload carries no event of the expected family.
    Undecodable(DecodeError),
    /// No group exists for the team that the event names.
    UnknownTeam(u32),
    /// An embedded key package, welcome or group message did not decode.
    BadEncoding(tls_codec::Error),
    /// An outbound group message or welcome could not be encoded.
    EncodeFailed(tls_codec::Error),
    /// The engine could not add the new member.
    AddFailed(AddMembersError),
    /// The engine could not apply this member's own commit.
    MergeFailed(MlsGroupStateError),
    /// The engine could not set up a group from the welcome.
    JoinFailed(WelcomeError),
    /// An incoming group message failed the engine's checks or decryption.
    ParseFailed(ParseMessageError),
    /// An incoming group message failed verification.
    VerifyFailed(UnverifiedMessageError),
    /// The engine could not merge a verified commit.
    CommitFailed(LibraryError),
    /// The engine could not encrypt the text.
    EncryptFailed(CreateMessageError),
    /// A commit event carried some other kind of group message.
    NotACommit,
    /// An encrypted text event carried some other kind of group message.
    NotApplicationData,
    /// This member's key package is not a leaf of the group's tree.
    NotInTree,
}

/// The events to send in answer to one incoming event, and what became of it.
pub struct Reaction {
    pub to_network: Vec<SecurityToNetworkEvent>,
    pub to_ui: Vec<SecurityToUiEvent>,
    pub outcome: Outcome,
}

impl Reaction {
    /// Nothing is sent.
    pub open spec fn is_silent(&self) -> bool {
        self.to_network@.len() == 0 && self.to_ui@.len() == 0
    }

    pub open spec fn is_done(&self) -> bool {
        self.outcome is Done
    }
}

fn quiet(outcome: Outcome) -> (r: Reaction)
    ensures
        r.is_silent(),
        r.outcome == outcome,
{
    Reaction { to_network: Vec::new(), to_ui: Vec::new(), outcome }
}

/// A commit for `team` followed by a welcome for `team`, and nothing else.
pub open spec fn commit_then_welcome(s: Seq<SecurityToNetworkEvent>, team: u32) -> bool {
    &&& s.len() == 2
    &&& s[0] matches SecurityToNetworkEvent::MlsCommitOut(c) && c.team == team
    &&& s[1] matches SecurityToNetworkEvent::MlsWelcome(w) && w.team == team
}

/// One encrypted text message for `team` on `channel`, and nothing else.
pub open spec fn one_encrypted(s: Seq<SecurityToNetworkEvent>, team: u32, channel: u32) -> bool {
    &&& s.len() == 1
    &&& s[0] matches SecurityToNetworkEvent::EncryptedAsciiMessage(m) && m.team == team
        && m.channel == channel
}

/// One plain text message for `team` on `channel`, and nothing else.
pub open spec fn one_plain(s: Seq<SecurityToUiEvent>, team: u32, channel: u32) -> bool {
    &&& s.len() == 1
    &&& s[0] matches SecurityToUiEvent::AsciiMessage(m) && m.team == team && m.channel == channel
}

/// The ids `0` up to `PLACEHOLDER_DEVICE_COUNT`, exclusive.
pub fn placeholder_device_ids() -> (r: Vec<u32>)
    ensures
        r@ == placeholder_ids(),
{
    let mut ids: Vec<u32> = Vec::new();
    let mut i: u32 = 0;
    while i < PLACEHOLDER_DEVICE_COUNT
        invariant
            i <= PLACEHOLDER_DEVICE_COUNT,
            ids@ == Seq::new(i as nat, |k: int| k as u32),
        decreases PLACEHOLDER_DEVICE_COUNT - i,
    {
        ids.push(i);
        i = i + 1;
        assert(ids@ =~= Seq::new(i as nat, |k: int| k as u32));
    }
    ids
}

/// The largest number of leaves that a 16-bit device id can index.
pub const MAX_DEVICES: usize = 65536;

/// Per leaf of a tree, in order, whether its key package matched: slot `None`
/// is a blank or parent node, `Some(b)` a leaf.
pub open spec fn leaf_flags(slots: Seq<Option<bool>>) -> Seq<bool>
    decreases slots.len(),
{
    if slots.len() == 0 {
        Seq::empty()
    } else {
        match slots.last() {
            Some(b) => leaf_flags(slots.drop_last()).push(b),
            None => leaf_flags(slots.drop_last()),
        }
    }
}

/// `i` is the position of the first `true` in `f`.
pub open spec fn is_first_true(f: Seq<bool>, i: int) -> bool {
    &&& 0 <= i < f.len()
    &&& f[i]
    &&& forall|j: int| 0 <= j < i ==> !f[j]
}

/// `r` is the index among the leaves of the first matching leaf, and `None`
/// where no leaf matches or the first match lies at `MAX_DEVICES` or beyond.
pub open spec fn is_leaf_index(slots: Seq<Option<bool>>, r: Option<u16>) -> bool {
    match r {
        Some(d) => is_first_true(leaf_flags(slots), d as int),
        None => forall|i: int| is_first_true(leaf_flags(slots), i) ==> i >= MAX_DEVICES,
    }
}

/// The leaf flags of a prefix of the slots are a prefix of the leaf flags.
proof fn lemma_leaf_flags_prefix(slots: Seq<Option<bool>>, i: int)
    requires
        0 <= i <= slots.len(),
    ensures
        leaf_flags(slots.subrange(0, i)).len() <= leaf_flags(slots).len(),
        forall|k: int|
            0 <= k < leaf_flags(slots.subrange(0, i)).len() ==> #[trigger] leaf_flags(
                slots.subrange(0, i),
            )[k] == leaf_flags(slots)[k],
    decreases slots.len(),
{
    if i == slots.len() {
        assert(slots.subrange(0, i) =~= slots);
    } else {
        let prev = slots.drop_last();
        assert(slots.subrange(0, i) =~= prev.subrange(0, i));
        lemma_leaf_flags_prefix(prev, i);
    }
}

/// The index among the leaves of the first leaf whose key package matched.
/// A match at `MAX_DEVICES` leaves or beyond has no 16-bit id and gives `None`.
pub fn leaf_index(slots: &Vec<Option<bool>>) -> (r: Option<u16>)
    ensures
        is_leaf_index(slots@, r),
{
    let mut count: usize = 0;
    let mut i: usize = 0;
    while i < slots.len()
        invariant
            i <= slots@.len(),
            count == leaf_flags(slots@.subrange(0, i as int)).len(),
            count <= i,
            forall|j: int| 0 <= j < count ==> !leaf_flags(slots@.subrange(0, i as int))[j],
        decreases slots@.len() - i,
    {
        let ghost before = slots@.subrange(0, i as int);
        let ghost after = slots@.subrange(0, i + 1);
        assert(after.drop_last() =~= before);
        proof {
            lemma_leaf_flags_prefix(slots@, i + 1);
        }
        match slots[i] {
            Some(true) => {
                proof {
                    assert(leaf_flags(after) == leaf_flags(before).push(true));
                    assert forall|j: int| 0 <= j < count implies !leaf_flags(slots@)[j] by {
                        assert(leaf_flags(after)[j] == leaf_flags(before)[j]);
                    }
                    assert(leaf_flags(after)[count as int] == leaf_flags(slots@)[count as int]);
                    assert(is_first_true(leaf_flags(slots@), count as int));
                }
                if count < MAX_DEVICES {
                    return Some(count as u16);
                } else {
                    return None;
                }
            },
            Some(false) => {
                assert(leaf_flags(after) =~= leaf_flags(before).push(false));
                count = count + 1;
            },
            None => {
                assert(leaf_flags(after) == leaf_flags(before));
            },
        }
        i = i + 1;
    }
    assert(slots@.subrange(0, i as int) =~= slots@);
    None
}

/// This member's device id in the group: the slots built from the exported
/// tree, and their leaf index.
fn device_id(group: &MlsGroup, ours: &KeyPackage) -> (r: (
    Option<u16>,
    Ghost<Seq<Option<bool>>>,
))
    ensures
        is_leaf_index(r.1@, r.0),
{
    let tree = export_tree(group);
    let mut slots: Vec<Option<bool>> = Vec::new();
    let mut i: usize = 0;
    while i < tree.len()
        decreases tree@.len() - i,
    {
        match &tree[i] {
            TreeSlot::Leaf(leaf) => {
                slots.push(Some(same_key_package(leaf_key_package(leaf), ours)));
            },
            _ => {
                slots.push(None);
            },
        }
        i = i + 1;
    }
    (leaf_index(&slots), Ghost(slots@))
}

/// The answer to decrypted text: the text for the interface peer, from this
/// member's device, or nothing where this member has no device id.
pub fn text_reaction(team: u32, channel: u32, device: Option<u16>, ascii: Vec<u8>) -> (r: Reaction)
    ensures
        r.to_network@.len() == 0,
        device matches Some(d) ==> {
            &&& r.outcome is Done
            &&& r.to_ui@.len() == 1
            &&& r.to_ui@[0] matches SecurityToUiEvent::AsciiMessage(m) && m.team == team
                && m.channel == channel && m.device_id == d && m.ascii@ == ascii@
        },
        device is None ==> r.outcome is NotInTree && r.is_silent(),
{
    match device {
        Some(device_id) => {
            let mut to_ui: Vec<SecurityToUiEvent> = Vec::new();
            to_ui.push(
                SecurityToUiEvent::AsciiMessage(AsciiMessage { team, channel, device_id, ascii }),
            );
            Reaction { to_network: Vec::new(), to_ui, outcome: Outcome::Done }
        },
        None => quiet(Outcome::NotInTree),
    }
}

/// The answer to a join request once the commit and the welcome are encoded:
/// the commit, then the welcome, both for `team`; or the encoding failure.
pub fn join_reaction(
    team: u32,
    commit: Result<Vec<u8>, tls_codec::Error>,
    welcome: Result<Vec<u8>, tls_codec::Error>,
) -> (r: Reaction)
    ensures
        r.to_ui@.len() == 0,
        match (commit, welcome) {
            (Ok(c), Ok(w)) => {
                &&& r.outcome is Done
                &&& r.to_network@.len() == 2
                &&& r.to_network@[0] matches SecurityToNetworkEvent::MlsCommitOut(x) && x.team
                    == team && x.commit@ == c@
                &&& r.to_network@[1] matches SecurityToNetworkEvent::MlsWelcome(y) && y.team
                    == team && y.welcome@ == w@
            },
            (Err(e), _) => r.is_silent() && r.outcome == Outcome::EncodeFailed(e),
            (Ok(_), Err(e)) => r.is_silent() && r.outcome == Outcome::EncodeFailed(e),
        },
{
    let commit = match commit {
        Ok(bytes) => bytes,
        Err(e) => return quiet(Outcome::EncodeFailed(e)),
    };
    let welcome = match welcome {
        Ok(bytes) => bytes,
        Err(e) => return quiet(Outcome::EncodeFailed(e)),
    };
    let mut to_network: Vec<SecurityToNetworkEvent> = Vec::new();
    to_network.push(
        SecurityToNetworkEvent::MlsCommitOut(
            MlsCommitOut { team, commit: TlsSerialized::new(commit) },
        ),
    );
    to_network.push(
        SecurityToNetworkEvent::MlsWelcome(
            MlsWelcome { team, welcome: TlsSerialized::new(welcome) },
        ),
    );
    Reaction { to_network, to_ui: Vec::new(), outcome: Outcome::Done }
}

/// Adds the owner of an encoded key package to `group`, then sends the commit
/// and the welcome.
fn add_to_group(
    backend: &OpenMlsRustCrypto,
    group: &mut MlsGroup,
    team: u32,
    key_package: &TlsSerialized,
) -> (r: Reaction)
    ensures
        r.to_ui@.len() == 0,
        r.is_done() ==> commit_then_welcome(r.to_network@, team),
        !r.is_done() ==> r.to_network@.len() == 0,
        r.outcome is Done || r.outcome is BadEncoding || r.outcome is AddFailed
            || r.outcome is MergeFailed || r.outcome is EncodeFailed,
{
    let kp = match read_key_package(key_package.as_slice()) {
        Ok(kp) => kp,
        Err(e) => return quiet(Outcome::BadEncoding(e)),
    };
    let (commit, welcome) = match add_member(group, backend, kp) {
        Ok(pair) => pair,
        Err(e) => return quiet(Outcome::AddFailed(e)),
    };
    match merge_pending_commit(group) {
        Ok(()) => {},
        Err(e) => return quiet(Outcome::MergeFailed(e)),
    }
    join_reaction(team, write_mls_message(&commit), write_welcome(&welcome))
}

/// Hands on a verified message, or the verification failure as an outcome.
fn processed(p: Result<Processed, UnverifiedMessageError>) -> (r: Result<Processed, Outcome>)
    ensures
        match p {
            Ok(x) => r matches Ok(y) && y == x,
            Err(e) => r matches Err(o) && o == Outcome::VerifyFailed(e),
        },
{
    match p {
        Ok(x) => Ok(x),
        Err(e) => Err(Outcome::VerifyFailed(e)),
    }
}

/// Verifies a parsed message, or hands on the parse failure as an outcome.
fn verify_parsed(
    backend: &OpenMlsRustCrypto,
    group: &mut MlsGroup,
    parsed: Result<UnverifiedMessage, ParseMessageError>,
) -> (r: Result<Processed, Outcome>)
    ensures
        parsed matches Err(e) ==> r matches Err(o) && o == Outcome::ParseFailed(e),
        parsed is Ok ==> (r matches Err(o) ==> o is VerifyFailed),
{
    match parsed {
        Ok(u) => processed(process_message(group, backend, u)),
        Err(e) => Err(Outcome::ParseFailed(e)),
    }
}

/// Parses and verifies a decoded message, or hands on the decoding failure as
/// an outcome.
fn verify_decoded(
    backend: &OpenMlsRustCrypto,
    group: &mut MlsGroup,
    decoded: Result<MlsMessageIn, tls_codec::Error>,
) -> (r: Result<Processed, Outcome>)
    ensures
        decoded matches Err(e) ==> r matches Err(o) && o == Outcome::BadEncoding(e),
        decoded is Ok ==> (r matches Err(o) ==> o is ParseFailed || o is VerifyFailed),
{
    match decoded {
        Ok(m) => {
            let parsed = parse_message(group, backend, m);
            verify_parsed(backend, group, parsed)
        },
        Err(e) => Err(Outcome::BadEncoding(e)),
    }
}

/// Decodes, parses and verifies an encoded group message against `group`.
fn verify_message(backend: &OpenMlsRustCrypto, group: &mut MlsGroup, bytes: &TlsSerialized) -> (r:
    Result<Processed, Outcome>)
    ensures
        r matches Err(o) ==> o is BadEncoding || o is ParseFailed || o is VerifyFailed,
{
    verify_decoded(backend, group, read_mls_message(bytes.as_slice()))
}

/// The staged commit of a verification result; any other verified message is
/// refused, and a failure is handed on.
pub fn commit_of(v: Result<Processed, Outcome>) -> (r: Result<StagedCommit, Outcome>)
    ensures
        match v {
            Ok(Processed::Commit(c)) => r matches Ok(d) && d == c,
            Ok(_) => r matches Err(o) && o is NotACommit,
            Err(o) => r matches Err(p) && p == o,
        },
{
    match v {
        Ok(Processed::Commit(c)) => Ok(c),
        Ok(_) => Err(Outcome::NotACommit),
        Err(o) => Err(o),
    }
}

/// Verifies and merges an encoded commit into `group`.
fn apply_commit(backend: &OpenMlsRustCrypto, group: &mut MlsGroup, commit: &TlsSerialized) -> (r:
    Reaction)
    ensures
        r.is_silent(),
        r.outcome is Done || r.outcome is CommitFailed || r.outcome is NotACommit
            || r.outcome is BadEncoding || r.outcome is ParseFailed || r.outcome is VerifyFailed,
{
    match commit_of(verify_message(backend, group, commit)) {
        Ok(staged) => match merge_staged_commit(group, staged) {
            Ok(()) => quiet(Outcome::Done),
            Err(e) => quiet(Outcome::CommitFailed(e)),
        },
        Err(o) => quiet(o),
    }
}

/// Verifies and decrypts an encoded text message, then hands the text to the
/// interface peer.
fn decrypt_text(
    backend: &OpenMlsRustCrypto,
    group: &mut MlsGroup,
    ours: &KeyPackage,
    team: u32,
    channel: u32,
    ciphertext: &TlsSerialized,
) -> (r: Reaction)
    ensures
        r.to_network@.len() == 0,
        r.is_done() ==> one_plain(r.to_ui@, team, channel),
        !r.is_done() ==> r.to_ui@.len() == 0,
{
    match verify_message(backend, group, ciphertext) {
        Ok(Processed::Application(m)) => {
            let (device, _) = device_id(group, ours);
            text_reaction(team, channel, device, application_bytes(m))
        },
        Ok(_) => quiet(Outcome::NotApplicationData),
        Err(o) => quiet(o),
    }
}

/// Encrypts text for the group and hands it to the network peer.
fn encrypt_text(
    backend: &OpenMlsRustCrypto,
    group: &mut MlsGroup,
    team: u32,
    channel: u32,
    ascii: &Vec<u8>,
) -> (r: Reaction)
    ensures
        r.to_ui@.len() == 0,
        r.is_done() ==> one_encrypted(r.to_network@, team, channel),
        !r.is_done() ==> r.to_network@.len() == 0,
{
    let message = match create_message(group, backend, ascii.as_slice()) {
        Ok(m) => m,
        Err(e) => return quiet(Outcome::EncryptFailed(e)),
    };
    let bytes = match write_mls_message(&message) {
        Ok(b) => b,
        Err(e) => return quiet(Outcome::EncodeFailed(e)),
    };
    let out = EncryptedAsciiMessageOut { team, channel, ciphertext: TlsSerialized::new(bytes) };
    let mut to_network: Vec<SecurityToNetworkEvent> = Vec::new();
    to_network.push(SecurityToNetworkEvent::EncryptedAsciiMessage(out));
    Reaction { to_network, to_ui: Vec::new(), outcome: Outcome::Done }
}

/// Every team other than `team` keeps its group.
pub open spec fn others_kept(old: Map<u32, MlsGroup>, new: Map<u32, MlsGroup>, team: u32) -> bool {
    forall|t: u32|
        t != team && #[trigger] old.contains_key(t) ==> new.contains_key(t) && new[t] == old[t]
}

/// A team that had a group still has one, and the other teams keep theirs.
pub open spec fn only_team_touched(
    old: Map<u32, MlsGroup>,
    new: Map<u32, MlsGroup>,
    team: u32,
) -> bool {
    &&& new.dom() == old.dom()
    &&& others_kept(old, new, team)
}

/// What handling network event `e` does, from state `old` to state `new`,
/// answering `r`.
pub open spec fn network_reaction(
    old: SecurityProcessor,
    new: SecurityProcessor,
    e: NetworkToSecurityEvent,
    r: Reaction,
) -> bool {
    match e {
        NetworkToSecurityEvent::MlsKeyPackage(_) => {
            &&& new.groups() == old.groups()
            &&& r.is_silent()
            &&& r.outcome is Unhandled
        },
        NetworkToSecurityEvent::MlsAddKeyPackage(j) => if old.groups().contains_key(j.team) {
            &&& only_team_touched(old.groups(), new.groups(), j.team)
            &&& r.to_ui@.len() == 0
            &&& r.is_done() ==> commit_then_welcome(r.to_network@, j.team)
            &&& !r.is_done() ==> r.to_network@.len() == 0
        } else {
            &&& new.groups() == old.groups()
            &&& r.is_silent()
            &&& r.outcome == Outcome::UnknownTeam(j.team)
        },
        NetworkToSecurityEvent::MlsWelcome(w) => {
            &&& r.is_silent()
            &&& r.is_done() ==> exists|g: MlsGroup| new.groups() == old.groups().insert(w.team, g)
            &&& !r.is_done() ==> new.groups() == old.groups()
            &&& r.outcome is Done || r.outcome is BadEncoding || r.outcome is JoinFailed
        },
        NetworkToSecurityEvent::MlsCommit(c) => if old.groups().contains_key(c.team) {
            &&& only_team_touched(old.groups(), new.groups(), c.team)
            &&& r.is_silent()
        } else {
            &&& new.groups() == old.groups()
            &&& r.is_silent()
            &&& r.outcome == Outcome::UnknownTeam(c.team)
        },
        NetworkToSecurityEvent::EncryptedAsciiMessage(m) => if old.groups().contains_key(m.team) {
            &&& only_team_touched(old.groups(), new.groups(), m.team)
            &&& r.to_network@.len() == 0
            &&& r.is_done() ==> one_plain(r.to_ui@, m.team, m.channel)
            &&& !r.is_done() ==> r.to_ui@.len() == 0
        } else {
            &&& new.groups() == old.groups()
            &&& r.is_silent()
            &&& r.outcome == Outcome::UnknownTeam(m.team)
        },
    }
}

/// What handling interface event `e` does, from state `old` to state `new`,
/// answering `r`.
pub open spec fn ui_reaction(
    old: SecurityProcessor,
    new: SecurityProcessor,
    e: UiToSecurityEvent,
    r: Reaction,
) -> bool {
    match e {
        UiToSecurityEvent::AsciiMessage(a) => if old.groups().contains_key(a.team) {
            &&& only_team_touched(old.groups(), new.groups(), a.team)
            &&& r.to_ui@.len() == 0
            &&& r.is_done() ==> one_encrypted(r.to_network@, a.team, a.channel)
            &&& !r.is_done() ==> r.to_network@.len() == 0
        } else {
            &&& new.groups() == old.groups()
            &&& r.is_silent()
            &&& r.outcome == Outcome::UnknownTeam(a.team)
        },
        UiToSecurityEvent::MlsSignatureHash(_) => {
            &&& new.groups() == old.groups()
            &&& r.is_silent()
            &&& r.outcome is Unhandled
        },
        UiToSecurityEvent::WatchChannel(w) => {
            &&& new.groups() == old.groups()
            &&& r.to_ui@.len() == 0
            &&& r.to_network@.len() == 1
            &&& r.to_network@[0] matches SecurityToNetworkEvent::WatchDevices(d) && d.team == w.team
                && d.channel == w.channel && d.device_ids@ == placeholder_ids()
            &&& r.is_done()
        },
        UiToSecurityEvent::UnwatchChannel(u) => {
            &&& new.groups() == old.groups()
            &&& r.to_ui@.len() == 0
            &&& r.to_network@.len() == 1
            &&& r.to_network@[0] matches SecurityToNetworkEvent::UnwatchDevices(d) && d.team
                == u.team && d.channel == u.channel && d.device_ids@ == placeholder_ids()
            &&& r.is_done()
        },
    }
}

/// The coordinator's state: the crypto provider, this member's key package,
/// and at most one group per team.
pub struct SecurityProcessor {
    backend: OpenMlsRustCrypto,
    groups: HashMap<u32, MlsGroup>,
    our_key_package: KeyPackage,
}

impl SecurityProcessor {
    /// The group of each team that has one.
    pub closed spec fn groups(&self) -> Map<u32, MlsGroup> {
        self.groups@
    }

    /// A coordinator with no groups yet.
    pub fn new(backend: OpenMlsRustCrypto, our_key_package: KeyPackage) -> (r: SecurityProcessor)
        ensures
            r.groups() == Map::<u32, MlsGroup>::empty(),
    {
        SecurityProcessor { backend, groups: HashMap::new(), our_key_package }
    }

    /// Installs the group of `team`, replacing any it had.
    pub fn insert_group(&mut self, team: u32, group: MlsGroup)
        ensures
            final(self).groups() == old(self).groups().insert(team, group),
    {
        self.groups.insert(team, group);
    }

    /// Installs the group that joining from a welcome gave, or reports why
    /// joining failed.
    pub fn install_joined(&mut self, team: u32, joined: Result<MlsGroup, WelcomeError>) -> (r:
        Reaction)
        ensures
            joined matches Ok(g) ==> final(self).groups() == old(self).groups().insert(team, g)
                && r.outcome is Done && r.is_silent(),
            joined is Err ==> final(self).groups() == old(self).groups() && r.outcome is JoinFailed
                && r.is_silent(),
    {
        match joined {
            Ok(group) => {
                self.groups.insert(team, group);
                quiet(Outcome::Done)
            },
            Err(e) => quiet(Outcome::JoinFailed(e)),
        }
    }

    /// Whether `team` has a group.
    pub fn has_group(&self, team: u32) -> (r: bool)
        ensures
            r == self.groups().contains_key(team),
    {
        self.groups.contains_key(&team)
    }

    /// The number of members of the group of `team`, as the engine reports it.
    pub fn member_count(&self, team: u32) -> (r: Option<usize>)
        ensures
            r is Some <==> self.groups().contains_key(team),
    {
        match self.groups.get(&team) {
            Some(g) => Some(member_count(g)),
            None => None,
        }
    }

    /// The crypto provider, for setting up identities and groups.
    pub fn backend(&self) -> &OpenMlsRustCrypto {
        &self.backend
    }

    /// Acts on one event from the network peer.
    pub fn handle_network_event(&mut self, event: NetworkToSecurityEvent) -> (r: Reaction)
        ensures
            network_reaction(*old(self), *final(self), event, r),
    {
        match event {
            NetworkToSecurityEvent::MlsKeyPackage(_) => quiet(Outcome::Unhandled),
            NetworkToSecurityEvent::MlsAddKeyPackage(j) => {
                let mut group = match self.groups.remove(&j.team) {
                    Some(g) => g,
                    None => {
                        proof {
                            assert(self.groups@ =~= old(self).groups@);
                        }
                        return quiet(Outcome::UnknownTeam(j.team));
                    },
                };
                let r = add_to_group(&self.backend, &mut group, j.team, &j.key_package);
                self.groups.insert(j.team, group);
                proof {
                    assert(self.groups@.dom() =~= old(self).groups@.dom());
                }
                r
            },
            NetworkToSecurityEvent::MlsWelcome(w) => {
                let welcome = match read_welcome(w.welcome.as_slice()) {
                    Ok(welcome) => welcome,
                    Err(e) => return quiet(Outcome::BadEncoding(e)),
                };
                let config = build_config(with_ratchet_tree(config_builder(), true));
                let joined = join_from_welcome(&self.backend, &config, welcome);
                let ghost before = self.groups();
                let ghost result = joined;
                let r = self.install_joined(w.team, joined);
                proof {
                    if let Ok(g) = result {
                        assert(self.groups() == before.insert(w.team, g));
                    }
                }
                r
            },
            NetworkToSecurityEvent::MlsCommit(c) => {
                let mut group = match self.groups.remove(&c.team) {
                    Some(g) => g,
                    None => {
                        proof {
                            assert(self.groups@ =~= old(self).groups@);
                        }
                        return quiet(Outcome::UnknownTeam(c.team));
                    },
                };
                let r = apply_commit(&self.backend, &mut group, &c.commit);
                self.groups.insert(c.team, group);
                proof {
                    assert(self.groups@.dom() =~= old(self).groups@.dom());
                }
                r
            },
            NetworkToSecurityEvent::EncryptedAsciiMessage(m) => {
                let mut group = match self.groups.remove(&m.team) {
                    Some(g) => g,
                    None => {
                        proof {
                            assert(self.groups@ =~= old(self).groups@);
                        }
                        return quiet(Outcome::UnknownTeam(m.team));
                    },
                };
                let r = decrypt_text(
                    &self.backend,
                    &mut group,
                    &self.our_key_package,
                    m.team,
                    m.channel,
                    &m.ciphertext,
                );
                self.groups.insert(m.team, group);
                proof {
                    assert(self.groups@.dom() =~= old(self).groups@.dom());
                }
                r
            },
        }
    }

    /// Acts on one event from the interface peer.
    pub fn handle_ui_event(&mut self, event: UiToSecurityEvent) -> (r: Reaction)
        ensures
            ui_reaction(*old(self), *final(self), event, r),
    {
        match event {
            UiToSecurityEvent::AsciiMessage(a) => {
                let mut group = match self.groups.remove(&a.team) {
                    Some(g) => g,
                    None => {
                        proof {
                            assert(self.groups@ =~= old(self).groups@);
                        }
                        return quiet(Outcome::UnknownTeam(a.team));
                    },
                };
                let r = encrypt_text(&self.backend, &mut group, a.team, a.channel, &a.ascii);
                self.groups.insert(a.team, group);
                proof {
                    assert(self.groups@.dom() =~= old(self).groups@.dom());
                }
                r
            },
            UiToSecurityEvent::MlsSignatureHash(_) => quiet(Outcome::Unhandled),
            UiToSecurityEvent::WatchChannel(w) => {
                let out = WatchDevices {
                    team: w.team,
                    channel: w.channel,
                    device_ids: placeholder_device_ids(),
                };
                let mut to_network: Vec<SecurityToNetworkEvent> = Vec::new();
                to_network.push(SecurityToNetworkEvent::WatchDevices(out));
                Reaction { to_network, to_ui: Vec::new(), outcome: Outcome::Done }
            },
            UiToSecurityEvent::UnwatchChannel(u) => {
                let out = UnwatchDevices {
                    team: u.team,
                    channel: u.channel,
                    device_ids: placeholder_device_ids(),
                };
                let mut to_network: Vec<SecurityToNetworkEvent> = Vec::new();
                to_network.push(SecurityToNetworkEvent::UnwatchDevices(out));
                Reaction { to_network, to_ui: Vec::new(), outcome: Outcome::Done }
            },
        }
    }

    /// Decodes a payload from the network peer and acts on its event.
    pub fn handle_network_message(&mut self, msg: &Message) -> (r: Reaction)
        ensures
            decode_event_spec(Family::NetworkToSecurity, msg@) matches Err(k) ==> {
                &&& final(self).groups() == old(self).groups()
                &&& r.is_silent()
                &&& r.outcome == Outcome::Undecodable(k)
            },
            decode_event_spec(Family::NetworkToSecurity, msg@) is Ok ==> exists|
                e: NetworkToSecurityEvent,
            |
                decode_event_spec(Family::NetworkToSecurity, msg@) == Result::<
                    EventModel,
                    DecodeError,
                >::Ok(e@) && #[trigger] network_reaction(*old(self), *final(self), e, r),
    {
        match NetworkToSecurityEvent::decode(msg) {
            Ok(event) => {
                let ghost e = event;
                let r = self.handle_network_event(event);
                assert(network_reaction(*old(self), *self, e, r));
                r
            },
            Err(k) => quiet(Outcome::Undecodable(k)),
        }
    }

    /// Decodes a payload from the interface peer and acts on its event.
    pub fn handle_ui_message(&mut self, msg: &Message) -> (r: Reaction)
        ensures
            decode_event_spec(Family::UiToSecurity, msg@) matches Err(k) ==> {
                &&& final(self).groups() == old(self).groups()
                &&& r.is_silent()
                &&& r.outcome == Outcome::Undecodable(k)
            },
            decode_event_spec(Family::UiToSecurity, msg@) is Ok ==> exists|e: UiToSecurityEvent|
                decode_event_spec(Family::UiToSecurity, msg@) == Result::<
                    EventModel,
                    DecodeError,
                >::Ok(e@) && #[trigger] ui_reaction(*old(self), *final(self), e, r),
    {
        match UiToSecurityEvent::decode(msg) {
            Ok(event) => {
                let ghost e = event;
                let r = self.handle_ui_event(event);
                assert(ui_reaction(*old(self), *self, e, r));
                r
            },
            Err(k) => quiet(Outcome::Undecodable(k)),
        }
    }
}

} // verus!
