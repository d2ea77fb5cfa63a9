//! Domain-separated derivation and the per-epoch key schedule.
use vstd::prelude::*;
use crate::codec::{append_be, append_bytes, append_opaque_u32, append_opaque_u8, be_bytes, copy_bytes, opaque_u32, opaque_u8};
use crate::crypto::{expand_of, extract_of, hkdf_expand, hkdf_extract, HASH_LEN};

verus! {

/// The fixed labels that separate the secrets derived from one another.
#[derive(Clone, Copy, Debug, PartialEq, Eq, Structural)]
pub enum Label {
    Joiner,
    Welcome,
    DerivedPsk,
    SenderData,
    Encryption,
    Exporter,
    Authentication,
    External,
    Confirm,
    Membership,
    Resumption,
    Init,
}

/// The ASCII text of each label.
pub open spec fn label_bytes(l: Label) -> Seq<u8> {
    match l {
        Label::Joiner => seq![0x6a, 0x6f, 0x69, 0x6e, 0x65, 0x72],
        Label::Welcome => seq![0x77, 0x65, 0x6c, 0x63, 0x6f, 0x6d, 0x65],
        Label::DerivedPsk => seq![0x64, 0x65, 0x72, 0x69, 0x76, 0x65, 0x64, 0x20, 0x70, 0x73, 0x6b],
        Label::SenderData => seq![0x73, 0x65, 0x6e, 0x64, 0x65, 0x72, 0x20, 0x64, 0x61, 0x74, 0x61],
        Label::Encryption => seq![0x65, 0x6e, 0x63, 0x72, 0x79, 0x70, 0x74, 0x69, 0x6f, 0x6e],
        Label::Exporter => seq![0x65, 0x78, 0x70, 0x6f, 0x72, 0x74, 0x65, 0x72],
        Label::Authentication => seq![0x61, 0x75, 0x74, 0x68, 0x65, 0x6e, 0x74, 0x69, 0x63, 0x61, 0x74, 0x69, 0x6f, 0x6e],
        Label::External => seq![0x65, 0x78, 0x74, 0x65, 0x72, 0x6e, 0x61, 0x6c],
        Label::Confirm => seq![0x63, 0x6f, 0x6e, 0x66, 0x69, 0x72, 0x6d],
        Label::Membership => seq![0x6d, 0x65, 0x6d, 0x62, 0x65, 0x72, 0x73, 0x68, 0x69, 0x70, 0x20, 0x6b, 0x65, 0x79],
        Label::Resumption => seq![0x72, 0x65, 0x73, 0x75, 0x6d, 0x70, 0x74, 0x69, 0x6f, 0x6e],
        Label::Init => seq![0x69, 0x6e, 0x69, 0x74],
    }
}

/// The protocol prefix "mls10 " put before every label.
pub open spec fn label_prefix() -> Seq<u8> {
    seq![0x6d, 0x6c, 0x73, 0x31, 0x30, 0x20]
}

impl Label {
    /// The label's text with the protocol prefix before it.
    pub fn prefixed(&self) -> (r: Vec<u8>)
        ensures
            r@ == label_prefix() + label_bytes(*self),
    {
        let mut r: Vec<u8> = vec![0x6d, 0x6c, 0x73, 0x31, 0x30, 0x20];
        let text: Vec<u8> = match self {
            Label::Joiner => vec![0x6a, 0x6f, 0x69, 0x6e, 0x65, 0x72],
            Label::Welcome => vec![0x77, 0x65, 0x6c, 0x63, 0x6f, 0x6d, 0x65],
            Label::DerivedPsk => vec![0x64, 0x65, 0x72, 0x69, 0x76, 0x65, 0x64, 0x20, 0x70, 0x73, 0x6b],
            Label::SenderData => vec![0x73, 0x65, 0x6e, 0x64, 0x65, 0x72, 0x20, 0x64, 0x61, 0x74, 0x61],
            Label::Encryption => vec![0x65, 0x6e, 0x63, 0x72, 0x79, 0x70, 0x74, 0x69, 0x6f, 0x6e],
            Label::Exporter => vec![0x65, 0x78, 0x70, 0x6f, 0x72, 0x74, 0x65, 0x72],
            Label::Authentication => vec![0x61, 0x75, 0x74, 0x68, 0x65, 0x6e, 0x74, 0x69, 0x63, 0x61, 0x74, 0x69, 0x6f, 0x6e],
            Label::External => vec![0x65, 0x78, 0x74, 0x65, 0x72, 0x6e, 0x61, 0x6c],
            Label::Confirm => vec![0x63, 0x6f, 0x6e, 0x66, 0x69, 0x72, 0x6d],
            Label::Membership => vec![0x6d, 0x65, 0x6d, 0x62, 0x65, 0x72, 0x73, 0x68, 0x69, 0x70, 0x20, 0x6b, 0x65, 0x79],
            Label::Resumption => vec![0x72, 0x65, 0x73, 0x75, 0x6d, 0x70, 0x74, 0x69, 0x6f, 0x6e],
            Label::Init => vec![0x69, 0x6e, 0x69, 0x74],
        };
        append_bytes(&mut r, text.as_slice());
        r
    }
}

/// The info string of Expand-with-label: the output length, the prefixed
/// label and the context.
pub open spec fn kdf_label(len: nat, label: Label, context: Seq<u8>) -> Seq<u8> {
    be_bytes(len, 2) + opaque_u8(label_prefix() + label_bytes(label)) + opaque_u32(context)
}

/// Expand-with-label.
pub open spec fn expand_label_of(secret: Seq<u8>, label: Label, context: Seq<u8>, len: nat) -> Seq<u8> {
    expand_of(secret, kdf_label(len, label, context), len)
}

/// Derive-Secret: Expand-with-label to the hash length with an empty context.
pub open spec fn derive_secret_of(secret: Seq<u8>, label: Label) -> Seq<u8> {
    expand_label_of(secret, label, Seq::empty(), HASH_LEN as nat)
}

/// A string of `n` zero bytes.
pub open spec fn zeros(n: nat) -> Seq<u8> {
    Seq::new(n, |i: int| 0u8)
}

/// Expand-with-label on a key of at least the hash length.
pub fn expand_with_label(secret: &[u8], label: Label, context: &[u8], len: u16) -> (r: Vec<u8>)
    requires
        secret@.len() >= HASH_LEN,
        len <= 255 * HASH_LEN,
        context@.len() < 0x1_0000_0000,
    ensures
        r@ == expand_label_of(secret@, label, context@, len as nat),
        r@.len() == len,
{
    let mut info: Vec<u8> = Vec::new();
    append_be(&mut info, len as u64, 2);
    let prefixed = label.prefixed();
    append_opaque_u8(&mut info, prefixed.as_slice());
    append_opaque_u32(&mut info, context);
    assert(info@ == kdf_label(len as nat, label, context@));
    match hkdf_expand(secret, info.as_slice(), len as usize) {
        Ok(v) => v,
        Err(_) => Vec::new(),
    }
}

/// Derive-Secret on a secret of the hash length.
pub fn derive_secret(secret: &[u8], label: Label) -> (r: Vec<u8>)
    requires
        secret@.len() == HASH_LEN,
    ensures
        r@ == derive_secret_of(secret@, label),
        r@.len() == HASH_LEN,
{
    let empty: Vec<u8> = Vec::new();
    expand_with_label(secret, label, empty.as_slice(), 32)
}

/// HKDF-Extract, which never fails with the hash of the known suites.
pub fn extract(salt: &[u8], ikm: &[u8]) -> (r: Vec<u8>)
    ensures
        r@ == extract_of(salt@, ikm@),
        r@.len() == HASH_LEN,
{
    match hkdf_extract(salt, ikm) {
        Ok(v) => v,
        Err(_) => Vec::new(),
    }
}

/// A string of `n` zero bytes.
pub fn zero_secret(n: usize) -> (r: Vec<u8>)
    ensures
        r@ == zeros(n as nat),
{
    let mut r: Vec<u8> = Vec::new();
    let mut i: usize = 0;
    while i < n
        invariant
            i <= n,
            r@ == zeros(i as nat),
        decreases n - i,
    {
        r.push(0u8);
        i = i + 1;
        assert(r@ =~= zeros(i as nat));
    }
    r
}

/// The joiner secret: the previous epoch's init secret and this epoch's
/// commit secret folded into one.
pub open spec fn joiner_secret_of(commit_secret: Seq<u8>, init_secret: Seq<u8>) -> Seq<u8> {
    derive_secret_of(extract_of(init_secret, commit_secret), Label::Joiner)
}

/// Derives the joiner secret from a commit secret and the previous init secret.
pub fn joiner_secret(commit_secret: &[u8], init_secret: &[u8]) -> (r: Vec<u8>)
    ensures
        r@ == joiner_secret_of(commit_secret@, init_secret@),
        r@.len() == HASH_LEN,
{
    let intermediate = extract(init_secret, commit_secret);
    derive_secret(intermediate.as_slice(), Label::Joiner)
}

/// A pre-shared key: the encoded identifier and the secret it names.
pub struct PskValue {
    pub psk_id: Vec<u8>,
    pub psk: Vec<u8>,
}

/// The context bound into each pre-shared key's contribution: its encoded
/// identifier, its position and the number of keys.
pub open spec fn psk_label(id: Seq<u8>, index: nat, count: nat) -> Seq<u8> {
    id + be_bytes(index, 2) + be_bytes(count, 2)
}

/// What the first `n` keys of `psks` make together; no key gives zeros.
pub open spec fn psk_secret_upto(psks: Seq<PskValue>, n: nat) -> Seq<u8>
    decreases n,
{
    if n == 0 || n > psks.len() {
        zeros(HASH_LEN as nat)
    } else {
        let i = (n - 1) as nat;
        let extracted = extract_of(zeros(HASH_LEN as nat), psks[i as int].psk@);
        let input = expand_label_of(
            extracted,
            Label::DerivedPsk,
            psk_label(psks[i as int].psk_id@, i, psks.len()),
            HASH_LEN as nat,
        );
        extract_of(input, psk_secret_upto(psks, i))
    }
}

/// The pre-shared-key secret of a whole list.
pub open spec fn psk_secret_of(psks: Seq<PskValue>) -> Seq<u8> {
    psk_secret_upto(psks, psks.len())
}

/// The list's count and every identifier fit their length fields.
pub open spec fn psks_fit(psks: Seq<PskValue>) -> bool {
    &&& psks.len() < 0x1_0000
    &&& forall|i: int| 0 <= i < psks.len() ==> (#[trigger] psks[i]).psk_id@.len() < 0x1_0000
}

/// Combines the pre-shared keys, in order, into one secret.
pub fn psk_secret(psks: &Vec<PskValue>) -> (r: Vec<u8>)
    requires
        psks_fit(psks@),
    ensures
        r@ == psk_secret_of(psks@),
        r@.len() == HASH_LEN,
{
    let zero = zero_secret(32);
    let mut acc = zero_secret(32);
    let count = psks.len();
    let mut i: usize = 0;
    while i < count
        invariant
            count == psks@.len(),
            psks_fit(psks@),
            i <= count,
            zero@ == zeros(HASH_LEN as nat),
            acc@ == psk_secret_upto(psks@, i as nat),
            acc@.len() == HASH_LEN,
        decreases count - i,
    {
        let extracted = extract(zero.as_slice(), psks[i].psk.as_slice());
        let mut label: Vec<u8> = copy_bytes(psks[i].psk_id.as_slice());
        append_be(&mut label, i as u64, 2);
        append_be(&mut label, count as u64, 2);
        assert(label@ == psk_label(psks@[i as int].psk_id@, i as nat, count as nat));
        proof {
            crate::codec::lemma_be_bytes_len(i as nat, 2);
            crate::codec::lemma_be_bytes_len(count as nat, 2);
        }
        let input = expand_with_label(extracted.as_slice(), Label::DerivedPsk, label.as_slice(), 32);
        acc = extract(input.as_slice(), acc.as_slice());
        i = i + 1;
    }
    acc
}

/// The state of a group that an epoch's secrets are bound to. It carries no
/// extensions.
pub struct GroupContext {
    group_id: Vec<u8>,
    epoch: u64,
    tree_hash: Vec<u8>,
    confirmed_transcript_hash: Vec<u8>,
}

/// The canonical encoding of a group context; the extension list is empty.
pub open spec fn group_context_bytes(group_id: Seq<u8>, epoch: u64, tree_hash: Seq<u8>, confirmed_transcript_hash: Seq<u8>) -> Seq<u8> {
    opaque_u8(group_id) + be_bytes(epoch as nat, 8) + opaque_u8(tree_hash) + opaque_u8(confirmed_transcript_hash)
        + opaque_u32(Seq::empty())
}

/// Each byte string of a group context fits its one-byte length.
pub open spec fn group_context_fits(group_id: Seq<u8>, tree_hash: Seq<u8>, confirmed_transcript_hash: Seq<u8>) -> bool {
    group_id.len() < 256 && tree_hash.len() < 256 && confirmed_transcript_hash.len() < 256
}

impl GroupContext {
    pub closed spec fn wf(&self) -> bool {
        group_context_fits(self.group_id@, self.tree_hash@, self.confirmed_transcript_hash@)
    }

    /// The context's canonical encoding.
    pub closed spec fn encoding(&self) -> Seq<u8> {
        group_context_bytes(self.group_id@, self.epoch, self.tree_hash@, self.confirmed_transcript_hash@)
    }

    /// Builds a context; fails when a byte string is too long to encode.
    pub fn new(group_id: &[u8], epoch: u64, tree_hash: &[u8], confirmed_transcript_hash: &[u8]) -> (r: Option<GroupContext>)
        ensures
            r is Some <==> group_context_fits(group_id@, tree_hash@, confirmed_transcript_hash@),
            r is Some ==> r->Some_0.wf(),
            r is Some ==> r->Some_0.encoding() == group_context_bytes(group_id@, epoch, tree_hash@, confirmed_transcript_hash@),
    {
        if group_id.len() < 256 && tree_hash.len() < 256 && confirmed_transcript_hash.len() < 256 {
            Some(GroupContext {
                group_id: copy_bytes(group_id),
                epoch,
                tree_hash: copy_bytes(tree_hash),
                confirmed_transcript_hash: copy_bytes(confirmed_transcript_hash),
            })
        } else {
            None
        }
    }

    /// The canonical encoding.
    pub fn serialize(&self) -> (r: Vec<u8>)
        requires
            self.wf(),
        ensures
            r@ == self.encoding(),
    {
        let mut out: Vec<u8> = Vec::new();
        append_opaque_u8(&mut out, self.group_id.as_slice());
        append_be(&mut out, self.epoch, 8);
        append_opaque_u8(&mut out, self.tree_hash.as_slice());
        append_opaque_u8(&mut out, self.confirmed_transcript_hash.as_slice());
        let none: Vec<u8> = Vec::new();
        append_opaque_u32(&mut out, none.as_slice());
        out
    }
}

/// The secrets of one epoch. The init secret is absent where it was withheld.
pub struct EpochSecrets {
    pub init_secret: Option<Vec<u8>>,
    pub sender_data_secret: Vec<u8>,
    pub encryption_secret: Vec<u8>,
    pub exporter_secret: Vec<u8>,
    pub authentication_secret: Vec<u8>,
    pub external_secret: Vec<u8>,
    pub confirmation_key: Vec<u8>,
    pub membership_key: Vec<u8>,
    pub resumption_secret: Vec<u8>,
}

impl EpochSecrets {
    /// Every secret in the bundle is as long as the hash output.
    pub open spec fn hash_length(&self) -> bool {
        &&& (self.init_secret is Some ==> self.init_secret->Some_0@.len() == HASH_LEN)
        &&& self.sender_data_secret@.len() == HASH_LEN
        &&& self.encryption_secret@.len() == HASH_LEN
        &&& self.exporter_secret@.len() == HASH_LEN
        &&& self.authentication_secret@.len() == HASH_LEN
        &&& self.external_secret@.len() == HASH_LEN
        &&& self.confirmation_key@.len() == HASH_LEN
        &&& self.membership_key@.len() == HASH_LEN
        &&& self.resumption_secret@.len() == HASH_LEN
    }

    /// Every secret is the one derived under its label from `epoch_secret`;
    /// the init secret is there exactly when `with_init` holds.
    pub open spec fn derived_from(&self, epoch_secret: Seq<u8>, with_init: bool) -> bool {
        &&& (self.init_secret is Some <==> with_init)
        &&& (self.init_secret is Some ==> self.init_secret->Some_0@ == derive_secret_of(epoch_secret, Label::Init))
        &&& self.sender_data_secret@ == derive_secret_of(epoch_secret, Label::SenderData)
        &&& self.encryption_secret@ == derive_secret_of(epoch_secret, Label::Encryption)
        &&& self.exporter_secret@ == derive_secret_of(epoch_secret, Label::Exporter)
        &&& self.authentication_secret@ == derive_secret_of(epoch_secret, Label::Authentication)
        &&& self.external_secret@ == derive_secret_of(epoch_secret, Label::External)
        &&& self.confirmation_key@ == derive_secret_of(epoch_secret, Label::Confirm)
        &&& self.membership_key@ == derive_secret_of(epoch_secret, Label::Membership)
        &&& self.resumption_secret@ == derive_secret_of(epoch_secret, Label::Resumption)
    }
}

/// Where a key schedule stands within its epoch.
#[derive(Clone, Copy, Debug, PartialEq, Eq, Structural)]
pub enum ScheduleState {
    /// Holds the joiner secret mixed with the pre-shared keys.
    Joined,
    /// Bound to a group context; holds the epoch secret.
    Contextualized,
    /// The epoch's secrets were handed out.
    Epoched,
}

/// A call made out of the schedule's order.
#[derive(Clone, Copy, Debug, PartialEq, Eq, Structural)]
pub enum KeyScheduleError {
    InvalidState,
}

/// The secret that the pre-shared keys fold into the joiner secret.
pub open spec fn intermediate_of(joiner_secret: Seq<u8>, psk_secret: Option<Seq<u8>>) -> Seq<u8> {
    extract_of(joiner_secret, match psk_secret {
        Some(p) => p,
        None => zeros(HASH_LEN as nat),
    })
}

/// The welcome secret of an epoch.
pub open spec fn welcome_secret_of(intermediate: Seq<u8>) -> Seq<u8> {
    derive_secret_of(intermediate, Label::Welcome)
}

/// The epoch secret: the intermediate secret bound to the group context.
pub open spec fn epoch_secret_of(intermediate: Seq<u8>, context: Seq<u8>) -> Seq<u8> {
    extract_of(intermediate, context)
}

/// The key schedule of one epoch, a ratchet that only moves forward.
pub struct KeySchedule {
    intermediate: Vec<u8>,
    epoch_secret: Vec<u8>,
    state: ScheduleState,
}

impl KeySchedule {
    pub closed spec fn state(&self) -> ScheduleState {
        self.state
    }

    /// The joiner secret with the pre-shared keys folded in.
    pub closed spec fn intermediate(&self) -> Seq<u8> {
        self.intermediate@
    }

    /// The epoch secret, once a context is bound.
    pub closed spec fn epoch_secret(&self) -> Seq<u8> {
        self.epoch_secret@
    }

    pub closed spec fn wf(&self) -> bool {
        self.intermediate@.len() == HASH_LEN && (self.state != ScheduleState::Joined ==> self.epoch_secret@.len()
            == HASH_LEN)
    }

    /// Starts an epoch from its joiner secret and, if any, its pre-shared-key
    /// secret.
    pub fn init(joiner_secret: &[u8], psk_secret: Option<&[u8]>) -> (r: KeySchedule)
        ensures
            r.wf(),
            r.state() == ScheduleState::Joined,
            r.intermediate() == intermediate_of(joiner_secret@, match psk_secret {
                Some(p) => Some(p@),
                None => None,
            }),
    {
        let intermediate = match psk_secret {
            Some(p) => extract(joiner_secret, p),
            None => {
                let z = zero_secret(32);
                extract(joiner_secret, z.as_slice())
            },
        };
        KeySchedule { intermediate, epoch_secret: Vec::new(), state: ScheduleState::Joined }
    }

    /// The welcome secret; only before a context is bound. Leaves the
    /// schedule as it is.
    pub fn welcome(&self) -> (r: Result<Vec<u8>, KeyScheduleError>)
        requires
            self.wf(),
        ensures
            r is Ok <==> self.state() == ScheduleState::Joined,
            r is Ok ==> r->Ok_0@ == welcome_secret_of(self.intermediate()),
            r is Ok ==> r->Ok_0@.len() == HASH_LEN,
            r is Err ==> r == Err::<Vec<u8>, KeyScheduleError>(KeyScheduleError::InvalidState),
    {
        if self.state != ScheduleState::Joined {
            return Err(KeyScheduleError::InvalidState);
        }
        Ok(derive_secret(self.intermediate.as_slice(), Label::Welcome))
    }

    /// Binds the schedule to the epoch's group context.
    pub fn add_context(&mut self, context: &GroupContext) -> (r: Result<(), KeyScheduleError>)
        requires
            old(self).wf(),
            context.wf(),
        ensures
            final(self).wf(),
            final(self).intermediate() == old(self).intermediate(),
            r is Ok <==> old(self).state() == ScheduleState::Joined,
            r is Ok ==> final(self).state() == ScheduleState::Contextualized,
            r is Ok ==> final(self).epoch_secret() == epoch_secret_of(old(self).intermediate(), context.encoding()),
            r is Err ==> r == Err::<(), KeyScheduleError>(KeyScheduleError::InvalidState) && *final(self) == *old(self),
    {
        if self.state != ScheduleState::Joined {
            return Err(KeyScheduleError::InvalidState);
        }
        let encoded = context.serialize();
        self.epoch_secret = extract(self.intermediate.as_slice(), encoded.as_slice());
        self.state = ScheduleState::Contextualized;
        Ok(())
    }

    /// Hands out the epoch's secrets, with or without the next init secret,
    /// and closes the epoch.
    pub fn epoch_secrets(&mut self, with_init_secret: bool) -> (r: Result<EpochSecrets, KeyScheduleError>)
        requires
            old(self).wf(),
        ensures
            final(self).wf(),
            final(self).intermediate() == old(self).intermediate(),
            final(self).epoch_secret() == old(self).epoch_secret(),
            r is Ok <==> old(self).state() == ScheduleState::Contextualized,
            r is Ok ==> final(self).state() == ScheduleState::Epoched,
            r is Ok ==> r->Ok_0.derived_from(old(self).epoch_secret(), with_init_secret),
            r is Ok ==> r->Ok_0.hash_length(),
            r is Err ==> r == Err::<EpochSecrets, KeyScheduleError>(KeyScheduleError::InvalidState) && *final(self) == *old(self),
    {
        if self.state != ScheduleState::Contextualized {
            return Err(KeyScheduleError::InvalidState);
        }
        let e = self.epoch_secret.as_slice();
        let init_secret = if with_init_secret {
            Some(derive_secret(e, Label::Init))
        } else {
            None
        };
        let secrets = EpochSecrets {
            init_secret,
            sender_data_secret: derive_secret(e, Label::SenderData),
            encryption_secret: derive_secret(e, Label::Encryption),
            exporter_secret: derive_secret(e, Label::Exporter),
            authentication_secret: derive_secret(e, Label::Authentication),
            external_secret: derive_secret(e, Label::External),
            confirmation_key: derive_secret(e, Label::Confirm),
            membership_key: derive_secret(e, Label::Membership),
            resumption_secret: derive_secret(e, Label::Resumption),
        };
        self.state = ScheduleState::Epoched;
        Ok(secrets)
    }
}

/// What a pre-shared key is bound to.
pub enum Psk {
    /// A key agreed outside the protocol, named by an identifier.
    External { psk_id: Vec<u8> },
    /// A key of the group that is re-initialised.
    Reinit { psk_group_id: Vec<u8>, psk_epoch: u64 },
    /// A key of the group that a subgroup branches from.
    Branch { psk_group_id: Vec<u8>, psk_epoch: u64 },
}

/// The identifier of a pre-shared key: its kind and a fresh nonce.
pub struct PreSharedKeyId {
    pub psk: Psk,
    pub psk_nonce: Vec<u8>,
}

/// The encoding of the identifier of a branch key of group `group_id` at
/// `epoch`, with `nonce`.
pub open spec fn branch_psk_id_bytes(group_id: Seq<u8>, epoch: u64, nonce: Seq<u8>) -> Seq<u8> {
    seq![3u8] + opaque_u8(group_id) + be_bytes(epoch as nat, 8) + opaque_u8(nonce)
}

/// `b` encodes the identifier of a branch key at `epoch`, of a group with a
/// 16-byte id and with a 13-byte nonce.
pub open spec fn is_branch_psk_id(b: Seq<u8>, epoch: u64) -> bool {
    exists|g: Seq<u8>, n: Seq<u8>| g.len() == 16 && n.len() == 13 && b == #[trigger] branch_psk_id_bytes(g, epoch, n)
}

/// The canonical encoding of a pre-shared-key identifier.
pub open spec fn psk_id_bytes(id: PreSharedKeyId) -> Seq<u8> {
    let body = match id.psk {
        Psk::External { psk_id } => seq![1u8] + opaque_u8(psk_id@),
        Psk::Reinit { psk_group_id, psk_epoch } => seq![2u8] + opaque_u8(psk_group_id@) + be_bytes(psk_epoch as nat, 8),
        Psk::Branch { psk_group_id, psk_epoch } => seq![3u8] + opaque_u8(psk_group_id@) + be_bytes(psk_epoch as nat, 8),
    };
    body + opaque_u8(id.psk_nonce@)
}

impl PreSharedKeyId {
    /// Each byte string fits its one-byte length.
    pub open spec fn fits(&self) -> bool {
        &&& self.psk_nonce@.len() < 256
        &&& match self.psk {
            Psk::External { psk_id } => psk_id@.len() < 256,
            Psk::Reinit { psk_group_id, .. } => psk_group_id@.len() < 256,
            Psk::Branch { psk_group_id, .. } => psk_group_id@.len() < 256,
        }
    }

    /// The canonical encoding.
    pub fn serialize(&self) -> (r: Vec<u8>)
        requires
            self.fits(),
        ensures
            r@ == psk_id_bytes(*self),
            r@.len() <= 530,
    {
        proof {
            crate::codec::lemma_be_bytes_len(self.psk_nonce@.len() as nat, 1);
            crate::codec::lemma_be_bytes_len(0, 8);
            match &self.psk {
                Psk::External { psk_id } => crate::codec::lemma_be_bytes_len(psk_id@.len() as nat, 1),
                Psk::Reinit { psk_group_id, psk_epoch } => {
                    crate::codec::lemma_be_bytes_len(psk_group_id@.len() as nat, 1);
                    crate::codec::lemma_be_bytes_len(*psk_epoch as nat, 8);
                },
                Psk::Branch { psk_group_id, psk_epoch } => {
                    crate::codec::lemma_be_bytes_len(psk_group_id@.len() as nat, 1);
                    crate::codec::lemma_be_bytes_len(*psk_epoch as nat, 8);
                },
            }
        }
        let mut out: Vec<u8> = Vec::new();
        match &self.psk {
            Psk::External { psk_id } => {
                out.push(1u8);
                append_opaque_u8(&mut out, psk_id.as_slice());
            },
            Psk::Reinit { psk_group_id, psk_epoch } => {
                out.push(2u8);
                append_opaque_u8(&mut out, psk_group_id.as_slice());
                append_be(&mut out, *psk_epoch, 8);
            },
            Psk::Branch { psk_group_id, psk_epoch } => {
                out.push(3u8);
                append_opaque_u8(&mut out, psk_group_id.as_slice());
                append_be(&mut out, *psk_epoch, 8);
            },
        }
        append_opaque_u8(&mut out, self.psk_nonce.as_slice());
        out
    }
}

/// Two bundles hold the same bytes in every secret.
pub open spec fn same_secrets(a: EpochSecrets, b: EpochSecrets) -> bool {
    &&& (a.init_secret is Some <==> b.init_secret is Some)
    &&& (a.init_secret is Some ==> a.init_secret->Some_0@ == b.init_secret->Some_0@)
    &&& a.sender_data_secret@ == b.sender_data_secret@
    &&& a.encryption_secret@ == b.encryption_secret@
    &&& a.exporter_secret@ == b.exporter_secret@
    &&& a.authentication_secret@ == b.authentication_secret@
    &&& a.external_secret@ == b.external_secret@
    &&& a.confirmation_key@ == b.confirmation_key@
    &&& a.membership_key@ == b.membership_key@
    &&& a.resumption_secret@ == b.resumption_secret@
}

/// Determinism: two runs of the schedule on the same init secret, commit
/// secret, pre-shared-key secret and group context hand out byte-identical
/// secrets.
pub proof fn lemma_epoch_secrets_deterministic(
    init_secret: Seq<u8>,
    commit_secret: Seq<u8>,
    psk_secret: Option<Seq<u8>>,
    context: Seq<u8>,
    with_init: bool,
    a: EpochSecrets,
    b: EpochSecrets,
)
    requires
        a.derived_from(
            epoch_secret_of(intermediate_of(joiner_secret_of(commit_secret, init_secret), psk_secret), context),
            with_init,
        ),
        b.derived_from(
            epoch_secret_of(intermediate_of(joiner_secret_of(commit_secret, init_secret), psk_secret), context),
            with_init,
        ),
    ensures
        same_secrets(a, b),
{
}

} // verus!
