//! Conformance vectors for the key schedule: making them, and replaying them.
use vstd::prelude::*;
use crate::codec::{append_opaque_u16, copy_bytes, opaque_u16};
use crate::crypto::{derive_x25519_public, os_random_u32, random_vec, suite_id, suite_of, x25519_public_of, Ciphersuite, HASH_LEN};
use crate::errors::KsTestVectorError;
use crate::schedule::{
    branch_psk_id_bytes, derive_secret_of, epoch_secret_of, is_branch_psk_id, group_context_bytes, group_context_fits, intermediate_of,
    joiner_secret, joiner_secret_of, psk_secret, psk_secret_of, psks_fit, welcome_secret_of,
    EpochSecrets, GroupContext, KeySchedule, Label, PreSharedKeyId, Psk, PskValue,
};

verus! {

/// One epoch of a vector: the inputs that were chosen, and every output.
pub struct Epoch {
    pub tree_hash: Vec<u8>,
    pub commit_secret: Vec<u8>,
    pub psks: Vec<PskValue>,
    pub confirmed_transcript_hash: Vec<u8>,
    pub group_context: Vec<u8>,
    pub joiner_secret: Vec<u8>,
    pub welcome_secret: Vec<u8>,
    pub init_secret: Vec<u8>,
    pub sender_data_secret: Vec<u8>,
    pub encryption_secret: Vec<u8>,
    pub exporter_secret: Vec<u8>,
    pub authentication_secret: Vec<u8>,
    pub external_secret: Vec<u8>,
    pub confirmation_key: Vec<u8>,
    pub membership_key: Vec<u8>,
    pub resumption_secret: Vec<u8>,
    /// The encoded public key of the external key pair.
    pub external_pub: Vec<u8>,
}

/// A chain of epochs of one group under one cipher suite.
pub struct KeyScheduleTestVector {
    pub cipher_suite: u16,
    pub group_id: Vec<u8>,
    pub initial_init_secret: Vec<u8>,
    pub epochs: Vec<Epoch>,
}

/// Every output of one epoch, as values. The group context and what depends
/// on it are there only when the context can be encoded.
pub struct EpochOutputs {
    pub joiner_secret: Seq<u8>,
    pub welcome_secret: Seq<u8>,
    pub group_context: Option<Seq<u8>>,
    pub init_secret: Seq<u8>,
    pub sender_data_secret: Seq<u8>,
    pub encryption_secret: Seq<u8>,
    pub exporter_secret: Seq<u8>,
    pub authentication_secret: Seq<u8>,
    pub external_secret: Seq<u8>,
    pub confirmation_key: Seq<u8>,
    pub membership_key: Seq<u8>,
    pub resumption_secret: Seq<u8>,
    pub external_pub: Seq<u8>,
}

/// The epoch secret of an epoch, from the init secret that enters it.
pub open spec fn epoch_secret_from(
    init: Seq<u8>,
    group_id: Seq<u8>,
    index: nat,
    commit_secret: Seq<u8>,
    psks: Seq<PskValue>,
    tree_hash: Seq<u8>,
    confirmed_transcript_hash: Seq<u8>,
) -> Seq<u8> {
    let intermediate = intermediate_of(joiner_secret_of(commit_secret, init), Some(psk_secret_of(psks)));
    epoch_secret_of(intermediate, group_context_bytes(group_id, index as u64, tree_hash, confirmed_transcript_hash))
}

/// What the inputs of one epoch derive, from the init secret that enters it.
#[verifier::opaque]
pub open spec fn derived_outputs(
    init: Seq<u8>,
    group_id: Seq<u8>,
    index: nat,
    commit_secret: Seq<u8>,
    psks: Seq<PskValue>,
    tree_hash: Seq<u8>,
    confirmed_transcript_hash: Seq<u8>,
) -> EpochOutputs {
    let joiner = joiner_secret_of(commit_secret, init);
    let intermediate = intermediate_of(joiner, Some(psk_secret_of(psks)));
    let es = epoch_secret_from(init, group_id, index, commit_secret, psks, tree_hash, confirmed_transcript_hash);
    EpochOutputs {
        joiner_secret: joiner,
        welcome_secret: welcome_secret_of(intermediate),
        group_context: if group_context_fits(group_id, tree_hash, confirmed_transcript_hash) {
            Some(group_context_bytes(group_id, index as u64, tree_hash, confirmed_transcript_hash))
        } else {
            None
        },
        init_secret: derive_secret_of(es, Label::Init),
        sender_data_secret: derive_secret_of(es, Label::SenderData),
        encryption_secret: derive_secret_of(es, Label::Encryption),
        exporter_secret: derive_secret_of(es, Label::Exporter),
        authentication_secret: derive_secret_of(es, Label::Authentication),
        external_secret: derive_secret_of(es, Label::External),
        confirmation_key: derive_secret_of(es, Label::Confirm),
        membership_key: derive_secret_of(es, Label::Membership),
        resumption_secret: derive_secret_of(es, Label::Resumption),
        external_pub: opaque_u16(x25519_public_of(derive_secret_of(es, Label::External))),
    }
}

/// The first recorded output of `e` that differs from `o`, in the order of
/// the vector's fields, the group context first; `None` when all agree.
#[verifier::opaque]
pub open spec fn outputs_error(e: Epoch, o: EpochOutputs) -> Option<KsTestVectorError> {
    if o.group_context != Some(e.group_context@) {
        Some(KsTestVectorError::GroupContextMismatch)
    } else if e.joiner_secret@ != o.joiner_secret {
        Some(KsTestVectorError::JoinerSecretMismatch)
    } else if e.welcome_secret@ != o.welcome_secret {
        Some(KsTestVectorError::WelcomeSecretMismatch)
    } else if e.init_secret@ != o.init_secret {
        Some(KsTestVectorError::InitSecretMismatch)
    } else if e.sender_data_secret@ != o.sender_data_secret {
        Some(KsTestVectorError::SenderDataSecretMismatch)
    } else if e.encryption_secret@ != o.encryption_secret {
        Some(KsTestVectorError::EncryptionSecretMismatch)
    } else if e.exporter_secret@ != o.exporter_secret {
        Some(KsTestVectorError::ExporterSecretMismatch)
    } else if e.authentication_secret@ != o.authentication_secret {
        Some(KsTestVectorError::AuthenticationSecretMismatch)
    } else if e.external_secret@ != o.external_secret {
        Some(KsTestVectorError::ExternalSecretMismatch)
    } else if e.confirmation_key@ != o.confirmation_key {
        Some(KsTestVectorError::ConfirmationKeyMismatch)
    } else if e.membership_key@ != o.membership_key {
        Some(KsTestVectorError::MembershipKeyMismatch)
    } else if e.resumption_secret@ != o.resumption_secret {
        Some(KsTestVectorError::ResumptionSecretMismatch)
    } else if e.external_pub@ != o.external_pub {
        Some(KsTestVectorError::ExternalPubMismatch)
    } else {
        None
    }
}

/// What epoch `e`, number `index`, derives from the init secret `init`.
pub open spec fn epoch_outputs(init: Seq<u8>, group_id: Seq<u8>, index: nat, e: Epoch) -> EpochOutputs {
    derived_outputs(init, group_id, index, e.commit_secret@, e.psks@, e.tree_hash@, e.confirmed_transcript_hash@)
}

/// The first recorded output of an epoch that its inputs do not reproduce.
pub open spec fn epoch_error(init: Seq<u8>, group_id: Seq<u8>, index: nat, e: Epoch) -> Option<KsTestVectorError> {
    outputs_error(e, epoch_outputs(init, group_id, index, e))
}

/// The init secret that enters epoch `i` of a chain that starts from `init`:
/// each epoch hands the next the init secret it derives.
pub open spec fn init_before(init: Seq<u8>, group_id: Seq<u8>, epochs: Seq<Epoch>, i: nat) -> Seq<u8>
    decreases i,
{
    if i == 0 || i > epochs.len() {
        init
    } else {
        let prev = (i - 1) as nat;
        epoch_outputs(init_before(init, group_id, epochs, prev), group_id, prev, epochs[prev as int]).init_secret
    }
}

/// The error of epoch `i` of a vector, replayed along its chain.
pub open spec fn vector_epoch_error(tv: KeyScheduleTestVector, i: nat) -> Option<KsTestVectorError> {
    epoch_error(
        init_before(tv.initial_init_secret@, tv.group_id@, tv.epochs@, i),
        tv.group_id@,
        i,
        tv.epochs@[i as int],
    )
}

/// Every recorded secret of an epoch is as long as the hash output.
pub open spec fn outputs_hash_length(e: Epoch) -> bool {
    &&& e.joiner_secret@.len() == HASH_LEN
    &&& e.welcome_secret@.len() == HASH_LEN
    &&& e.init_secret@.len() == HASH_LEN
    &&& e.sender_data_secret@.len() == HASH_LEN
    &&& e.encryption_secret@.len() == HASH_LEN
    &&& e.exporter_secret@.len() == HASH_LEN
    &&& e.authentication_secret@.len() == HASH_LEN
    &&& e.external_secret@.len() == HASH_LEN
    &&& e.confirmation_key@.len() == HASH_LEN
    &&& e.membership_key@.len() == HASH_LEN
    &&& e.resumption_secret@.len() == HASH_LEN
}

/// The drawn pre-shared keys of epoch `epoch`: at most fifteen branch keys at
/// that epoch, each with a hash-length secret.
pub open spec fn drawn_psks(psks: Seq<PskValue>, epoch: u64) -> bool {
    &&& psks.len() <= 15
    &&& forall|i: int|
        0 <= i < psks.len() ==> (#[trigger] psks[i]).psk@.len() == HASH_LEN && is_branch_psk_id(psks[i].psk_id@, epoch)
}

/// A generated epoch number `epoch`: hash-length drawn inputs, drawn
/// pre-shared keys and hash-length outputs.
pub open spec fn generated_epoch(e: Epoch, epoch: u64) -> bool {
    &&& e.tree_hash@.len() == HASH_LEN
    &&& e.commit_secret@.len() == HASH_LEN
    &&& e.confirmed_transcript_hash@.len() == HASH_LEN
    &&& drawn_psks(e.psks@, epoch)
    &&& outputs_hash_length(e)
}

/// Every epoch's pre-shared keys fit their encoding.
pub open spec fn vector_fits(tv: KeyScheduleTestVector) -> bool {
    forall|i: int| 0 <= i < tv.epochs@.len() ==> psks_fit((#[trigger] tv.epochs@[i]).psks@)
}

/// Every epoch of the vector reproduces.
pub open spec fn vector_reproduces(tv: KeyScheduleTestVector) -> bool {
    forall|i: nat| i < tv.epochs@.len() ==> (#[trigger] vector_epoch_error(tv, i)) is None
}

/// Whether two byte strings are equal.
pub fn bytes_eq(a: &[u8], b: &[u8]) -> (r: bool)
    ensures
        r == (a@ == b@),
{
    if a.len() != b.len() {
        return false;
    }
    let mut i: usize = 0;
    while i < a.len()
        invariant
            a@.len() == b@.len(),
            i <= a@.len(),
            forall|j: int| 0 <= j < i ==> a@[j] == b@[j],
        decreases a@.len() - i,
    {
        if a[i] != b[i] {
            return false;
        }
        i = i + 1;
    }
    assert(a@ =~= b@);
    true
}

/// What the inputs of one epoch derive.
pub struct EpochDerivation {
    pub joiner_secret: Vec<u8>,
    pub welcome_secret: Vec<u8>,
    pub group_context: Vec<u8>,
    pub secrets: EpochSecrets,
    pub external_pub: Vec<u8>,
}

impl EpochDerivation {
    /// The derived outputs as values.
    pub open spec fn outputs(&self) -> EpochOutputs {
        EpochOutputs {
            joiner_secret: self.joiner_secret@,
            welcome_secret: self.welcome_secret@,
            group_context: Some(self.group_context@),
            init_secret: match self.secrets.init_secret {
                Some(v) => v@,
                None => Seq::empty(),
            },
            sender_data_secret: self.secrets.sender_data_secret@,
            encryption_secret: self.secrets.encryption_secret@,
            exporter_secret: self.secrets.exporter_secret@,
            authentication_secret: self.secrets.authentication_secret@,
            external_secret: self.secrets.external_secret@,
            confirmation_key: self.secrets.confirmation_key@,
            membership_key: self.secrets.membership_key@,
            resumption_secret: self.secrets.resumption_secret@,
            external_pub: self.external_pub@,
        }
    }
}

/// Runs one epoch of the key schedule from the init secret that enters it.
/// Fails only when the group context cannot be encoded.
pub fn derive_epoch(
    init_secret: &[u8],
    group_id: &[u8],
    index: u64,
    tree_hash: &[u8],
    commit_secret: &[u8],
    psks: &Vec<PskValue>,
    confirmed_transcript_hash: &[u8],
) -> (r: Option<EpochDerivation>)
    requires
        psks_fit(psks@),
    ensures
        r is Some <==> group_context_fits(group_id@, tree_hash@, confirmed_transcript_hash@),
        r is Some ==> r->Some_0.outputs() == derived_outputs(
            init_secret@,
            group_id@,
            index as nat,
            commit_secret@,
            psks@,
            tree_hash@,
            confirmed_transcript_hash@,
        ),
        r is Some ==> r->Some_0.secrets.init_secret is Some,
        r is Some ==> r->Some_0.secrets.hash_length(),
        r is Some ==> r->Some_0.joiner_secret@.len() == HASH_LEN && r->Some_0.welcome_secret@.len() == HASH_LEN,
{
    reveal(derived_outputs);
    let context = match GroupContext::new(group_id, index, tree_hash, confirmed_transcript_hash) {
        Some(c) => c,
        None => return None,
    };
    let psk = psk_secret(psks);
    let joiner = joiner_secret(commit_secret, init_secret);
    let mut schedule = KeySchedule::init(joiner.as_slice(), Some(psk.as_slice()));
    let welcome = match schedule.welcome() {
        Ok(w) => w,
        Err(_) => return None,
    };
    let encoded = context.serialize();
    match schedule.add_context(&context) {
        Ok(()) => {},
        Err(_) => return None,
    }
    let secrets = match schedule.epoch_secrets(true) {
        Ok(s) => s,
        Err(_) => return None,
    };
    let public = derive_x25519_public(secrets.external_secret.as_slice());
    let mut external_pub: Vec<u8> = Vec::new();
    append_opaque_u16(&mut external_pub, public.as_slice());
    Some(EpochDerivation { joiner_secret: joiner, welcome_secret: welcome, group_context: encoded, secrets, external_pub })
}

/// The first recorded output of `e` that differs from the derived one.
pub fn first_mismatch(e: &Epoch, d: &EpochDerivation) -> (r: Option<KsTestVectorError>)
    ensures
        r == outputs_error(*e, d.outputs()),
{
    reveal(outputs_error);
    let s = &d.secrets;
    let empty: Vec<u8> = Vec::new();
    let next = match &s.init_secret {
        Some(v) => v.as_slice(),
        None => empty.as_slice(),
    };
    if !bytes_eq(e.group_context.as_slice(), d.group_context.as_slice()) {
        Some(KsTestVectorError::GroupContextMismatch)
    } else if !bytes_eq(e.joiner_secret.as_slice(), d.joiner_secret.as_slice()) {
        Some(KsTestVectorError::JoinerSecretMismatch)
    } else if !bytes_eq(e.welcome_secret.as_slice(), d.welcome_secret.as_slice()) {
        Some(KsTestVectorError::WelcomeSecretMismatch)
    } else if !bytes_eq(e.init_secret.as_slice(), next) {
        Some(KsTestVectorError::InitSecretMismatch)
    } else if !bytes_eq(e.sender_data_secret.as_slice(), s.sender_data_secret.as_slice()) {
        Some(KsTestVectorError::SenderDataSecretMismatch)
    } else if !bytes_eq(e.encryption_secret.as_slice(), s.encryption_secret.as_slice()) {
        Some(KsTestVectorError::EncryptionSecretMismatch)
    } else if !bytes_eq(e.exporter_secret.as_slice(), s.exporter_secret.as_slice()) {
        Some(KsTestVectorError::ExporterSecretMismatch)
    } else if !bytes_eq(e.authentication_secret.as_slice(), s.authentication_secret.as_slice()) {
        Some(KsTestVectorError::AuthenticationSecretMismatch)
    } else if !bytes_eq(e.external_secret.as_slice(), s.external_secret.as_slice()) {
        Some(KsTestVectorError::ExternalSecretMismatch)
    } else if !bytes_eq(e.confirmation_key.as_slice(), s.confirmation_key.as_slice()) {
        Some(KsTestVectorError::ConfirmationKeyMismatch)
    } else if !bytes_eq(e.membership_key.as_slice(), s.membership_key.as_slice()) {
        Some(KsTestVectorError::MembershipKeyMismatch)
    } else if !bytes_eq(e.resumption_secret.as_slice(), s.resumption_secret.as_slice()) {
        Some(KsTestVectorError::ResumptionSecretMismatch)
    } else if !bytes_eq(e.external_pub.as_slice(), d.external_pub.as_slice()) {
        Some(KsTestVectorError::ExternalPubMismatch)
    } else {
        None
    }
}

/// Checks one epoch, number `index`, against what it derives from the init
/// secret that enters it; hands back the init secret it derives.
pub fn check_epoch(init_secret: &[u8], group_id: &[u8], index: u64, e: &Epoch) -> (r: (Option<KsTestVectorError>, Vec<u8>))
    requires
        psks_fit(e.psks@),
    ensures
        r.0 == epoch_error(init_secret@, group_id@, index as nat, *e),
        r.0 is None ==> r.1@ == epoch_outputs(init_secret@, group_id@, index as nat, *e).init_secret,
{
    let derived = derive_epoch(
        init_secret,
        group_id,
        index,
        e.tree_hash.as_slice(),
        e.commit_secret.as_slice(),
        &e.psks,
        e.confirmed_transcript_hash.as_slice(),
    );
    match derived {
        None => {
            proof {
                reveal(derived_outputs);
                reveal(outputs_error);
            }
            (Some(KsTestVectorError::GroupContextMismatch), Vec::new())
        },
        Some(d) => {
            let err = first_mismatch(e, &d);
            let next = match d.secrets.init_secret {
                Some(v) => v,
                None => Vec::new(),
            };
            (err, next)
        },
    }
}

/// Replays a vector: derives each epoch from its recorded inputs and the
/// init secret that the epoch before it derived, and compares every recorded
/// output. A vector of a suite this library does not run is skipped.
pub fn run_test_vector(test_vector: KeyScheduleTestVector) -> (r: Result<(), KsTestVectorError>)
    requires
        vector_fits(test_vector),
    ensures
        suite_of(test_vector.cipher_suite) is None ==> r is Ok,
        suite_of(test_vector.cipher_suite) is Some ==> (r is Ok <==> vector_reproduces(test_vector)),
        r is Err ==> exists|i: nat|
            i < test_vector.epochs@.len() && (forall|j: nat| j < i ==> (#[trigger] vector_epoch_error(test_vector, j)) is None)
                && #[trigger] vector_epoch_error(test_vector, i) == Some(r->Err_0),
{
    let tv = &test_vector;
    match Ciphersuite::from_id(tv.cipher_suite) {
        Some(_) => {},
        None => return Ok(()),
    }
    let group_id = tv.group_id.as_slice();
    let mut init = copy_bytes(tv.initial_init_secret.as_slice());
    let n = tv.epochs.len();
    let mut i: usize = 0;
    while i < n
        invariant
            tv == &test_vector,
            suite_of(tv.cipher_suite) is Some,
            n == tv.epochs@.len(),
            vector_fits(*tv),
            group_id@ == tv.group_id@,
            i <= n,
            init@ == init_before(tv.initial_init_secret@, tv.group_id@, tv.epochs@, i as nat),
            forall|j: nat| j < i ==> (#[trigger] vector_epoch_error(*tv, j)) is None,
        decreases n - i,
    {
        assert(psks_fit(tv.epochs@[i as int].psks@));
        let (err, next) = check_epoch(init.as_slice(), group_id, i as u64, &tv.epochs[i]);
        init = next;
        assert(err == vector_epoch_error(*tv, i as nat));
        match err {
            Some(x) => {
                assert(*tv == test_vector);
                assert(vector_epoch_error(test_vector, i as nat) == Some(x));
                assert(!vector_reproduces(test_vector));
                return Err(x);
            },
            None => {},
        }
        i = i + 1;
    }
    Ok(())
}

/// The chain up to epoch `i` does not depend on the epochs after it.
pub proof fn lemma_init_before_push(init: Seq<u8>, group_id: Seq<u8>, epochs: Seq<Epoch>, e: Epoch, i: nat)
    requires
        i <= epochs.len(),
    ensures
        init_before(init, group_id, epochs.push(e), i) == init_before(init, group_id, epochs, i),
    decreases i,
{
    if i > 0 {
        lemma_init_before_push(init, group_id, epochs, e, (i - 1) as nat);
        assert(epochs.push(e)[i - 1] == epochs[i - 1]);
    }
}

/// Records one epoch: the chosen inputs and everything they derive from the
/// init secret that enters the epoch. Fails only when the group context
/// cannot be encoded.
pub fn generate(
    init_secret: &[u8],
    group_id: &[u8],
    epoch: u64,
    tree_hash: Vec<u8>,
    commit_secret: Vec<u8>,
    psks: Vec<PskValue>,
    confirmed_transcript_hash: Vec<u8>,
) -> (r: Option<Epoch>)
    requires
        psks_fit(psks@),
    ensures
        r is Some <==> group_context_fits(group_id@, tree_hash@, confirmed_transcript_hash@),
        r is Some ==> ({
            let e = r->Some_0;
            &&& e.tree_hash@ == tree_hash@
            &&& e.commit_secret@ == commit_secret@
            &&& e.psks@ == psks@
            &&& e.confirmed_transcript_hash@ == confirmed_transcript_hash@
            &&& epoch_error(init_secret@, group_id@, epoch as nat, e) is None
            &&& outputs_hash_length(e)
        }),
{
    let d = match derive_epoch(
        init_secret,
        group_id,
        epoch,
        tree_hash.as_slice(),
        commit_secret.as_slice(),
        &psks,
        confirmed_transcript_hash.as_slice(),
    ) {
        Some(d) => d,
        None => return None,
    };
    let init_secret = match d.secrets.init_secret {
        Some(v) => v,
        None => Vec::new(),
    };
    let e = Epoch {
        tree_hash,
        commit_secret,
        psks,
        confirmed_transcript_hash,
        group_context: d.group_context,
        joiner_secret: d.joiner_secret,
        welcome_secret: d.welcome_secret,
        init_secret,
        sender_data_secret: d.secrets.sender_data_secret,
        encryption_secret: d.secrets.encryption_secret,
        exporter_secret: d.secrets.exporter_secret,
        authentication_secret: d.secrets.authentication_secret,
        external_secret: d.secrets.external_secret,
        confirmation_key: d.secrets.confirmation_key,
        membership_key: d.secrets.membership_key,
        resumption_secret: d.secrets.resumption_secret,
        external_pub: d.external_pub,
    };
    proof {
        reveal(outputs_error);
    }
    Some(e)
}

/// Draws the pre-shared keys of one epoch: up to fifteen branch keys of
/// random groups, each with a random nonce and secret.
pub fn random_psks(epoch: u64) -> (r: Option<Vec<PskValue>>)
    ensures
        r is Some,
        r is Some ==> psks_fit(r->Some_0@),
        r is Some ==> drawn_psks(r->Some_0@, epoch),
{
    let count = os_random_u32() % 16;
    let mut psks: Vec<PskValue> = Vec::new();
    let mut k: u32 = 0;
    while k < count
        invariant
            count < 16,
            k <= count,
            psks@.len() == k,
            psks_fit(psks@),
            drawn_psks(psks@, epoch),
        decreases count - k,
    {
        let psk_group_id = match random_vec(16) {
            Ok(v) => v,
            Err(_) => return None,
        };
        let psk_nonce = match random_vec(13) {
            Ok(v) => v,
            Err(_) => return None,
        };
        let ghost g = psk_group_id@;
        let ghost nonce = psk_nonce@;
        let id = PreSharedKeyId { psk: Psk::Branch { psk_group_id, psk_epoch: epoch }, psk_nonce };
        let psk = match random_vec(32) {
            Ok(v) => v,
            Err(_) => return None,
        };
        let psk_id = id.serialize();
        assert(psk_id@ == branch_psk_id_bytes(g, epoch, nonce));
        assert(is_branch_psk_id(psk_id@, epoch));
        psks.push(PskValue { psk_id, psk });
        assert(psks@[k as int].psk_id@ == psk_id@);
        k = k + 1;
    }
    Some(psks)
}

/// Makes a vector of `n_epochs` epochs of a fresh group under `ciphersuite`,
/// from random inputs. Replaying what it makes reproduces every epoch.
/// Fails only when the source of randomness fails.
pub fn generate_test_vector(n_epochs: u64, ciphersuite: Ciphersuite) -> (r: Option<KeyScheduleTestVector>)
    ensures
        r is Some,
        r is Some ==> ({
            let tv = r->Some_0;
            &&& tv.cipher_suite == suite_id(ciphersuite)
            &&& tv.group_id@.len() == 16
            &&& tv.initial_init_secret@.len() == HASH_LEN
            &&& forall|i: int| 0 <= i < tv.epochs@.len() ==> generated_epoch(#[trigger] tv.epochs@[i], i as u64)
            &&& tv.epochs@.len() == n_epochs
            &&& vector_fits(tv)
            &&& vector_reproduces(tv)
        }),
{
    let initial_init_secret = match random_vec(HASH_LEN) {
        Ok(v) => v,
        Err(_) => return None,
    };
    let group_id = match random_vec(16) {
        Ok(v) => v,
        Err(_) => return None,
    };
    let mut init_secret = copy_bytes(initial_init_secret.as_slice());
    let mut epochs: Vec<Epoch> = Vec::new();
    let mut k: u64 = 0;
    while k < n_epochs
        invariant
            k <= n_epochs,
            epochs@.len() == k,
            group_id@.len() == 16,
            initial_init_secret@.len() == HASH_LEN,
            forall|i: int| 0 <= i < epochs@.len() ==> generated_epoch(#[trigger] epochs@[i], i as u64),
            init_secret@ == init_before(initial_init_secret@, group_id@, epochs@, k as nat),
            forall|i: int| 0 <= i < epochs@.len() ==> psks_fit((#[trigger] epochs@[i]).psks@),
            forall|j: nat| j < k ==> (#[trigger] epoch_error(
                init_before(initial_init_secret@, group_id@, epochs@, j),
                group_id@,
                j,
                epochs@[j as int],
            )) is None,
        decreases n_epochs - k,
    {
        let tree_hash = match random_vec(HASH_LEN) {
            Ok(v) => v,
            Err(_) => return None,
        };
        let commit_secret = match random_vec(HASH_LEN) {
            Ok(v) => v,
            Err(_) => return None,
        };
        let psks = match random_psks(k) {
            Some(p) => p,
            None => return None,
        };
        let confirmed_transcript_hash = match random_vec(HASH_LEN) {
            Ok(v) => v,
            Err(_) => return None,
        };
        let e = match generate(
            init_secret.as_slice(),
            group_id.as_slice(),
            k,
            tree_hash,
            commit_secret,
            psks,
            confirmed_transcript_hash,
        ) {
            Some(e) => e,
            None => return None,
        };
        let ghost old_epochs = epochs@;
        let ghost old_init = init_before(initial_init_secret@, group_id@, old_epochs, k as nat);
        assert(old_init == init_secret@);
        init_secret = copy_bytes(e.init_secret.as_slice());
        proof {
            reveal(outputs_error);
            assert forall|j: nat| j <= k implies init_before(initial_init_secret@, group_id@, old_epochs.push(e), j)
                == init_before(initial_init_secret@, group_id@, old_epochs, j) by {
                lemma_init_before_push(initial_init_secret@, group_id@, old_epochs, e, j);
            }
        }
        let ghost new_epoch = e;
        epochs.push(e);
        proof {
            assert forall|i: int| 0 <= i < epochs@.len() implies generated_epoch(#[trigger] epochs@[i], i as u64) by {
                if i < k {
                    assert(epochs@[i] == old_epochs[i]);
                } else {
                    assert(epochs@[i] == new_epoch);
                }
            }
            assert forall|j: nat| j < k + 1 implies (#[trigger] epoch_error(
                init_before(initial_init_secret@, group_id@, epochs@, j),
                group_id@,
                j,
                epochs@[j as int],
            )) is None by {
                assert(epochs@ == old_epochs.push(e));
                if j < k {
                    assert(epochs@[j as int] == old_epochs[j as int]);
                    assert(init_before(initial_init_secret@, group_id@, epochs@, j) == init_before(
                        initial_init_secret@,
                        group_id@,
                        old_epochs,
                        j,
                    ));
                    assert(epoch_error(
                        init_before(initial_init_secret@, group_id@, old_epochs, j),
                        group_id@,
                        j,
                        old_epochs[j as int],
                    ) is None);
                } else {
                    assert(epochs@[j as int] == e);
                    assert(init_before(initial_init_secret@, group_id@, epochs@, j) == old_init);
                    assert(epoch_error(old_init, group_id@, k as nat, e) is None);
                }
            }
        }
        k = k + 1;
    }
    let tv = KeyScheduleTestVector {
        cipher_suite: ciphersuite.id(),
        group_id,
        initial_init_secret,
        epochs,
    };
    assert(forall|i: nat| i < tv.epochs@.len() ==> (#[trigger] vector_epoch_error(tv, i)) is None);
    Some(tv)
}

} // verus!
