use k256::ecdsa::signature::{Signer, Verifier};
use vstd::prelude::*;

verus! {

/// Whether k256 accepts `pk` as a SEC1-encoded secp256k1 public key.
pub uninterp spec fn secp256k1_key_ok(pk: Seq<u8>) -> bool;

/// Whether k256 accepts `sig` as a fixed-size secp256k1 ECDSA signature.
pub uninterp spec fn secp256k1_sig_ok(sig: Seq<u8>) -> bool;

/// Whether k256 finds `sig` a valid secp256k1 signature of `msg` by `pk`.
pub uninterp spec fn secp256k1_verifies(msg: Seq<u8>, sig: Seq<u8>, pk: Seq<u8>) -> bool;

/// Whether k256 accepts `sk` as a secp256k1 secret scalar.
pub uninterp spec fn secp256k1_secret_ok(sk: Seq<u8>) -> bool;

/// The deterministic secp256k1 signature k256 makes of `msg` with `sk`.
pub uninterp spec fn secp256k1_signature_of(msg: Seq<u8>, sk: Seq<u8>) -> Seq<u8>;

/// Whether k256 recovers a public key from the prehashed message `hash`, the
/// signature `sig` and the recovery id `recovery`.
pub uninterp spec fn secp256k1_recovery_ok(hash: Seq<u8>, sig: Seq<u8>, recovery: u8) -> bool;

/// The public key k256 recovers, as uncompressed SEC1 bytes.
pub uninterp spec fn secp256k1_recovered_key(hash: Seq<u8>, sig: Seq<u8>, recovery: u8) -> Seq<u8>;

/// Whether ed25519-dalek accepts `pk` as a compressed Edwards point.
pub uninterp spec fn ed25519_key_ok(pk: Seq<u8>) -> bool;

/// Whether ed25519-dalek finds `sig` a valid signature of `msg` by `pk`.
pub uninterp spec fn ed25519_verifies(msg: Seq<u8>, sig: Seq<u8>, pk: Seq<u8>) -> bool;

/// The ed25519 signature ed25519-dalek makes of `msg` with secret key `sk`.
pub uninterp spec fn ed25519_signature_of(msg: Seq<u8>, sk: Seq<u8>) -> Seq<u8>;

/// The ed25519 public key ed25519-dalek derives from secret key `sk`.
pub uninterp spec fn ed25519_public_of(sk: Seq<u8>) -> Seq<u8>;

/// Relies on k256's `VerifyingKey::from_sec1_bytes`: whether it parses `pk`.
#[verifier::external_body]
fn sec1_key_parses(pk: &[u8]) -> (r: bool)
    ensures
        r == secp256k1_key_ok(pk@),
{
    k256::ecdsa::VerifyingKey::from_sec1_bytes(pk).is_ok()
}

/// Relies on k256's `Signature::from_slice`: whether it parses `sig`.
#[verifier::external_body]
fn ecdsa_signature_parses(sig: &[u8]) -> (r: bool)
    ensures
        r == secp256k1_sig_ok(sig@),
{
    k256::ecdsa::Signature::from_slice(sig).is_ok()
}

/// Relies on k256's `Verifier::verify` for secp256k1 ECDSA, on a key and a
/// signature already known to parse.
#[verifier::external_body]
fn ecdsa_verify(msg: &[u8], sig: &[u8], pk: &[u8]) -> (r: bool)
    requires
        secp256k1_key_ok(pk@),
        secp256k1_sig_ok(sig@),
    ensures
        r == secp256k1_verifies(msg@, sig@, pk@),
{
    let key = k256::ecdsa::VerifyingKey::from_sec1_bytes(pk).unwrap();
    let signature = k256::ecdsa::Signature::from_slice(sig).unwrap();
    key.verify(msg, &signature).is_ok()
}

/// Relies on k256's `VerifyingKey::recover_from_prehash`, on a signature
/// known to parse and a recovery id of at most 3; the key comes back as
/// uncompressed SEC1 bytes.
#[verifier::external_body]
fn ecdsa_recover(hash: &[u8], sig: &[u8], recovery: u8) -> (r: Option<Vec<u8>>)
    requires
        secp256k1_sig_ok(sig@),
        recovery <= 3,
    ensures
        r is Some == secp256k1_recovery_ok(hash@, sig@, recovery),
        r is Some ==> r.unwrap()@ == secp256k1_recovered_key(hash@, sig@, recovery),
{
    let signature = k256::ecdsa::Signature::from_slice(sig).unwrap();
    let id = k256::ecdsa::RecoveryId::from_byte(recovery).unwrap();
    match k256::ecdsa::VerifyingKey::recover_from_prehash(hash, &signature, id) {
        Ok(key) => Some(key.to_encoded_point(false).as_bytes().to_vec()),
        Err(_) => None,
    }
}

/// Relies on k256's `SigningKey::from_slice`: whether it accepts `sk`.
#[verifier::external_body]
fn secp256k1_secret_parses(sk: &[u8]) -> (r: bool)
    ensures
        r == secp256k1_secret_ok(sk@),
{
    k256::ecdsa::SigningKey::from_slice(sk).is_ok()
}

/// Relies on k256's `Signer::try_sign` (RFC 6979 deterministic ECDSA): the
/// 64-byte `r || s` signature, or `None` where signing fails.
#[verifier::external_body]
fn ecdsa_sign(msg: &[u8], sk: &[u8]) -> (r: Option<Vec<u8>>)
    requires
        secp256k1_secret_ok(sk@),
    ensures
        r.is_some() ==> r.unwrap()@ == secp256k1_signature_of(msg@, sk@),
{
    let key = k256::ecdsa::SigningKey::from_slice(sk).unwrap();
    let signed: Result<k256::ecdsa::Signature, _> = key.try_sign(msg);
    match signed {
        Ok(s) => Some(s.to_vec()),
        Err(_) => None,
    }
}

/// Relies on ed25519-dalek's `VerifyingKey::from_bytes`: whether it accepts
/// the 32 bytes of `pk`.
#[verifier::external_body]
fn ed25519_key_parses(pk: &[u8; 32]) -> (r: bool)
    ensures
        r == ed25519_key_ok(pk@),
{
    ed25519_dalek::VerifyingKey::from_bytes(pk).is_ok()
}

/// Relies on ed25519-dalek's `Verifier::verify`, on a key known to parse.
#[verifier::external_body]
fn ed25519_check(msg: &[u8], sig: &[u8; 64], pk: &[u8; 32]) -> (r: bool)
    requires
        ed25519_key_ok(pk@),
    ensures
        r == ed25519_verifies(msg@, sig@, pk@),
{
    let key = ed25519_dalek::VerifyingKey::from_bytes(pk).unwrap();
    let signature = ed25519_dalek::Signature::from_bytes(sig);
    key.verify(msg, &signature).is_ok()
}

/// Relies on ed25519-dalek's `Signer::sign` with `SigningKey::from_bytes`.
#[verifier::external_body]
fn ed25519_sign_bytes(msg: &[u8], sk: &[u8; 32]) -> (r: Vec<u8>)
    ensures
        r@ == ed25519_signature_of(msg@, sk@),
{
    let key = ed25519_dalek::SigningKey::from_bytes(sk);
    key.sign(msg).to_vec()
}

/// Relies on ed25519-dalek's `SigningKey::generate` over the operating
/// system's generator and `SigningKey::verifying_key`: a fresh secret key
/// and the public key derived from it, 32 bytes each.
#[verifier::external_body]
fn ed25519_fresh_keypair() -> (r: (Vec<u8>, Vec<u8>))
    ensures
        r.0@.len() == 32,
        r.1@.len() == 32,
        r.1@ == ed25519_public_of(r.0@),
{
    let signing_key = ed25519_dalek::SigningKey::generate(&mut rand::rngs::OsRng);
    let verifying_key = signing_key.verifying_key();
    (signing_key.to_bytes().to_vec(), verifying_key.to_bytes().to_vec())
}

/// Why a signature operation could not even be attempted.
#[derive(Debug, Clone, PartialEq, Eq)]
pub enum CryptoError {
    InvalidKey,
    InvalidSignature,
    InternalError(String),
}

/// What secp256k1 verification reports: a signature that is not 64 bytes,
/// a key that is neither 33 nor 65 bytes or does not parse, or a signature
/// that does not parse, are errors; otherwise whether it verifies.
pub open spec fn secp256k1_outcome(message: Seq<u8>, signature: Seq<u8>, public_key: Seq<u8>) -> Result<
    bool,
    CryptoError,
> {
    if signature.len() != 64 {
        Err(CryptoError::InvalidSignature)
    } else if public_key.len() != 33 && public_key.len() != 65 {
        Err(CryptoError::InvalidKey)
    } else if !secp256k1_key_ok(public_key) {
        Err(CryptoError::InvalidKey)
    } else if !secp256k1_sig_ok(signature) {
        Err(CryptoError::InvalidSignature)
    } else {
        Ok(secp256k1_verifies(message, signature, public_key))
    }
}

/// What public-key recovery reports: a signature that is not 64 bytes or
/// does not parse, a recovery id over 3, or a key that cannot be recovered
/// are `InvalidSignature`; otherwise the recovered key.
pub open spec fn recover_outcome(hash: Seq<u8>, signature: Seq<u8>, recovery: u8) -> Result<
    Seq<u8>,
    CryptoError,
> {
    if signature.len() != 64 || !secp256k1_sig_ok(signature) || recovery > 3
        || !secp256k1_recovery_ok(hash, signature, recovery) {
        Err(CryptoError::InvalidSignature)
    } else {
        Ok(secp256k1_recovered_key(hash, signature, recovery))
    }
}

/// What ed25519 verification reports: a key that is not 32 bytes or does
/// not parse, or a signature that is not 64 bytes, are errors; otherwise
/// whether it verifies.
pub open spec fn ed25519_outcome(message: Seq<u8>, signature: Seq<u8>, public_key: Seq<u8>) -> Result<
    bool,
    CryptoError,
> {
    if public_key.len() != 32 {
        Err(CryptoError::InvalidKey)
    } else if !ed25519_key_ok(public_key) {
        Err(CryptoError::InvalidKey)
    } else if signature.len() != 64 {
        Err(CryptoError::InvalidSignature)
    } else {
        Ok(ed25519_verifies(message, signature, public_key))
    }
}

/// The byte contents of a list of buffers.
pub open spec fn views(v: Seq<Vec<u8>>) -> Seq<Seq<u8>> {
    v.map_values(|b: Vec<u8>| b@)
}

/// Outcome of checking the first `n` signatures of a batch: the first error
/// met, or whether all of them verify.
pub open spec fn batch_prefix(ms: Seq<Seq<u8>>, ss: Seq<Seq<u8>>, ks: Seq<Seq<u8>>, n: int) -> Result<
    bool,
    CryptoError,
>
    decreases n,
{
    if n <= 0 {
        Ok(true)
    } else {
        match batch_prefix(ms, ss, ks, n - 1) {
            Err(e) => Err(e),
            Ok(all) => match ed25519_outcome(ms[n - 1], ss[n - 1], ks[n - 1]) {
                Err(e) => Err(e),
                Ok(valid) => Ok(all && valid),
            },
        }
    }
}

proof fn lemma_batch_error_sticks(ms: Seq<Seq<u8>>, ss: Seq<Seq<u8>>, ks: Seq<Seq<u8>>, k: int, m: int)
    requires
        0 <= k <= m,
        batch_prefix(ms, ss, ks, k) is Err,
    ensures
        batch_prefix(ms, ss, ks, m) == batch_prefix(ms, ss, ks, k),
    decreases m - k,
{
    if m > k {
        lemma_batch_error_sticks(ms, ss, ks, k, m - 1);
    }
}

/// What batch verification reports: lists of different lengths are
/// `InvalidSignature`; otherwise the outcome over the whole batch.
pub open spec fn batch_outcome(ms: Seq<Seq<u8>>, ss: Seq<Seq<u8>>, ks: Seq<Seq<u8>>) -> Result<
    bool,
    CryptoError,
> {
    if ms.len() != ss.len() || ms.len() != ks.len() {
        Err(CryptoError::InvalidSignature)
    } else {
        batch_prefix(ms, ss, ks, ms.len() as int)
    }
}

/// Signing and verification over secp256k1 and ed25519, keeping "the
/// signature is invalid" (`Ok(false)`) apart from "the input could not be
/// parsed" (`Err`).
#[derive(Default, Clone, Copy, Debug)]
pub struct CryptoApi;

fn to_array32(b: &[u8]) -> (r: [u8; 32])
    requires
        b@.len() == 32,
    ensures
        r@ == b@,
{
    let mut a = [0u8; 32];
    let mut i: usize = 0;
    while i < 32
        invariant
            i <= 32,
            b@.len() == 32,
            forall|j: int| 0 <= j < i ==> a@[j] == b@[j],
        decreases 32 - i,
    {
        a[i] = b[i];
        i = i + 1;
    }
    assert(a@ =~= b@);
    a
}

fn to_array64(b: &[u8]) -> (r: [u8; 64])
    requires
        b@.len() == 64,
    ensures
        r@ == b@,
{
    let mut a = [0u8; 64];
    let mut i: usize = 0;
    while i < 64
        invariant
            i <= 64,
            b@.len() == 64,
            forall|j: int| 0 <= j < i ==> a@[j] == b@[j],
        decreases 64 - i,
    {
        a[i] = b[i];
        i = i + 1;
    }
    assert(a@ =~= b@);
    a
}

impl CryptoApi {
    pub fn new() -> Self {
        CryptoApi
    }

    /// Signs `message` with a 32-byte secp256k1 secret key.
    pub fn secp256k1_sign(&self, message: &[u8], secret_key: &[u8]) -> (r: Result<Vec<u8>, CryptoError>)
        ensures
            secret_key@.len() != 32 ==> r == Err::<Vec<u8>, CryptoError>(CryptoError::InvalidKey),
            secret_key@.len() == 32 && !secp256k1_secret_ok(secret_key@) ==> r == Err::<
                Vec<u8>,
                CryptoError,
            >(CryptoError::InvalidKey),
            r.is_ok() ==> r.unwrap()@ == secp256k1_signature_of(message@, secret_key@),
            r.is_err() ==> r.unwrap_err() is InvalidKey || r.unwrap_err() is InternalError,
    {
        if secret_key.len() != 32 {
            return Err(CryptoError::InvalidKey);
        }
        if !secp256k1_secret_parses(secret_key) {
            return Err(CryptoError::InvalidKey);
        }
        match ecdsa_sign(message, secret_key) {
            Some(sig) => Ok(sig),
            None => Err(CryptoError::InternalError("signing failed".to_owned())),
        }
    }

    /// Verifies a 64-byte secp256k1 signature against a 33- or 65-byte SEC1
    /// public key.
    pub fn secp256k1_verify(&self, message: &[u8], signature: &[u8], public_key: &[u8]) -> (r: Result<
        bool,
        CryptoError,
    >)
        ensures
            r == secp256k1_outcome(message@, signature@, public_key@),
    {
        if signature.len() != 64 {
            return Err(CryptoError::InvalidSignature);
        }
        if public_key.len() != 33 && public_key.len() != 65 {
            return Err(CryptoError::InvalidKey);
        }
        if !sec1_key_parses(public_key) {
            return Err(CryptoError::InvalidKey);
        }
        if !ecdsa_signature_parses(signature) {
            return Err(CryptoError::InvalidSignature);
        }
        Ok(ecdsa_verify(message, signature, public_key))
    }

    /// Recovers the secp256k1 public key that made `signature` over the
    /// prehashed message `message_hash`.
    pub fn secp256k1_recover_pubkey(&self, message_hash: &[u8], signature: &[u8], recovery_param: u8) -> (r:
        Result<Vec<u8>, CryptoError>)
        ensures
            r.is_ok() <==> recover_outcome(message_hash@, signature@, recovery_param) is Ok,
            r.is_ok() ==> r.unwrap()@ == recover_outcome(message_hash@, signature@, recovery_param).unwrap(),
            r.is_err() ==> r.unwrap_err() is InvalidSignature,
    {
        if signature.len() != 64 || !ecdsa_signature_parses(signature) || recovery_param > 3 {
            return Err(CryptoError::InvalidSignature);
        }
        match ecdsa_recover(message_hash, signature, recovery_param) {
            Some(key) => Ok(key),
            None => Err(CryptoError::InvalidSignature),
        }
    }

    /// A fresh ed25519 key pair: secret key, then public key.
    pub fn ed25519_generate_key(&self) -> (r: Result<(Vec<u8>, Vec<u8>), CryptoError>)
        ensures
            r.is_ok(),
            r.unwrap().0@.len() == 32,
            r.unwrap().1@.len() == 32,
            r.unwrap().1@ == ed25519_public_of(r.unwrap().0@),
    {
        Ok(ed25519_fresh_keypair())
    }

    /// Signs `message` with a 32-byte ed25519 secret key.
    pub fn ed25519_sign(&self, message: &[u8], secret_key: &[u8]) -> (r: Result<Vec<u8>, CryptoError>)
        ensures
            r.is_ok() ==> secret_key@.len() == 32 && r.unwrap()@ == ed25519_signature_of(
                message@,
                secret_key@,
            ),
            r.is_err() ==> secret_key@.len() != 32 && r.unwrap_err() is InvalidKey,
    {
        if secret_key.len() != 32 {
            return Err(CryptoError::InvalidKey);
        }
        let sk = to_array32(secret_key);
        Ok(ed25519_sign_bytes(message, &sk))
    }

    /// Verifies a 64-byte ed25519 signature against a 32-byte public key.
    pub fn ed25519_verify(&self, message: &[u8], signature: &[u8], public_key: &[u8]) -> (r: Result<
        bool,
        CryptoError,
    >)
        ensures
            r == ed25519_outcome(message@, signature@, public_key@),
    {
        if public_key.len() != 32 {
            return Err(CryptoError::InvalidKey);
        }
        let pk = to_array32(public_key);
        if !ed25519_key_parses(&pk) {
            return Err(CryptoError::InvalidKey);
        }
        if signature.len() != 64 {
            return Err(CryptoError::InvalidSignature);
        }
        let sig = to_array64(signature);
        Ok(ed25519_check(message, &sig, &pk))
    }

    /// Verifies a batch of ed25519 signatures, message `k` against
    /// signature `k` and key `k`: whether all of them verify, or the first
    /// error met.
    pub fn ed25519_batch_verify(
        &self,
        messages: &Vec<Vec<u8>>,
        signatures: &Vec<Vec<u8>>,
        public_keys: &Vec<Vec<u8>>,
    ) -> (r: Result<bool, CryptoError>)
        ensures
            r == batch_outcome(views(messages@), views(signatures@), views(public_keys@)),
    {
        let ghost ms = views(messages@);
        let ghost ss = views(signatures@);
        let ghost ks = views(public_keys@);
        if messages.len() != signatures.len() || messages.len() != public_keys.len() {
            return Err(CryptoError::InvalidSignature);
        }
        let mut all = true;
        let mut i: usize = 0;
        while i < messages.len()
            invariant
                i <= messages@.len(),
                messages@.len() == signatures@.len(),
                messages@.len() == public_keys@.len(),
                ms == views(messages@),
                ss == views(signatures@),
                ks == views(public_keys@),
                batch_prefix(ms, ss, ks, i as int) == Ok::<bool, CryptoError>(all),
            decreases messages@.len() - i,
        {
            let outcome = self.ed25519_verify(
                messages[i].as_slice(),
                signatures[i].as_slice(),
                public_keys[i].as_slice(),
            );
            assert(ms[i as int] == messages@[i as int]@);
            assert(ss[i as int] == signatures@[i as int]@);
            assert(ks[i as int] == public_keys@[i as int]@);
            match outcome {
                Ok(valid) => {
                    all = all && valid;
                },
                Err(e) => {
                    proof {
                        lemma_batch_error_sticks(ms, ss, ks, i + 1, ms.len() as int);
                    }
                    return Err(e);
                },
            }
            i = i + 1;
        }
        Ok(all)
    }
}

} // verus!
