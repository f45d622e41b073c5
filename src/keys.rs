//! Long-term signing keypairs: generation, text forms and Ed25519 signatures.

use vstd::prelude::*;
use crate::bytes::{bytes_equal, slice_to_vec};
use crate::codec::{
    base64_shaped, base64_text, decode_private, decoded, encode_key, encoded, written_as,
    key_suffix, public_id, DecodeError,
};

verus! {

/// The Ed25519 public key of a 32-byte secret seed.
pub uninterp spec fn ed25519_public(seed: Seq<u8>) -> Seq<u8>;

/// The Ed25519 signature of `msg` under the keypair made of `seed` and `public`.
pub uninterp spec fn ed25519_signature(seed: Seq<u8>, public: Seq<u8>, msg: Seq<u8>) -> Seq<u8>;

/// Whether Ed25519 verification accepts `sig` as a signature of `msg` by `public`.
pub uninterp spec fn ed25519_accepts(public: Seq<u8>, sig: Seq<u8>, msg: Seq<u8>) -> bool;

/// Whether 32 bytes are the compressed form of a point of the curve.
pub uninterp spec fn ed25519_point_valid(public: Seq<u8>) -> bool;

/// A signing keypair: a 32-byte secret seed and the public key it yields.
#[derive(Clone, Debug, PartialEq, Eq)]
pub struct Keypair {
    /// The secret seed.
    pub secret: Vec<u8>,
    /// The public key.
    pub public: Vec<u8>,
}

impl Keypair {
    /// The secret is a seed and the public key is the one it yields.
    pub open spec fn wf(&self) -> bool {
        &&& self.secret@.len() == 32
        &&& self.public@.len() == 32
        &&& self.public@ == ed25519_public(self.secret@)
    }

    /// The 64 bytes of the private key: the seed, then the public key.
    pub open spec fn private_bytes(&self) -> Seq<u8> {
        self.secret@ + self.public@
    }
}

/// Relies on `ssb_crypto::Keypair::generate`, which draws a seed from the operating
/// system and derives its public key.
#[verifier::external_body]
fn random_keypair() -> (r: Keypair)
    ensures
        r.wf(),
{
    let k = ssb_crypto::Keypair::generate();
    Keypair { secret: k.secret.0.to_vec(), public: k.public.0.to_vec() }
}

/// Relies on `ssb_crypto::Keypair::from_seed`: it accepts exactly the seeds of 32 bytes,
/// keeps the seed as the secret and derives the 32-byte public key from it.
#[verifier::external_body]
fn keypair_from_seed(seed: &[u8]) -> (r: Option<Keypair>)
    ensures
        r is Some <==> seed@.len() == 32,
        r matches Some(k) ==> k.wf() && k.secret@ == seed@,
{
    ssb_crypto::Keypair::from_seed(seed).map(
        |k| Keypair { secret: k.secret.0.to_vec(), public: k.public.0.to_vec() },
    )
}

/// Relies on `ssb_crypto::Keypair::sign`. The signature is 64 bytes, the last holding the
/// top of a reduced scalar, so its three high bits are clear. A keypair whose public key
/// is the one its seed yields never makes it panic.
#[verifier::external_body]
fn ed25519_sign(k: &Keypair, msg: &[u8]) -> (r: Vec<u8>)
    requires
        k.wf(),
    ensures
        r@ == ed25519_signature(k.secret@, k.public@, msg@),
        r@.len() == 64,
        r@[63] & 0xe0 == 0,
{
    let kp = ssb_crypto::Keypair {
        secret: ssb_crypto::SecretKey(k.secret.as_slice().try_into().unwrap()),
        public: ssb_crypto::PublicKey(k.public.as_slice().try_into().unwrap()),
    };
    kp.sign(msg).0.to_vec()
}

/// Relies on `ed25519_dalek::PublicKey::from_bytes`, which accepts 32 bytes that
/// decompress to a curve point; a public key derived from a seed always does.
#[verifier::external_body]
fn point_valid(public: &[u8]) -> (r: bool)
    requires
        public@.len() == 32,
    ensures
        r == ed25519_point_valid(public@),
        forall|s: Seq<u8>| s.len() == 32 && public@ == #[trigger] ed25519_public(s) ==> r,
{
    ed25519_dalek::PublicKey::from_bytes(public).is_ok()
}

/// Relies on `ssb_crypto::PublicKey::verify`, which panics on a public key that is no
/// curve point and on a signature whose last byte has any of its three high bits set.
/// A signature made with the seed of the public key is accepted.
#[verifier::external_body]
fn ed25519_verify(public: &[u8], sig: &[u8], msg: &[u8]) -> (r: bool)
    requires
        public@.len() == 32,
        sig@.len() == 64,
        ed25519_point_valid(public@),
        sig@[63] & 0xe0 == 0,
    ensures
        r == ed25519_accepts(public@, sig@, msg@),
        forall|s: Seq<u8>|
            s.len() == 32 && public@ == ed25519_public(s) && sig@ == #[trigger] ed25519_signature(
                s,
                public@,
                msg@,
            ) ==> r,
{
    let pk = ssb_crypto::PublicKey(public.try_into().unwrap());
    let sig = ssb_crypto::Signature(sig.try_into().unwrap());
    pk.verify(&sig, msg)
}

/// Why a keypair could not be made.
#[derive(Clone, Copy, Debug, PartialEq, Eq, Structural)]
pub enum KeyError {
    /// A seed that is not 32 bytes long.
    SeedLength,
    /// A private key whose text form could not be read.
    Decode(DecodeError),
    /// A private key whose public half is not the one its seed yields.
    Mismatch,
}

/// `k` is the keypair that `Keypair::generate` makes from `seed`.
pub open spec fn generated_from(seed: Seq<u8>, k: Keypair) -> bool {
    k.wf() && k.secret@ == seed
}

/// Generating from a seed is repeatable: two keypairs generated from the same seed are
/// the same keypair.
pub proof fn seeded_generation_repeatable(seed: Seq<u8>, a: Keypair, b: Keypair)
    requires
        generated_from(seed, a),
        generated_from(seed, b),
    ensures
        a.secret@ == b.secret@,
        a.public@ == b.public@,
{
}

impl Keypair {
    /// A new keypair: from the given seed, or from fresh randomness where there is none.
    /// A seed must be 32 bytes long; the keypair is then a function of the seed alone.
    pub fn generate(seed: Option<&[u8]>) -> (r: Result<Keypair, KeyError>)
        ensures
            r matches Ok(k) ==> k.wf(),
            seed is None ==> r is Ok,
            seed matches Some(s) ==> (r is Ok <==> s@.len() == 32),
            seed matches Some(s) ==> (r matches Ok(k) ==> generated_from(s@, k)),
            seed matches Some(s) ==> (r is Err ==> r == Err::<Keypair, KeyError>(
                KeyError::SeedLength,
            )),
    {
        match seed {
            None => Ok(Keypair::random()),
            Some(s) => match keypair_from_seed(s) {
                Some(k) => Ok(k),
                None => Err(KeyError::SeedLength),
            },
        }
    }

    /// A keypair from a fresh random seed.
    pub fn random() -> (r: Keypair)
        ensures
            r.wf(),
    {
        random_keypair()
    }

    /// A keypair from the 64 bytes of its private key (seed, then public key), where the
    /// public half is the one the seed yields.
    pub fn from_private_bytes(b: &[u8]) -> (r: Option<Keypair>)
        ensures
            r is Some <==> b@.len() == 64 && b@.subrange(32, 64) == ed25519_public(b@.subrange(0, 32)),
            r matches Some(k) ==> k.wf() && k.private_bytes() == b@,
    {
        if b.len() != 64 {
            return None;
        }
        let seed = slice_to_vec(b, 0, 32);
        let public = slice_to_vec(b, 32, 64);
        match keypair_from_seed(seed.as_slice()) {
            None => None,
            Some(k) => {
                if bytes_equal(k.public.as_slice(), public.as_slice()) {
                    assert(k.private_bytes() =~= b@);
                    Some(k)
                } else {
                    None
                }
            },
        }
    }

    /// Reads a keypair from the text form of its private key (`<base64>.ed25519`, 64
    /// bytes), and checks that the public half is the one the seed yields.
    pub fn from_private(text: &str) -> (r: Result<Keypair, KeyError>)
        ensures
            r matches Ok(k) ==> k.wf() && decoded(text@, key_suffix(), 64) == Ok::<
                Seq<u8>,
                DecodeError,
            >(k.private_bytes()),
            decoded(text@, key_suffix(), 64) matches Err(e) ==> r == Err::<Keypair, KeyError>(
                KeyError::Decode(e),
            ),
            decoded(text@, key_suffix(), 64) matches Ok(b) ==> (r is Ok <==> b.subrange(32, 64)
                == ed25519_public(b.subrange(0, 32))),
            decoded(text@, key_suffix(), 64) matches Ok(b) ==> (r is Err ==> r == Err::<
                Keypair,
                KeyError,
            >(KeyError::Mismatch)),
            forall|k: Keypair|
                #![trigger written_as(text@, k.private_bytes(), key_suffix())]
                k.wf() && written_as(text@, k.private_bytes(), key_suffix()) ==> (r matches Ok(
                    k2,
                ) && k2.secret@ == k.secret@ && k2.public@ == k.public@),
    {
        proof {
            assert forall|k: Keypair|
                #![trigger written_as(text@, k.private_bytes(), key_suffix())]
                k.wf() && written_as(text@, k.private_bytes(), key_suffix()) implies {
                    let b = k.private_bytes();
                    &&& b.len() == 64
                    &&& b.subrange(0, 32) == k.secret@
                    &&& b.subrange(32, 64) == k.public@
                } by {
                assert(k.private_bytes().subrange(0, 32) =~= k.secret@);
                assert(k.private_bytes().subrange(32, 64) =~= k.public@);
            }
        }
        match decode_private(text) {
            Err(e) => Err(KeyError::Decode(e)),
            Ok(bytes) => match Keypair::from_private_bytes(bytes.as_slice()) {
                Some(k) => Ok(k),
                None => Err(KeyError::Mismatch),
            },
        }
    }

    /// Signs `msg` with Ed25519.
    pub fn sign(&self, msg: &[u8]) -> (r: Vec<u8>)
        requires
            self.wf(),
        ensures
            is_signature_of(*self, msg@, r@),
    {
        ed25519_sign(self, msg)
    }
}

/// `sig` is what `Keypair::sign` returns for `k` and `msg`.
pub open spec fn is_signature_of(k: Keypair, msg: Seq<u8>, sig: Seq<u8>) -> bool {
    &&& k.wf()
    &&& sig == ed25519_signature(k.secret@, k.public@, msg)
    &&& sig.len() == 64
    &&& sig[63] & 0xe0 == 0
}

/// Whether `sig` is a valid Ed25519 signature of `msg` by `public`: false for a public
/// key that is not 32 bytes or no curve point, for a signature that is not 64 bytes or
/// whose last byte has a high bit set, and otherwise what verification says.
pub open spec fn signature_valid(public: Seq<u8>, sig: Seq<u8>, msg: Seq<u8>) -> bool {
    &&& public.len() == 32
    &&& ed25519_point_valid(public)
    &&& sig.len() == 64
    &&& sig[63] & 0xe0 == 0
    &&& ed25519_accepts(public, sig, msg)
}

/// Checks an Ed25519 signature; never panics, whatever the bytes.
pub fn verify_signature(public: &[u8], sig: &[u8], msg: &[u8]) -> (r: bool)
    ensures
        r == signature_valid(public@, sig@, msg@),
        forall|k: Keypair| public@ == k.public@ && #[trigger] is_signature_of(k, msg@, sig@) ==> r,
{
    if public.len() != 32 || sig.len() != 64 {
        return false;
    }
    if !point_valid(public) {
        return false;
    }
    if sig[63] & 0xe0 != 0 {
        return false;
    }
    ed25519_verify(public, sig, msg)
}

/// A keypair in the text forms that clients exchange.
#[derive(Clone, Debug, PartialEq, Eq)]
pub struct KeysRecord {
    /// Always `ed25519`.
    pub curve: String,
    /// `@<public>.ed25519`.
    pub id: String,
    /// `<seed and public key>.ed25519`.
    pub private: String,
    /// `<public>.ed25519`.
    pub public: String,
}

/// Writes a keypair in its text forms.
pub fn keys_record(k: &Keypair) -> (r: KeysRecord)
    ensures
        r.curve@ == seq!['e', 'd', '2', '5', '5', '1', '9'],
        r.id@ == seq!['@'] + encoded(k.public@, key_suffix()),
        r.private@ == encoded(k.private_bytes(), key_suffix()),
        r.public@ == encoded(k.public@, key_suffix()),
        base64_shaped(base64_text(k.public@)),
        base64_shaped(base64_text(k.private_bytes())),
{
    let mut private: Vec<u8> = k.secret.clone();
    let mut tail: Vec<u8> = k.public.clone();
    private.append(&mut tail);
    assert(private@ =~= k.private_bytes());
    let curve = String::from_str("ed25519");
    proof {
        reveal_strlit("ed25519");
    }
    KeysRecord {
        curve,
        id: public_id(k.public.as_slice()),
        private: encode_key(private.as_slice()),
        public: encode_key(k.public.as_slice()),
    }
}

} // verus!
