//! Sealed boxes: one message encrypted for several recipients at once.
//!
//! Layout: `nonce (24) || ephemeral public key (32) || slot* || body`. Each slot (49
//! bytes) is the box, under the Diffie-Hellman secret of the ephemeral key and one
//! recipient, of `recipient count (1) || payload key (32)`. The body is the box of the
//! message under the payload key. All boxes use the same nonce.

use vstd::prelude::*;
use crate::codec::{
    base64_bytes, box_suffix, decode_base64_with_suffix, decode_public, decoded, encoded,
    encode_with_suffix, key_suffix, opt_bytes, without_suffix,
};
use crate::bytes::slice_to_vec;
use crate::keys::Keypair;
use crate::secretbox::{open_attached, opened_box, seal_attached, sealed_box};

verus! {

/// The Diffie-Hellman secret of an ephemeral secret key and a signing public key mapped
/// to its Montgomery form; `None` where the public key has no such form.
pub uninterp spec fn dh_public(eph_secret: Seq<u8>, public: Seq<u8>) -> Option<Seq<u8>>;

/// The Diffie-Hellman secret of a signing seed mapped to its Montgomery scalar and an
/// ephemeral public key.
pub uninterp spec fn dh_secret(seed: Seq<u8>, eph_public: Seq<u8>) -> Option<Seq<u8>>;

/// The Montgomery (Diffie-Hellman) secret key that a signing seed maps to.
pub uninterp spec fn curve_secret(seed: Seq<u8>) -> Option<Seq<u8>>;

/// Relies on `ssb_crypto::secretbox::Nonce::generate`: 24 random bytes.
#[verifier::external_body]
fn random_nonce() -> (r: Vec<u8>)
    ensures
        r@.len() == 24,
{
    ssb_crypto::secretbox::Nonce::generate().0.to_vec()
}

/// Relies on `ssb_crypto::secretbox::Key::generate`: 32 random bytes.
#[verifier::external_body]
fn random_box_key() -> (r: Vec<u8>)
    ensures
        r@.len() == 32,
{
    ssb_crypto::secretbox::Key::generate().0.to_vec()
}

/// Relies on `ssb_crypto::ephemeral::generate_ephemeral_keypair`: a fresh random
/// Curve25519 keypair, public key first, 32 bytes each.
#[verifier::external_body]
fn ephemeral_keypair() -> (r: (Vec<u8>, Vec<u8>))
    ensures
        r.0@.len() == 32,
        r.1@.len() == 32,
{
    let (p, s) = ssb_crypto::ephemeral::generate_ephemeral_keypair();
    (p.0.to_vec(), s.0.to_vec())
}

/// Relies on `ssb_crypto::ephemeral::derive_shared_secret_pk`, which returns `None` for a
/// public key that does not decompress or has small order, and 32 bytes otherwise.
#[verifier::external_body]
fn shared_with_public(eph_secret: &[u8], public: &[u8]) -> (r: Option<Vec<u8>>)
    requires
        eph_secret@.len() == 32,
        public@.len() == 32,
    ensures
        opt_bytes(r) == dh_public(eph_secret@, public@),
        r matches Some(v) ==> v@.len() == 32,
{
    let sk = ssb_crypto::ephemeral::EphSecretKey(eph_secret.try_into().unwrap());
    let pk = ssb_crypto::PublicKey(public.try_into().unwrap());
    ssb_crypto::ephemeral::derive_shared_secret_pk(&sk, &pk).map(|s| s.0.to_vec())
}

/// Relies on `ssb_crypto::ephemeral::derive_shared_secret_sk`: 32 bytes, from a 32-byte
/// seed and an ephemeral public key.
#[verifier::external_body]
fn shared_with_secret(seed: &[u8], eph_public: &[u8]) -> (r: Option<Vec<u8>>)
    requires
        seed@.len() == 32,
        eph_public@.len() == 32,
    ensures
        opt_bytes(r) == dh_secret(seed@, eph_public@),
        r matches Some(v) ==> v@.len() == 32,
{
    let sk = ssb_crypto::SecretKey(seed.try_into().unwrap());
    let pk = ssb_crypto::ephemeral::EphPublicKey(eph_public.try_into().unwrap());
    ssb_crypto::ephemeral::derive_shared_secret_sk(&sk, &pk).map(|s| s.0.to_vec())
}

/// Relies on `ssb_crypto::ephemeral::sk_to_curve`: 32 bytes, from a 32-byte seed.
#[verifier::external_body]
fn seed_to_curve(seed: &[u8]) -> (r: Option<Vec<u8>>)
    requires
        seed@.len() == 32,
    ensures
        opt_bytes(r) == curve_secret(seed@),
        r matches Some(v) ==> v@.len() == 32,
{
    let sk = ssb_crypto::SecretKey(seed.try_into().unwrap());
    ssb_crypto::ephemeral::sk_to_curve(&sk).map(|s| s.0.to_vec())
}

/// The views of a list of byte vectors.
pub open spec fn views(vs: Seq<Vec<u8>>) -> Seq<Seq<u8>> {
    vs.map_values(|v: Vec<u8>| v@)
}

/// The Diffie-Hellman secrets of the recipients that have a Montgomery form, in order;
/// a recipient that is not 32 bytes long or has no such form is left out.
pub open spec fn shared_secrets(recipients: Seq<Seq<u8>>, eph_secret: Seq<u8>) -> Seq<Seq<u8>>
    decreases recipients.len(),
{
    if recipients.len() == 0 {
        Seq::empty()
    } else {
        let p = recipients.last();
        shared_secrets(recipients.drop_last(), eph_secret) + if p.len() == 32 {
            match dh_public(eph_secret, p) {
                Some(s) => seq![s],
                None => Seq::empty(),
            }
        } else {
            Seq::empty()
        }
    }
}

/// The recipient slots: the box of `plain` under each shared secret, in order.
pub open spec fn slots(shared: Seq<Seq<u8>>, nonce: Seq<u8>, plain: Seq<u8>) -> Seq<u8>
    decreases shared.len(),
{
    if shared.len() == 0 {
        Seq::empty()
    } else {
        slots(shared.drop_last(), nonce, plain) + sealed_box(shared.last(), nonce, plain)
    }
}

/// The sealed box of `msg` for `recipients`, given the nonce, the ephemeral keypair and
/// the payload key.
pub open spec fn sealed_message(
    msg: Seq<u8>,
    recipients: Seq<Seq<u8>>,
    nonce: Seq<u8>,
    eph_public: Seq<u8>,
    eph_secret: Seq<u8>,
    payload_key: Seq<u8>,
) -> Seq<u8> {
    let shared = shared_secrets(recipients, eph_secret);
    nonce + eph_public + slots(shared, nonce, seq![shared.len() as u8] + payload_key)
        + sealed_box(payload_key, nonce, msg)
}

/// Where the parts of a sealed message stand: the nonce first, and after the header and
/// `count` slots of 49 bytes, the body, which is the box of `msg` under the payload key.
pub open spec fn laid_out(r: Seq<u8>, msg: Seq<u8>, nonce: Seq<u8>, payload_key: Seq<u8>, count: nat) -> bool {
    &&& r.len() == 56 + 49 * count + 16 + msg.len()
    &&& r.subrange(0, 24) == nonce
    &&& r.subrange(56 + 49 * count as int, r.len() as int) == sealed_box(payload_key, nonce, msg)
}

/// Seals `msg` for `recipients` (signing public keys) with the given nonce, ephemeral
/// keypair and payload key; recipients without a Diffie-Hellman form are left out.
pub fn encrypt_with(
    msg: &[u8],
    recipients: &Vec<Vec<u8>>,
    nonce: &[u8],
    eph_public: &[u8],
    eph_secret: &[u8],
    payload_key: &[u8],
) -> (r: Vec<u8>)
    requires
        recipients@.len() <= 255,
        nonce@.len() == 24,
        eph_public@.len() == 32,
        eph_secret@.len() == 32,
        payload_key@.len() == 32,
    ensures
        r@ == sealed_message(
            msg@,
            views(recipients@),
            nonce@,
            eph_public@,
            eph_secret@,
            payload_key@,
        ),
        laid_out(r@, msg@, nonce@, payload_key@, shared_secrets(views(recipients@), eph_secret@).len()),
{
    let ghost rs = views(recipients@);
    let mut shared: Vec<Vec<u8>> = Vec::new();
    let mut i: usize = 0;
    while i < recipients.len()
        invariant
            i <= recipients@.len() <= 255,
            rs == views(recipients@),
            eph_secret@.len() == 32,
            views(shared@) == shared_secrets(rs.subrange(0, i as int), eph_secret@),
            shared@.len() <= i,
            forall|j: int| 0 <= j < shared@.len() ==> (#[trigger] shared@[j])@.len() == 32,
        decreases recipients@.len() - i,
    {
        let ghost prev = shared@;
        let ghost next = rs.subrange(0, i + 1);
        assert(next.drop_last() =~= rs.subrange(0, i as int));
        assert(next.last() == recipients@[i as int]@);
        let p = &recipients[i];
        if p.len() == 32 {
            match shared_with_public(eph_secret, p.as_slice()) {
                Some(s) => {
                    shared.push(s);
                    assert(views(shared@) =~= views(prev) + seq![shared@.last()@]);
                },
                None => {},
            }
        }
        i = i + 1;
        assert(views(shared@) =~= shared_secrets(next, eph_secret@));
    }
    assert(rs.subrange(0, recipients@.len() as int) =~= rs);
    let ghost sh = views(shared@);
    let count: u8 = shared.len() as u8;
    let mut plain: Vec<u8> = Vec::new();
    plain.push(count);
    let mut key_copy = slice_to_vec(payload_key, 0, 32);
    plain.append(&mut key_copy);
    assert(payload_key@.subrange(0, 32) =~= payload_key@);
    let mut out = slice_to_vec(nonce, 0, 24);
    let mut eph = slice_to_vec(eph_public, 0, 32);
    out.append(&mut eph);
    assert(nonce@.subrange(0, 24) =~= nonce@);
    assert(eph_public@.subrange(0, 32) =~= eph_public@);
    let ghost head = out@;
    assert(head.subrange(0, 24) =~= nonce@);
    let mut j: usize = 0;
    while j < shared.len()
        invariant
            j <= shared@.len(),
            sh == views(shared@),
            nonce@.len() == 24,
            forall|k: int| 0 <= k < shared@.len() ==> (#[trigger] shared@[k])@.len() == 32,
            out@ == head + slots(sh.subrange(0, j as int), nonce@, plain@),
            plain@.len() == 33,
            head.len() == 56,
            head.subrange(0, 24) == nonce@,
            out@.len() == 56 + 49 * j,
        decreases shared@.len() - j,
    {
        let mut slot = seal_attached(shared[j].as_slice(), nonce, plain.as_slice());
        out.append(&mut slot);
        let ghost next = sh.subrange(0, j + 1);
        assert(next.drop_last() =~= sh.subrange(0, j as int));
        j = j + 1;
        assert(out@ =~= head + slots(next, nonce@, plain@));
    }
    assert(sh.subrange(0, sh.len() as int) =~= sh);
    let mut body = seal_attached(payload_key, nonce, msg);
    let ghost before_body = out@;
    let ghost body_view = body@;
    out.append(&mut body);
    assert(out@.subrange(0, 24) =~= before_body.subrange(0, 24));
    assert(before_body.subrange(0, 24) =~= head.subrange(0, 24));
    assert(out@.subrange(before_body.len() as int, out@.len() as int) =~= body_view);
    assert(out@ =~= sealed_message(
        msg@,
        views(recipients@),
        nonce@,
        eph_public@,
        eph_secret@,
        payload_key@,
    ));
    out
}

/// Seals `msg` for `recipients` with a fresh nonce, ephemeral keypair and payload key.
/// Recipients without a Diffie-Hellman form are left out; with none left the box has no
/// slot, which nobody can open.
pub fn encrypt(msg: &[u8], recipients: &Vec<Vec<u8>>) -> (r: Vec<u8>)
    requires
        recipients@.len() <= 255,
    ensures
        exists|nonce: Seq<u8>, eph_public: Seq<u8>, eph_secret: Seq<u8>, payload_key: Seq<u8>|
            nonce.len() == 24 && eph_public.len() == 32 && eph_secret.len() == 32
                && payload_key.len() == 32 && r@ == sealed_message(
                msg@,
                views(recipients@),
                nonce,
                eph_public,
                eph_secret,
                payload_key,
            ) && laid_out(
                r@,
                msg@,
                nonce,
                payload_key,
                shared_secrets(views(recipients@), eph_secret).len(),
            ),
{
    let nonce = random_nonce();
    let (eph_public, eph_secret) = ephemeral_keypair();
    let payload_key = random_box_key();
    encrypt_with(
        msg,
        recipients,
        nonce.as_slice(),
        eph_public.as_slice(),
        eph_secret.as_slice(),
        payload_key.as_slice(),
    )
}

/// The payload key as a recipient slot holds it, with the number of slots.
#[derive(Clone, Debug, PartialEq, Eq)]
pub struct KeySlot {
    /// The number of recipient slots, which tells where the body starts.
    pub recipient_count: u8,
    /// The 32-byte key of the body.
    pub payload_key: Vec<u8>,
}

impl KeySlot {
    /// The 33 bytes of the slot's plaintext.
    pub open spec fn view_bytes(&self) -> Seq<u8> {
        seq![self.recipient_count] + self.payload_key@
    }

    /// The 33 bytes of the slot's plaintext: the count, then the key.
    pub fn to_bytes(&self) -> (r: Vec<u8>)
        ensures
            r@ == self.view_bytes(),
    {
        let mut r: Vec<u8> = Vec::new();
        r.push(self.recipient_count);
        let mut key = slice_to_vec(self.payload_key.as_slice(), 0, self.payload_key.len());
        r.append(&mut key);
        assert(self.payload_key@.subrange(0, self.payload_key@.len() as int) =~= self.payload_key@);
        r
    }

    /// Reads a slot's plaintext: 33 bytes, the count and then the key.
    pub fn from_bytes(b: &[u8]) -> (r: Option<KeySlot>)
        ensures
            r is Some <==> b@.len() == 33,
            r matches Some(k) ==> k.view_bytes() == b@ && k.payload_key@.len() == 32,
    {
        if b.len() != 33 {
            return None;
        }
        let k = KeySlot { recipient_count: b[0], payload_key: slice_to_vec(b, 1, 33) };
        assert(k.view_bytes() =~= b@);
        Some(k)
    }
}

/// The first slot that opens under `key`, scanning `body` in steps of 49 bytes.
pub open spec fn scan_slots(body: Seq<u8>, key: Seq<u8>, nonce: Seq<u8>) -> Option<Seq<u8>>
    decreases body.len(),
{
    if body.len() < 49 {
        None
    } else {
        match opened_box(key, nonce, body.subrange(0, 49)) {
            Some(p) => Some(p),
            None => scan_slots(body.subrange(49, body.len() as int), key, nonce),
        }
    }
}

/// The slot plaintext that the holder of `seed` finds in `msg`.
pub open spec fn opened_slot(msg: Seq<u8>, seed: Seq<u8>) -> Option<Seq<u8>> {
    if msg.len() < 56 {
        None
    } else {
        match dh_secret(seed, msg.subrange(24, 56)) {
            None => None,
            Some(s) => scan_slots(msg.subrange(56, msg.len() as int), s, msg.subrange(0, 24)),
        }
    }
}

/// Finds the payload key of `msg` for `k`: derives the Diffie-Hellman secret of `k` and
/// the ephemeral key, then tries each 49-byte slot in turn and keeps the first that
/// opens. `None` for a message too short to hold a header, or where no slot opens.
pub fn decrypt_key(msg: &[u8], k: &Keypair) -> (r: Option<KeySlot>)
    requires
        k.wf(),
    ensures
        match r {
            Some(slot) => opened_slot(msg@, k.secret@) == Some(slot.view_bytes()),
            None => opened_slot(msg@, k.secret@) is None,
        },
        r matches Some(slot) ==> slot.payload_key@.len() == 32,
{
    if msg.len() < 56 {
        return None;
    }
    let nonce = slice_to_vec(msg, 0, 24);
    let eph = slice_to_vec(msg, 24, 56);
    let shared = match shared_with_secret(k.secret.as_slice(), eph.as_slice()) {
        None => {
            return None;
        },
        Some(s) => s,
    };
    let ghost rest = msg@.subrange(56, msg@.len() as int);
    let mut pos: usize = 56;
    assert(opened_slot(msg@, k.secret@) == scan_slots(rest, shared@, nonce@));
    while msg.len() - pos >= 49
        invariant
            56 <= pos <= msg@.len(),
            opened_slot(msg@, k.secret@) == scan_slots(rest, shared@, nonce@),
            nonce@.len() == 24,
            shared@.len() == 32,
            scan_slots(rest, shared@, nonce@) == scan_slots(
                msg@.subrange(pos as int, msg@.len() as int),
                shared@,
                nonce@,
            ),
        decreases msg@.len() - pos,
    {
        let slot = slice_to_vec(msg, pos, pos + 49);
        let ghost here = msg@.subrange(pos as int, msg@.len() as int);
        assert(here.subrange(0, 49) =~= slot@);
        match open_attached(shared.as_slice(), nonce.as_slice(), slot.as_slice()) {
            Some(p) => {
                assert(scan_slots(here, shared@, nonce@) == Some(p@));
                let r = KeySlot::from_bytes(p.as_slice());
                return r;
            },
            None => {},
        }
        assert(here.subrange(49, here.len() as int) =~= msg@.subrange(
            pos + 49,
            msg@.len() as int,
        ));
        pos = pos + 49;
    }
    assert(scan_slots(msg@.subrange(pos as int, msg@.len() as int), shared@, nonce@) is None);
    None
}

/// Where the body starts in a message with `count` slots.
pub open spec fn body_start(count: u8) -> int {
    56 + 49 * count
}

/// The body of `msg` opened under a slot's payload key; `None` where the message is too
/// short, the key is not 32 bytes, or the body does not authenticate.
pub open spec fn opened_body(msg: Seq<u8>, slot: Seq<u8>) -> Option<Seq<u8>> {
    let start = body_start(slot[0]);
    if slot.len() != 33 || msg.len() < start + 16 {
        None
    } else {
        opened_box(slot.subrange(1, 33), msg.subrange(0, 24), msg.subrange(start, msg.len() as int))
    }
}

/// Opens the body of `msg` with a payload key found before (by `decrypt_key`), without
/// scanning the slots again. A message that `encrypt_with` laid out for `count`
/// resolved recipients opens, under its payload key and that count, to its plaintext.
pub fn decrypt_body(msg: &[u8], slot: &KeySlot) -> (r: Option<Vec<u8>>)
    ensures
        opt_bytes(r) == opened_body(msg@, slot.view_bytes()),
        forall|m: Seq<u8>|
            #![trigger laid_out(msg@, m, msg@.subrange(0, 24), slot.payload_key@, slot.recipient_count as nat)]
            slot.payload_key@.len() == 32 && laid_out(
                msg@,
                m,
                msg@.subrange(0, 24),
                slot.payload_key@,
                slot.recipient_count as nat,
            ) ==> opt_bytes(r) == Some(m),
{
    let ghost sv = slot.view_bytes();
    assert(sv[0] == slot.recipient_count);
    assert(slot.payload_key@.len() == 32 ==> sv.subrange(1, 33) =~= slot.payload_key@);
    if slot.payload_key.len() != 32 {
        return None;
    }
    let start: usize = 56 + 49 * (slot.recipient_count as usize);
    if msg.len() < start || msg.len() - start < 16 {
        return None;
    }
    let nonce = slice_to_vec(msg, 0, 24);
    let body = slice_to_vec(msg, start, msg.len());
    open_attached(slot.payload_key.as_slice(), nonce.as_slice(), body.as_slice())
}

/// What `decrypt` yields for the holder of `seed`.
pub open spec fn opened_message(msg: Seq<u8>, seed: Seq<u8>) -> Option<Seq<u8>> {
    match opened_slot(msg, seed) {
        None => None,
        Some(slot) => opened_body(msg, slot),
    }
}

/// Opens `msg` for `k`: `decrypt_key`, then `decrypt_body`. `None` alike where `k` is not
/// a recipient and where the message is malformed.
pub fn decrypt(msg: &[u8], k: &Keypair) -> (r: Option<Vec<u8>>)
    requires
        k.wf(),
    ensures
        opt_bytes(r) == opened_message(msg@, k.secret@),
{
    match decrypt_key(msg, k) {
        None => None,
        Some(slot) => decrypt_body(msg, &slot),
    }
}

/// Why a Diffie-Hellman key could not be derived.
#[derive(Clone, Copy, Debug, PartialEq, Eq, Structural)]
pub enum DerivationError {
    /// The signing key maps to no valid point.
    Unmappable,
}

/// The Diffie-Hellman (Montgomery) secret key that a signing keypair maps to.
pub fn dh_secret_key(k: &Keypair) -> (r: Result<Vec<u8>, DerivationError>)
    requires
        k.wf(),
    ensures
        match r {
            Ok(v) => curve_secret(k.secret@) == Some(v@),
            Err(e) => curve_secret(k.secret@) is None && e == DerivationError::Unmappable,
        },
{
    match seed_to_curve(k.secret.as_slice()) {
        Some(v) => Ok(v),
        None => Err(DerivationError::Unmappable),
    }
}

/// The views of a list of strings.
pub open spec fn text_views(ts: Seq<String>) -> Seq<Seq<char>> {
    ts.map_values(|t: String| t@)
}

/// The public keys that the recipients' text forms decode to, in order; a text that
/// does not decode is left out.
pub open spec fn decoded_keys(ts: Seq<Seq<char>>) -> Seq<Seq<u8>>
    decreases ts.len(),
{
    if ts.len() == 0 {
        Seq::empty()
    } else {
        decoded_keys(ts.drop_last()) + match decoded(ts.last(), key_suffix(), 32) {
            Ok(b) => seq![b],
            Err(_) => Seq::empty(),
        }
    }
}

/// Seals `msg` for recipients given by their public keys' text forms, and writes the
/// box as `<base64>.box`. A recipient whose key does not decode, or has no
/// Diffie-Hellman form, is left out.
pub fn box_message(msg: &[u8], recipients: &Vec<String>) -> (r: String)
    requires
        recipients@.len() <= 255,
    ensures
        exists|nonce: Seq<u8>, eph_public: Seq<u8>, eph_secret: Seq<u8>, payload_key: Seq<u8>|
            nonce.len() == 24 && eph_public.len() == 32 && eph_secret.len() == 32
                && payload_key.len() == 32 && r@ == encoded(
                sealed_message(
                    msg@,
                    decoded_keys(text_views(recipients@)),
                    nonce,
                    eph_public,
                    eph_secret,
                    payload_key,
                ),
                box_suffix(),
            ),
{
    let ghost ts = text_views(recipients@);
    let mut keys: Vec<Vec<u8>> = Vec::new();
    let mut i: usize = 0;
    while i < recipients.len()
        invariant
            i <= recipients@.len() <= 255,
            ts == text_views(recipients@),
            keys@.len() <= i,
            views(keys@) == decoded_keys(ts.subrange(0, i as int)),
        decreases recipients@.len() - i,
    {
        let ghost prev = keys@;
        let ghost next = ts.subrange(0, i + 1);
        assert(next.drop_last() =~= ts.subrange(0, i as int));
        assert(next.last() == recipients@[i as int]@);
        match decode_public(recipients[i].as_str()) {
            Ok(b) => {
                keys.push(b);
                assert(views(keys@) =~= views(prev) + seq![keys@.last()@]);
            },
            Err(_) => {},
        }
        i = i + 1;
        assert(views(keys@) =~= decoded_keys(next));
    }
    assert(ts.subrange(0, recipients@.len() as int) =~= ts);
    let sealed = encrypt(msg, &keys);
    let suffix = ".box";
    proof {
        reveal_strlit(".box");
        assert(suffix@ =~= box_suffix());
    }
    encode_with_suffix(sealed.as_slice(), suffix)
}

/// The bytes of a box's text form `<base64>.box`, the suffix being optional.
pub open spec fn box_bytes(text: Seq<char>) -> Option<Seq<u8>> {
    base64_bytes(without_suffix(text, box_suffix()))
}

fn read_box(text: &str) -> (r: Option<Vec<u8>>)
    ensures
        opt_bytes(r) == box_bytes(text@),
{
    let suffix = ".box";
    proof {
        reveal_strlit(".box");
        assert(suffix@ =~= box_suffix());
    }
    decode_base64_with_suffix(text, suffix)
}

/// Opens a box in text form for `k`; `None` where the text is no base64, `k` is not a
/// recipient, or the box is malformed.
pub fn unbox(text: &str, k: &Keypair) -> (r: Option<Vec<u8>>)
    requires
        k.wf(),
    ensures
        opt_bytes(r) == match box_bytes(text@) {
            Some(b) => opened_message(b, k.secret@),
            None => None,
        },
{
    match read_box(text) {
        None => None,
        Some(b) => decrypt(b.as_slice(), k),
    }
}

/// Finds the payload key of a box in text form for `k` (see `decrypt_key`).
pub fn unbox_key(text: &str, k: &Keypair) -> (r: Option<KeySlot>)
    requires
        k.wf(),
    ensures
        r is Some ==> box_bytes(text@) is Some,
        box_bytes(text@) is None ==> r is None,
        box_bytes(text@) matches Some(b) ==> match r {
            Some(slot) => opened_slot(b, k.secret@) == Some(slot.view_bytes()),
            None => opened_slot(b, k.secret@) is None,
        },
{
    match read_box(text) {
        None => None,
        Some(b) => decrypt_key(b.as_slice(), k),
    }
}

/// Opens the body of a box in text form with a payload key found before.
pub fn unbox_body(text: &str, slot: &KeySlot) -> (r: Option<Vec<u8>>)
    ensures
        opt_bytes(r) == match box_bytes(text@) {
            Some(b) => opened_body(b, slot.view_bytes()),
            None => None,
        },
{
    match read_box(text) {
        None => None,
        Some(b) => decrypt_body(b.as_slice(), slot),
    }
}

} // verus!
