//! Authenticated symmetric boxes (XSalsa20-Poly1305, MAC attached in front).

use vstd::prelude::*;
use crate::codec::opt_bytes;
use crate::bytes::slice_to_vec;

verus! {

/// The attached box of `msg` under a 32-byte key and a 24-byte nonce: the 16-byte MAC,
/// then the ciphertext.
pub uninterp spec fn sealed_box(key: Seq<u8>, nonce: Seq<u8>, msg: Seq<u8>) -> Seq<u8>;

/// What opening an attached box under a key and a nonce yields, if it authenticates.
pub uninterp spec fn opened_box(key: Seq<u8>, nonce: Seq<u8>, input: Seq<u8>) -> Option<Seq<u8>>;

/// Relies on `ssb_crypto::secretbox::Key::seal_attached_into`, which writes the MAC and
/// then the ciphertext, as long as the message, into a buffer of that size.
#[verifier::external_body]
pub(crate) fn seal_attached(key: &[u8], nonce: &[u8], msg: &[u8]) -> (r: Vec<u8>)
    requires
        key@.len() == 32,
        nonce@.len() == 24,
    ensures
        r@ == sealed_box(key@, nonce@, msg@),
        r@.len() == msg@.len() + 16,
{
    let k = ssb_crypto::secretbox::Key::from_slice(key).unwrap();
    let n = ssb_crypto::secretbox::Nonce::from_slice(nonce).unwrap();
    let mut out = vec![0u8; msg.len() + ssb_crypto::secretbox::Hmac::SIZE];
    k.seal_attached_into(msg, &n, &mut out);
    out
}

/// Relies on `ssb_crypto::secretbox::Key::open_attached_into`, which panics on an input
/// shorter than the MAC and otherwise says whether the box authenticates, leaving the
/// plaintext in a buffer as long as the input less the MAC. A box sealed under the same
/// key and nonce opens to its message.
#[verifier::external_body]
pub(crate) fn open_attached(key: &[u8], nonce: &[u8], input: &[u8]) -> (r: Option<Vec<u8>>)
    requires
        key@.len() == 32,
        nonce@.len() == 24,
        input@.len() >= 16,
    ensures
        opt_bytes(r) == opened_box(key@, nonce@, input@),
        r matches Some(v) ==> v@.len() == input@.len() - 16,
        forall|m: Seq<u8>| input@ == #[trigger] sealed_box(key@, nonce@, m) ==> opt_bytes(r) == Some(m),
{
    let k = ssb_crypto::secretbox::Key::from_slice(key).unwrap();
    let n = ssb_crypto::secretbox::Nonce::from_slice(nonce).unwrap();
    let len = input.len() - ssb_crypto::secretbox::Hmac::SIZE;
    let mut out = vec![0u8; len];
    if k.open_attached_into(input, &n, &mut out) {
        Some(out)
    } else {
        None
    }
}

/// `b` is the box of `m` under `key` and `nonce`, as sealing returns it.
pub open spec fn is_box_of(key: Seq<u8>, nonce: Seq<u8>, m: Seq<u8>, b: Seq<u8>) -> bool {
    b == sealed_box(key, nonce, m) && b.len() == m.len() + 16
}

/// Why a box could not be made or opened.
#[derive(Clone, Copy, Debug, PartialEq, Eq, Structural)]
pub enum BoxError {
    /// The key (or the nonce) has the wrong length.
    KeyLength,
    /// The box does not authenticate under the key: it was sealed under another key or
    /// altered. The two cases are not told apart.
    Auth,
}

/// The view of a box result.
pub open spec fn box_view(r: Result<Vec<u8>, BoxError>) -> Result<Seq<u8>, BoxError> {
    match r {
        Ok(v) => Ok(v@),
        Err(e) => Err(e),
    }
}

/// What opening `msg` under `key` and `nonce` yields, the lengths being right.
pub open spec fn open_result(msg: Seq<u8>, key: Seq<u8>, nonce: Seq<u8>) -> Result<Seq<u8>, BoxError> {
    if msg.len() < 16 {
        Err(BoxError::Auth)
    } else {
        match opened_box(key, nonce, msg) {
            Some(p) => Ok(p),
            None => Err(BoxError::Auth),
        }
    }
}

/// Seals `plaintext` under a 32-byte key and a 24-byte nonce; the nonce must never be
/// used twice with the same key.
pub fn seal_with_nonce(plaintext: &[u8], key: &[u8], nonce: &[u8]) -> (r: Result<Vec<u8>, BoxError>)
    ensures
        r is Err <==> !(key@.len() == 32 && nonce@.len() == 24),
        r is Err ==> r == Err::<Vec<u8>, BoxError>(BoxError::KeyLength),
        r matches Ok(b) ==> is_box_of(key@, nonce@, plaintext@, b@),
{
    if key.len() != 32 || nonce.len() != 24 {
        return Err(BoxError::KeyLength);
    }
    Ok(seal_attached(key, nonce, plaintext))
}

/// Opens a box made by `seal_with_nonce`.
pub fn open_with_nonce(msg: &[u8], key: &[u8], nonce: &[u8]) -> (r: Result<Vec<u8>, BoxError>)
    ensures
        !(key@.len() == 32 && nonce@.len() == 24) ==> r == Err::<Vec<u8>, BoxError>(
            BoxError::KeyLength,
        ),
        key@.len() == 32 && nonce@.len() == 24 ==> box_view(r) == open_result(msg@, key@, nonce@),
        forall|m: Seq<u8>|
            key@.len() == 32 && nonce@.len() == 24 && #[trigger] is_box_of(key@, nonce@, m, msg@)
                ==> box_view(r) == Ok::<Seq<u8>, BoxError>(m),
{
    if key.len() != 32 || nonce.len() != 24 {
        return Err(BoxError::KeyLength);
    }
    if msg.len() < 16 {
        return Err(BoxError::Auth);
    }
    match open_attached(key, nonce, msg) {
        Some(p) => Ok(p),
        None => Err(BoxError::Auth),
    }
}

/// The key that `seal` and `open` take from their key input: its first 32 bytes.
pub open spec fn box_key(k: Seq<u8>) -> Seq<u8> {
    k.subrange(0, 32)
}

/// The nonce that `seal` and `open` take from their key input: its first 24 bytes,
/// which overlap the key. Such a key input must therefore seal one message only.
pub open spec fn box_nonce(k: Seq<u8>) -> Seq<u8> {
    k.subrange(0, 24)
}

/// Seals `plaintext` under the first 32 bytes of `key`, with the first 24 bytes of
/// `key` as the nonce. Because key and nonce overlap, a given key must seal one message
/// only; `seal_with_nonce` takes a separate nonce.
pub fn seal(plaintext: &[u8], key: &[u8]) -> (r: Result<Vec<u8>, BoxError>)
    ensures
        r is Err <==> key@.len() < 32,
        r is Err ==> r == Err::<Vec<u8>, BoxError>(BoxError::KeyLength),
        r matches Ok(b) ==> is_box_of(box_key(key@), box_nonce(key@), plaintext@, b@),
{
    if key.len() < 32 {
        return Err(BoxError::KeyLength);
    }
    let k = slice_to_vec(key, 0, 32);
    let n = slice_to_vec(key, 0, 24);
    Ok(seal_attached(k.as_slice(), n.as_slice(), plaintext))
}

/// Opens a box made by `seal` with the same key. A box sealed under this key opens to
/// its message; any failure to authenticate is the one error `Auth`.
pub fn open(msg: &[u8], key: &[u8]) -> (r: Result<Vec<u8>, BoxError>)
    ensures
        key@.len() < 32 ==> r == Err::<Vec<u8>, BoxError>(BoxError::KeyLength),
        key@.len() >= 32 ==> box_view(r) == open_result(msg@, box_key(key@), box_nonce(key@)),
        forall|m: Seq<u8>|
            key@.len() >= 32 && #[trigger] is_box_of(box_key(key@), box_nonce(key@), m, msg@)
                ==> box_view(r) == Ok::<Seq<u8>, BoxError>(m),
{
    if key.len() < 32 {
        return Err(BoxError::KeyLength);
    }
    let k = slice_to_vec(key, 0, 32);
    let n = slice_to_vec(key, 0, 24);
    open_with_nonce(msg, k.as_slice(), n.as_slice())
}

} // verus!
