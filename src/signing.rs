//! Detached signatures over byte strings and records, optionally bound to a
//! network key by an HMAC taken before signing.

use vstd::prelude::*;
use vstd::utf8::encode_utf8;
use crate::codec::{
    base64_shaped, base64_text, decode_signature, decoded, encode_signature, encoded, sig_suffix,
    DecodeError,
};
use crate::json::{
    canonical, canonicalize, find_key, find_member, omit_key, signature_key,
    signature_key_string, JsonValue, Member,
};
use crate::bytes::slice_to_vec;
use crate::keys::{ed25519_signature, is_signature_of, signature_valid, verify_signature, Keypair};

verus! {

/// HMAC-SHA-512-256 of `msg` under a 32-byte key.
pub uninterp spec fn hmac_tag(key: Seq<u8>, msg: Seq<u8>) -> Seq<u8>;

/// Relies on `ssb_crypto::NetworkKey::authenticate`: a 32-byte tag that depends on the
/// key and the message alone. `NetworkKey::from_slice` accepts any 32 bytes.
#[verifier::external_body]
fn authenticate(key: &[u8], msg: &[u8]) -> (r: Vec<u8>)
    requires
        key@.len() == 32,
    ensures
        r@ == hmac_tag(key@, msg@),
        r@.len() == 32,
{
    ssb_crypto::NetworkKey::from_slice(key).unwrap().authenticate(msg).0.to_vec()
}

/// The view of an optional network key.
pub open spec fn key_view(nk: Option<&[u8]>) -> Option<Seq<u8>> {
    match nk {
        Some(k) => Some(k@),
        None => None,
    }
}

/// A network key, where there is one, is 32 bytes long.
pub open spec fn network_key_ok(nk: Option<Seq<u8>>) -> bool {
    match nk {
        Some(k) => k.len() == 32,
        None => true,
    }
}

/// What is signed for `msg`: the HMAC tag of `msg` under the network key where there is
/// one, else `msg` itself.
pub open spec fn signed_message(msg: Seq<u8>, nk: Option<Seq<u8>>) -> Seq<u8> {
    match nk {
        Some(k) => hmac_tag(k, msg),
        None => msg,
    }
}

/// The signature that `k` makes over `msg` under the network key `nk`.
pub open spec fn signature_for(k: Keypair, msg: Seq<u8>, nk: Option<Seq<u8>>) -> Seq<u8> {
    ed25519_signature(k.secret@, k.public@, signed_message(msg, nk))
}

/// Why signing could not start.
#[derive(Clone, Copy, Debug, PartialEq, Eq, Structural)]
pub enum SignError {
    /// The network key is not 32 bytes long.
    NetworkKeyLength,
}

/// Why a signature could not be checked at all (as opposed to being checked and
/// found wrong).
#[derive(Clone, Copy, Debug, PartialEq, Eq, Structural)]
pub enum VerifyError {
    /// The network key is not 32 bytes long.
    NetworkKeyLength,
    /// The record has no `signature` member.
    MissingSignature,
    /// The `signature` member is not a string.
    SignatureNotText,
    /// The signature's text form could not be read.
    BadSignature(DecodeError),
}

/// The bytes to sign or check for `msg`.
fn message_for(msg: &[u8], nk: Option<&[u8]>) -> (r: Vec<u8>)
    requires
        network_key_ok(key_view(nk)),
    ensures
        r@ == signed_message(msg@, key_view(nk)),
{
    match nk {
        Some(k) => authenticate(k, msg),
        None => slice_to_vec(msg, 0, msg.len()),
    }
}

/// Signs `msg`, through the HMAC of the network key where one is given.
pub fn sign_bytes(k: &Keypair, msg: &[u8], nk: Option<&[u8]>) -> (r: Result<Vec<u8>, SignError>)
    requires
        k.wf(),
    ensures
        r is Err <==> !network_key_ok(key_view(nk)),
        r is Err ==> r == Err::<Vec<u8>, SignError>(SignError::NetworkKeyLength),
        r matches Ok(sig) ==> sig@ == signature_for(*k, msg@, key_view(nk)) && is_signature_of(
            *k,
            signed_message(msg@, key_view(nk)),
            sig@,
        ),
{
    if let Some(key) = nk {
        if key.len() != 32 {
            return Err(SignError::NetworkKeyLength);
        }
    }
    let m = message_for(msg, nk);
    Ok(k.sign(m.as_slice()))
}

/// Checks a signature of `msg`, through the HMAC of the network key where one is given.
pub fn verify_bytes(public: &[u8], sig: &[u8], msg: &[u8], nk: Option<&[u8]>) -> (r: Result<
    bool,
    SignError,
>)
    ensures
        r is Err <==> !network_key_ok(key_view(nk)),
        r is Err ==> r == Err::<bool, SignError>(SignError::NetworkKeyLength),
        r matches Ok(b) ==> b == signature_valid(
            public@,
            sig@,
            signed_message(msg@, key_view(nk)),
        ),
        forall|k: Keypair|
            public@ == k.public@ && network_key_ok(key_view(nk)) && #[trigger] is_signature_of(
                k,
                signed_message(msg@, key_view(nk)),
                sig@,
            ) ==> r == Ok::<bool, SignError>(true),
{
    if let Some(key) = nk {
        if key.len() != 32 {
            return Err(SignError::NetworkKeyLength);
        }
    }
    let m = message_for(msg, nk);
    Ok(verify_signature(public, sig, m.as_slice()))
}

/// Signs the UTF-8 bytes of `text`; the signature comes in its text form
/// `<base64>.sig.ed25519`.
pub fn sign_detached(k: &Keypair, text: &str, nk: Option<&[u8]>) -> (r: Result<String, SignError>)
    requires
        k.wf(),
    ensures
        r is Err <==> !network_key_ok(key_view(nk)),
        r is Err ==> r == Err::<String, SignError>(SignError::NetworkKeyLength),
        r matches Ok(s) ==> s@ == encoded(
            signature_for(*k, encode_utf8(text@), key_view(nk)),
            sig_suffix(),
        ) && is_signature_of(
            *k,
            signed_message(encode_utf8(text@), key_view(nk)),
            signature_for(*k, encode_utf8(text@), key_view(nk)),
        ) && base64_shaped(base64_text(signature_for(*k, encode_utf8(text@), key_view(nk)))),
{
    match sign_bytes(k, text.as_bytes(), nk) {
        Err(e) => Err(e),
        Ok(sig) => Ok(encode_signature(sig.as_slice())),
    }
}

/// What checking a detached signature in text form yields.
pub open spec fn detached_result(
    public: Seq<u8>,
    sig_text: Seq<char>,
    msg: Seq<u8>,
    nk: Option<Seq<u8>>,
) -> Result<bool, VerifyError> {
    if !network_key_ok(nk) {
        Err(VerifyError::NetworkKeyLength)
    } else {
        match decoded(sig_text, sig_suffix(), 64) {
            Err(e) => Err(VerifyError::BadSignature(e)),
            Ok(sig) => Ok(signature_valid(public, sig, signed_message(msg, nk))),
        }
    }
}

/// Checks a detached signature in text form over the UTF-8 bytes of `text`.
pub fn verify_detached(public: &[u8], sig_text: &str, text: &str, nk: Option<&[u8]>) -> (r: Result<
    bool,
    VerifyError,
>)
    ensures
        r == detached_result(public@, sig_text@, encode_utf8(text@), key_view(nk)),
        forall|k: Keypair|
            #![trigger is_signature_of(k, signed_message(encode_utf8(text@), key_view(nk)), signature_for(k, encode_utf8(text@), key_view(nk)))]
            public@ == k.public@ && network_key_ok(key_view(nk)) && is_signature_of(
                k,
                signed_message(encode_utf8(text@), key_view(nk)),
                signature_for(k, encode_utf8(text@), key_view(nk)),
            ) && base64_shaped(base64_text(signature_for(k, encode_utf8(text@), key_view(nk))))
                && sig_text@ == encoded(signature_for(k, encode_utf8(text@), key_view(nk)), sig_suffix())
                ==> r == Ok::<bool, VerifyError>(true),
{
    if let Some(key) = nk {
        if key.len() != 32 {
            return Err(VerifyError::NetworkKeyLength);
        }
    }
    match decode_signature(sig_text) {
        Err(e) => Err(VerifyError::BadSignature(e)),
        Ok(sig) => match verify_bytes(public, sig.as_slice(), text.as_bytes(), nk) {
            Ok(b) => Ok(b),
            Err(_) => Err(VerifyError::NetworkKeyLength),
        },
    }
}

/// The text of a record's first `signature` member, where that member is a string.
pub open spec fn signature_text(ms: Seq<Member>) -> Option<Seq<char>> {
    match find_key(ms, signature_key()) {
        Some(i) => match ms[i].value {
            JsonValue::Str(s) => Some(s@),
            _ => None,
        },
        None => None,
    }
}

/// Replacing a member by one with the same key keeps where each key is found first.
proof fn lemma_find_key_same_keys(a: Seq<Member>, b: Seq<Member>, key: Seq<char>)
    requires
        a.len() == b.len(),
        forall|j: int| 0 <= j < a.len() ==> (#[trigger] a[j]).key@ == b[j].key@,
    ensures
        find_key(a, key) == find_key(b, key),
    decreases a.len(),
{
    if a.len() > 0 {
        lemma_find_key_same_keys(a.drop_last(), b.drop_last(), key);
    }
}

/// Replacing a member that has `key` by another that has it changes nothing once the
/// members with `key` are left out.
proof fn lemma_omit_update(ms: Seq<Member>, i: int, m: Member, key: Seq<char>)
    requires
        0 <= i < ms.len(),
        ms[i].key@ == key,
        m.key@ == key,
    ensures
        omit_key(ms.update(i, m), key) == omit_key(ms, key),
    decreases ms.len(),
{
    let u = ms.update(i, m);
    if i < ms.len() - 1 {
        lemma_omit_update(ms.drop_last(), i, m, key);
        assert(u.drop_last() =~= ms.drop_last().update(i, m));
    } else {
        assert(u.drop_last() =~= ms.drop_last());
    }
}

/// Signs a record: the signature covers the record without its `signature` member,
/// and is written into that member (the first one, or a new last one), replacing
/// whatever it held. The other members stay as they were, in order.
pub fn sign_record(k: &Keypair, record: Vec<Member>, nk: Option<&[u8]>) -> (r: Result<
    Vec<Member>,
    SignError,
>)
    requires
        k.wf(),
    ensures
        r is Err <==> !network_key_ok(key_view(nk)),
        r is Err ==> r == Err::<Vec<Member>, SignError>(SignError::NetworkKeyLength),
        r matches Ok(signed) ==> omit_key(signed@, signature_key()) == omit_key(
            record@,
            signature_key(),
        ) && canonical(signed@) == canonical(record@) && signature_text(signed@) == Some(
            encoded(signature_for(*k, canonical(record@), key_view(nk)), sig_suffix()),
        ) && is_signature_of(
            *k,
            signed_message(canonical(record@), key_view(nk)),
            signature_for(*k, canonical(record@), key_view(nk)),
        ) && base64_shaped(base64_text(signature_for(*k, canonical(record@), key_view(nk)))),
{
    let mut record = record;
    let ghost before = record@;
    let msg = canonicalize(&record);
    let sig = match sign_bytes(k, msg.as_slice(), nk) {
        Err(e) => {
            return Err(e);
        },
        Ok(sig) => sig,
    };
    let text = encode_signature(sig.as_slice());
    let key = signature_key_string();
    let ghost sk = signature_key();
    match find_member(&record, &key) {
        Some(i) => {
            let m = Member { key: signature_key_string(), value: JsonValue::Str(text) };
            let ghost gm = m;
            record[i] = m;
            proof {
                lemma_omit_update(before, i as int, gm, sk);
                lemma_find_key_same_keys(before, before.update(i as int, gm), sk);
            }
        },
        None => {
            let m = Member { key, value: JsonValue::Str(text) };
            record.push(m);
            assert(record@.drop_last() =~= before);
        },
    }
    Ok(record)
}

/// What checking a record's signature yields.
pub open spec fn record_result(public: Seq<u8>, ms: Seq<Member>, nk: Option<Seq<u8>>) -> Result<
    bool,
    VerifyError,
> {
    if !network_key_ok(nk) {
        Err(VerifyError::NetworkKeyLength)
    } else {
        match find_key(ms, signature_key()) {
            None => Err(VerifyError::MissingSignature),
            Some(i) => match ms[i].value {
                JsonValue::Str(s) => match decoded(s@, sig_suffix(), 64) {
                    Err(e) => Err(VerifyError::BadSignature(e)),
                    Ok(sig) => Ok(signature_valid(public, sig, signed_message(canonical(ms), nk))),
                },
                _ => Err(VerifyError::SignatureNotText),
            },
        }
    }
}

/// Checks the signature of a record: reads its `signature` member, leaves it out, and
/// checks the signature over the rest as `sign_record` wrote it. A record that
/// `sign_record` returned for `k` passes under `k`'s public key and the same network key.
pub fn verify_record(public: &[u8], record: &Vec<Member>, nk: Option<&[u8]>) -> (r: Result<
    bool,
    VerifyError,
>)
    ensures
        r == record_result(public@, record@, key_view(nk)),
        forall|k: Keypair|
            #![trigger signature_for(k, canonical(record@), key_view(nk))]
            public@ == k.public@ && network_key_ok(key_view(nk)) && is_signature_of(
                k,
                signed_message(canonical(record@), key_view(nk)),
                signature_for(k, canonical(record@), key_view(nk)),
            ) && base64_shaped(base64_text(signature_for(k, canonical(record@), key_view(nk))))
                && signature_text(record@) == Some(
                encoded(signature_for(k, canonical(record@), key_view(nk)), sig_suffix()),
            ) ==> r == Ok::<bool, VerifyError>(true),
{
    if let Some(key) = nk {
        if key.len() != 32 {
            return Err(VerifyError::NetworkKeyLength);
        }
    }
    let key = signature_key_string();
    let i = match find_member(record, &key) {
        None => {
            return Err(VerifyError::MissingSignature);
        },
        Some(i) => i,
    };
    let sig = match &record[i].value {
        JsonValue::Str(s) => match decode_signature(s.as_str()) {
            Err(e) => {
                return Err(VerifyError::BadSignature(e));
            },
            Ok(sig) => sig,
        },
        _ => {
            return Err(VerifyError::SignatureNotText);
        },
    };
    let msg = canonicalize(record);
    match verify_bytes(public, sig.as_slice(), msg.as_slice(), nk) {
        Ok(b) => Ok(b),
        Err(_) => Err(VerifyError::NetworkKeyLength),
    }
}

} // verus!
