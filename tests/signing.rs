use ssb_keys::codec::{decode_signature, encode_signature};
use ssb_keys::json::{canonicalize, to_pretty_text, JsonValue, Member};
use ssb_keys::keys::Keypair;
use ssb_keys::signing::{
    sign_bytes, sign_detached, sign_record, verify_bytes, verify_detached, verify_record,
    SignError, VerifyError,
};

fn s(t: &str) -> JsonValue {
    JsonValue::Str(t.to_string())
}

fn m(k: &str, v: JsonValue) -> Member {
    Member { key: k.to_string(), value: v }
}

fn post(text: &str) -> Vec<Member> {
    vec![m("type", s("post")), m("text", s(text))]
}

fn field<'a>(r: &'a [Member], k: &str) -> &'a JsonValue {
    &r.iter().find(|x| x.key == k).unwrap().value
}

#[test]
fn canonical_text_of_simple_record() {
    assert_eq!(
        String::from_utf8(canonicalize(&post("hi"))).unwrap(),
        "{\n  \"type\": \"post\",\n  \"text\": \"hi\"\n}"
    );
}

#[test]
fn canonical_text_leaves_out_signature_and_keeps_order() {
    let r = vec![m("z", JsonValue::Number(1)), m("signature", s("x")), m("a", JsonValue::Null)];
    assert_eq!(String::from_utf8(canonicalize(&r)).unwrap(), "{\n  \"z\": 1,\n  \"a\": null\n}");
    assert_eq!(String::from_utf8(canonicalize(&vec![m("signature", s("x"))])).unwrap(), "{}");
    assert_eq!(String::from_utf8(canonicalize(&vec![])).unwrap(), "{}");
}

#[test]
fn pretty_text_of_nested_values() {
    let v = JsonValue::Object(vec![
        m("n", JsonValue::Number(-1234567890123)),
        m("list", JsonValue::Array(vec![JsonValue::Bool(true), JsonValue::Bool(false), JsonValue::Array(vec![])])),
        m("o", JsonValue::Object(vec![m("k", JsonValue::Object(vec![]))])),
        m("min", JsonValue::Number(i64::MIN)),
    ]);
    let expected = "{\n  \"n\": -1234567890123,\n  \"list\": [\n    true,\n    false,\n    []\n  ],\n  \"o\": {\n    \"k\": {}\n  },\n  \"min\": -9223372036854775808\n}";
    assert_eq!(String::from_utf8(to_pretty_text(&v)).unwrap(), expected);
}

#[test]
fn pretty_text_escapes_strings() {
    let v = s("a\"b\\c\nd\te\u{1}f\u{8}\u{c}\r\u{1f}é€😀");
    assert_eq!(
        String::from_utf8(to_pretty_text(&v)).unwrap(),
        "\"a\\\"b\\\\c\\nd\\te\\u0001f\\b\\f\\r\\u001fé€😀\""
    );
    assert_eq!(String::from_utf8(to_pretty_text(&JsonValue::Number(0))).unwrap(), "0");
}

#[test]
fn signed_record_verifies() {
    let k = Keypair::generate(None).unwrap();
    let signed = sign_record(&k, post("hello"), None).unwrap();
    assert_eq!(verify_record(&k.public, &signed, None), Ok(true));
    assert_eq!(canonicalize(&signed), canonicalize(&post("hello")));
}

#[test]
fn signed_record_verifies_under_network_key() {
    let k = Keypair::generate(None).unwrap();
    let nk = [9u8; 32];
    let signed = sign_record(&k, post("hello"), Some(&nk)).unwrap();
    assert_eq!(verify_record(&k.public, &signed, Some(&nk)), Ok(true));
    assert_eq!(verify_record(&k.public, &signed, None), Ok(false));
}

#[test]
fn record_signed_under_one_network_fails_under_another() {
    let k = Keypair::generate(None).unwrap();
    let n1 = [1u8; 32];
    let n2 = [2u8; 32];
    let signed = sign_record(&k, post("hello"), Some(&n1)).unwrap();
    assert_eq!(verify_record(&k.public, &signed, Some(&n2)), Ok(false));
}

#[test]
fn zero_seed_post_scenario() {
    let k = Keypair::generate(Some(&[0u8; 32])).unwrap();
    let signed = sign_record(&k, post("hi"), None).unwrap();
    assert!(matches!(field(&signed, "signature"), JsonValue::Str(t) if t.ends_with(".sig.ed25519")));
    assert_eq!(verify_record(&k.public, &signed, None), Ok(true));
    let mut flipped = signed;
    for x in flipped.iter_mut() {
        if x.key == "text" {
            x.value = s("hj");
        }
    }
    assert_eq!(verify_record(&k.public, &flipped, None), Ok(false));
}

#[test]
fn sign_record_overwrites_old_signature_in_place() {
    let k = Keypair::generate(Some(&[5u8; 32])).unwrap();
    let r = vec![m("signature", s("old")), m("type", s("post"))];
    let signed = sign_record(&k, r, None).unwrap();
    assert_eq!(signed.len(), 2);
    assert_eq!(signed[0].key, "signature");
    assert_ne!(signed[0].value, s("old"));
    assert_eq!(verify_record(&k.public, &signed, None), Ok(true));
    let fresh = sign_record(&k, vec![m("type", s("post"))], None).unwrap();
    assert_eq!(fresh[1].value, signed[0].value);
}

#[test]
fn verify_record_reports_malformed_signatures() {
    let k = Keypair::generate(None).unwrap();
    assert_eq!(verify_record(&k.public, &post("x"), None), Err(VerifyError::MissingSignature));
    let mut r = post("x");
    r.push(m("signature", JsonValue::Number(3)));
    assert_eq!(verify_record(&k.public, &r, None), Err(VerifyError::SignatureNotText));
    let mut r = post("x");
    r.push(m("signature", s("@@@.sig.ed25519")));
    assert!(matches!(verify_record(&k.public, &r, None), Err(VerifyError::BadSignature(_))));
    let signed = sign_record(&k, post("x"), None).unwrap();
    assert_eq!(
        verify_record(&k.public, &signed, Some(&[1u8; 31])),
        Err(VerifyError::NetworkKeyLength)
    );
}

#[test]
fn network_key_of_wrong_length_is_refused() {
    let k = Keypair::generate(None).unwrap();
    assert_eq!(sign_record(&k, post("x"), Some(&[0u8; 33])), Err(SignError::NetworkKeyLength));
    assert_eq!(sign_bytes(&k, b"x", Some(&[0u8; 3])), Err(SignError::NetworkKeyLength));
    assert_eq!(sign_detached(&k, "x", Some(&[])), Err(SignError::NetworkKeyLength));
    assert_eq!(verify_bytes(&k.public, &[0u8; 64], b"x", Some(&[0u8; 1])), Err(SignError::NetworkKeyLength));
}

#[test]
fn network_key_signs_the_hmac_tag() {
    let k = Keypair::generate(Some(&[8u8; 32])).unwrap();
    let mut key = [0u8; 32];
    key[..4].copy_from_slice(&[74, 101, 102, 101]);
    let tag = [
        22u8, 75, 122, 123, 252, 248, 25, 226, 227, 149, 251, 231, 59, 86, 224, 163, 135, 189, 100,
        34, 46, 131, 31, 214, 16, 39, 12, 215, 234, 37, 5, 84,
    ];
    let via_key = sign_bytes(&k, b"what do ya want for nothing?", Some(&key)).unwrap();
    assert_eq!(via_key, k.sign(&tag));
    assert_eq!(sign_bytes(&k, b"abc", None).unwrap(), k.sign(b"abc"));
}

#[test]
fn detached_signature_round_trip() {
    let k = Keypair::generate(None).unwrap();
    let sig = sign_detached(&k, "a plain message", None).unwrap();
    assert!(sig.ends_with(".sig.ed25519"));
    assert_eq!(verify_detached(&k.public, &sig, "a plain message", None), Ok(true));
    assert_eq!(verify_detached(&k.public, &sig, "a plain messagf", None), Ok(false));
    let nk = [4u8; 32];
    let sig = sign_detached(&k, "m", Some(&nk)).unwrap();
    assert_eq!(verify_detached(&k.public, &sig, "m", Some(&nk)), Ok(true));
    assert_eq!(verify_detached(&k.public, &sig, "m", None), Ok(false));
    assert!(matches!(verify_detached(&k.public, "???", "m", None), Err(VerifyError::BadSignature(_))));
    let raw = decode_signature(&sig).unwrap();
    assert_eq!(encode_signature(&raw), sig);
}
