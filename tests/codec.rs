use ssb_keys::codec::{
    decode_private, decode_public, decode_signature, encode_key, encode_signature, get_tag,
    hash_text, public_id, DecodeError,
};

fn hex(s: &str) -> Vec<u8> {
    (0..s.len() / 2).map(|i| u8::from_str_radix(&s[2 * i..2 * i + 2], 16).unwrap()).collect()
}

const RFC_PUBLIC: &str = "d75a980182b10ab7d54bfed3c964073a0ee172f3daa62325af021a68f707511a";

#[test]
fn encode_key_writes_base64_and_tag() {
    assert_eq!(encode_key(&hex(RFC_PUBLIC)), "11qYAYKxCrfVS/7TyWQHOg7hcvPapiMlrwIaaPcHURo=.ed25519");
    assert_eq!(
        encode_key(&[0u8; 32]),
        "AAAAAAAAAAAAAAAAAAAAAAAAAAAAAAAAAAAAAAAAAAA=.ed25519"
    );
}

#[test]
fn public_id_has_sigil() {
    assert_eq!(public_id(&hex(RFC_PUBLIC)), "@11qYAYKxCrfVS/7TyWQHOg7hcvPapiMlrwIaaPcHURo=.ed25519");
}

#[test]
fn decode_public_accepts_every_decoration() {
    let pk = hex(RFC_PUBLIC);
    for text in [
        "@11qYAYKxCrfVS/7TyWQHOg7hcvPapiMlrwIaaPcHURo=.ed25519",
        "11qYAYKxCrfVS/7TyWQHOg7hcvPapiMlrwIaaPcHURo=.ed25519",
        "@11qYAYKxCrfVS/7TyWQHOg7hcvPapiMlrwIaaPcHURo=",
        "11qYAYKxCrfVS/7TyWQHOg7hcvPapiMlrwIaaPcHURo=",
    ] {
        assert_eq!(decode_public(text), Ok(pk.clone()));
    }
}

#[test]
fn decode_round_trips_keys_and_signatures() {
    let public: Vec<u8> = (0..32).map(|i| i as u8 * 7).collect();
    let private: Vec<u8> = (0..64).map(|i| 255 - i as u8).collect();
    let sig: Vec<u8> = (0..64).map(|i| i as u8 * 3).collect();
    assert_eq!(decode_public(&encode_key(&public)), Ok(public.clone()));
    assert_eq!(decode_public(&public_id(&public)), Ok(public));
    assert_eq!(decode_private(&encode_key(&private)), Ok(private));
    assert_eq!(decode_signature(&encode_signature(&sig)), Ok(sig));
}

#[test]
fn encode_signature_uses_sig_tag() {
    let sig = hex("e5564300c360ac729086e2cc806e828a84877f1eb8e5d974d873e065224901555fb8821590a33bacc61e39701cf9b46bd25bf5f0595bbe24655141438e7a100b");
    assert_eq!(
        encode_signature(&sig),
        "5VZDAMNgrHKQhuLMgG6CioSHfx645dl02HPgZSJJAVVfuIIVkKM7rMYeOXAc+bRr0lv18FlbviRlUUFDjnoQCw==.sig.ed25519"
    );
}

#[test]
fn decode_rejects_malformed_base64() {
    assert_eq!(decode_public("not base64!.ed25519"), Err(DecodeError::Malformed));
    assert_eq!(decode_signature("%%%%.sig.ed25519"), Err(DecodeError::Malformed));
}

#[test]
fn decode_rejects_wrong_length() {
    assert_eq!(decode_public(&encode_key(&[1u8; 31])), Err(DecodeError::WrongLength));
    assert_eq!(decode_private(&encode_key(&[1u8; 32])), Err(DecodeError::WrongLength));
    assert_eq!(decode_public(""), Err(DecodeError::WrongLength));
}

#[test]
fn get_tag_returns_text_after_first_dot() {
    assert_eq!(get_tag("abc.ed25519"), Some("ed25519".to_string()));
    assert_eq!(get_tag("abc.sig.ed25519"), Some("sig.ed25519".to_string()));
    assert_eq!(get_tag("abc."), Some(String::new()));
    assert_eq!(get_tag("nodot"), None);
}

#[test]
fn hash_text_is_tagged_sha256() {
    assert_eq!(hash_text(b""), "47DEQpj8HBSa+/TImW+5JCeuQeRkm5NMpJWZG3hSuFU=.sha256");
    assert_eq!(hash_text(b"abc"), "ungWv48Bz+pBQUDeXa4iI7ADYaOWF3qctBD/YfIAFa0=.sha256");
}
