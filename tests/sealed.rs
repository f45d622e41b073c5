use ssb_keys::codec::encode_key;
use ssb_keys::keys::Keypair;
use ssb_keys::sealed::{
    box_message, decrypt, decrypt_body, decrypt_key, dh_secret_key, encrypt, encrypt_with, unbox,
    unbox_body, unbox_key, KeySlot,
};

fn keypairs(n: u8) -> Vec<Keypair> {
    (0..n).map(|i| Keypair::generate(Some(&[i + 1; 32])).unwrap()).collect()
}

#[test]
fn every_recipient_decrypts_and_others_do_not() {
    let outsider = Keypair::generate(Some(&[200u8; 32])).unwrap();
    for n in 1..=10u8 {
        let ks = keypairs(n);
        let recps: Vec<Vec<u8>> = ks.iter().map(|k| k.public.clone()).collect();
        let msg = format!("message for {} recipients", n).into_bytes();
        let boxed = encrypt(&msg, &recps);
        assert_eq!(boxed.len(), 24 + 32 + 49 * n as usize + 16 + msg.len());
        for k in &ks {
            assert_eq!(decrypt(&boxed, k), Some(msg.clone()));
        }
        assert_eq!(decrypt(&boxed, &outsider), None);
    }
}

#[test]
fn tampered_body_is_refused_for_every_recipient() {
    let ks = keypairs(3);
    let recps: Vec<Vec<u8>> = ks.iter().map(|k| k.public.clone()).collect();
    let boxed = encrypt(b"hello body", &recps);
    let body_start = 24 + 32 + 49 * 3;
    for i in body_start..boxed.len() {
        let mut t = boxed.clone();
        t[i] ^= 0x40;
        for k in &ks {
            let slot = decrypt_key(&t, k).unwrap();
            assert_eq!(decrypt_body(&t, &slot), None);
        }
    }
}

#[test]
fn no_recipients_gives_an_empty_envelope() {
    let boxed = encrypt(b"nobody", &vec![]);
    assert_eq!(boxed.len(), 24 + 32 + 16 + 6);
    assert_eq!(decrypt(&boxed, &keypairs(1)[0]), None);
}

#[test]
fn unmappable_recipients_are_left_out() {
    let ks = keypairs(1);
    let recps = vec![vec![0u8; 32], ks[0].public.clone(), vec![1u8; 5]];
    let boxed = encrypt(b"m", &recps);
    assert_eq!(boxed.len(), 24 + 32 + 49 + 16 + 1);
    assert_eq!(decrypt(&boxed, &ks[0]), Some(b"m".to_vec()));
}

#[test]
fn encrypt_with_lays_out_header() {
    let ks = keypairs(2);
    let recps: Vec<Vec<u8>> = ks.iter().map(|k| k.public.clone()).collect();
    let nonce = [1u8; 24];
    let eph = Keypair::generate(Some(&[50u8; 32])).unwrap();
    let eph_secret = [9u8; 32];
    let eph_public = [7u8; 32];
    let key = [3u8; 32];
    let a = encrypt_with(b"xyz", &recps, &nonce, &eph_public, &eph_secret, &key);
    let b = encrypt_with(b"xyz", &recps, &nonce, &eph_public, &eph_secret, &key);
    assert_eq!(a, b);
    assert_eq!(&a[..24], &nonce);
    assert_eq!(&a[24..56], &eph_public);
    assert_eq!(a.len(), 56 + 2 * 49 + 16 + 3);
    assert_ne!(eph.public, ks[0].public);
}

#[test]
fn key_slot_then_body() {
    let ks = keypairs(2);
    let recps: Vec<Vec<u8>> = ks.iter().map(|k| k.public.clone()).collect();
    let boxed = encrypt(b"cached key", &recps);
    let slot = decrypt_key(&boxed, &ks[1]).unwrap();
    assert_eq!(slot.recipient_count, 2);
    assert_eq!(slot.payload_key.len(), 32);
    let bytes = slot.to_bytes();
    assert_eq!(bytes.len(), 33);
    assert_eq!(KeySlot::from_bytes(&bytes), Some(slot.clone()));
    assert_eq!(KeySlot::from_bytes(&bytes[..32]), None);
    assert_eq!(decrypt_body(&boxed, &slot), Some(b"cached key".to_vec()));
    assert_eq!(decrypt_key(&boxed, &ks[0]).unwrap(), slot);
}

#[test]
fn short_messages_are_none() {
    let k = &keypairs(1)[0];
    assert_eq!(decrypt(&[], k), None);
    assert_eq!(decrypt(&[0u8; 55], k), None);
    assert_eq!(decrypt_key(&[0u8; 56], k), None);
    let slot = KeySlot { recipient_count: 3, payload_key: vec![0u8; 32] };
    assert_eq!(decrypt_body(&[0u8; 100], &slot), None);
    let bad = KeySlot { recipient_count: 0, payload_key: vec![0u8; 31] };
    assert_eq!(decrypt_body(&[0u8; 100], &bad), None);
}

#[test]
fn text_boxes_round_trip() {
    let ks = keypairs(2);
    let recps = vec![
        format!("@{}", encode_key(&ks[0].public)),
        encode_key(&ks[1].public),
        "not a key".to_string(),
    ];
    let text = box_message(b"{\"type\":\"post\"}", &recps);
    assert!(text.ends_with(".box"));
    for k in &ks {
        assert_eq!(unbox(&text, k), Some(b"{\"type\":\"post\"}".to_vec()));
        let slot = unbox_key(&text, k).unwrap();
        assert_eq!(slot.recipient_count, 2);
        assert_eq!(unbox_body(&text, &slot), Some(b"{\"type\":\"post\"}".to_vec()));
    }
    assert_eq!(unbox("!!!.box", &ks[0]), None);
    assert_eq!(unbox(&text, &Keypair::generate(None).unwrap()), None);
}

#[test]
fn dh_secret_key_matches_known_value() {
    let seed: Vec<u8> = (0..32)
        .map(|i| u8::from_str_radix(&"9d61b19deffd5a60ba844af492ec2cc44449c5697b326919703bac031cae7f60"[2 * i..2 * i + 2], 16).unwrap())
        .collect();
    let k = Keypair::generate(Some(&seed)).unwrap();
    let expected: Vec<u8> = (0..32)
        .map(|i| u8::from_str_radix(&"307c83864f2833cb427a2ef1c00a013cfdff2768d980c0a3a520f006904de94f"[2 * i..2 * i + 2], 16).unwrap())
        .collect();
    assert_eq!(dh_secret_key(&k), Ok(expected));
}

#[test]
fn dh_secret_key_is_deterministic() {
    let k = &keypairs(1)[0];
    let a = dh_secret_key(k).unwrap();
    assert_eq!(a.len(), 32);
    assert_eq!(dh_secret_key(k).unwrap(), a);
    assert_ne!(a, k.secret);
}

#[test]
fn body_opens_under_payload_key_and_resolved_count() {
    let ks = keypairs(2);
    let recps = vec![ks[0].public.clone(), vec![0u8; 32], ks[1].public.clone()];
    let key = [11u8; 32];
    let boxed = encrypt_with(b"body", &recps, &[2u8; 24], &[3u8; 32], &[4u8; 32], &key);
    let slot = KeySlot { recipient_count: 2, payload_key: key.to_vec() };
    assert_eq!(decrypt_body(&boxed, &slot), Some(b"body".to_vec()));
    let wrong_count = KeySlot { recipient_count: 3, payload_key: key.to_vec() };
    assert_eq!(decrypt_body(&boxed, &wrong_count), None);
}
