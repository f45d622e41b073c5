use ssb_keys::codec::{decode_private, encode_key};
use ssb_keys::keys::{keys_record, verify_signature, KeyError, Keypair};

fn hex(s: &str) -> Vec<u8> {
    (0..s.len() / 2).map(|i| u8::from_str_radix(&s[2 * i..2 * i + 2], 16).unwrap()).collect()
}

const RFC_SEED: &str = "9d61b19deffd5a60ba844af492ec2cc44449c5697b326919703bac031cae7f60";
const RFC_PUBLIC: &str = "d75a980182b10ab7d54bfed3c964073a0ee172f3daa62325af021a68f707511a";
const RFC_SIG: &str = "e5564300c360ac729086e2cc806e828a84877f1eb8e5d974d873e065224901555fb8821590a33bacc61e39701cf9b46bd25bf5f0595bbe24655141438e7a100b";

#[test]
fn seeded_generation_is_repeatable() {
    let seed = [7u8; 32];
    let a = Keypair::generate(Some(&seed)).unwrap();
    let b = Keypair::generate(Some(&seed)).unwrap();
    assert_eq!(a, b);
    assert_eq!(a.secret, seed.to_vec());
}

#[test]
fn seeded_generation_matches_known_vector() {
    let k = Keypair::generate(Some(&hex(RFC_SEED))).unwrap();
    assert_eq!(k.public, hex(RFC_PUBLIC));
    assert_eq!(k.sign(b""), hex(RFC_SIG));
}

#[test]
fn seed_of_wrong_length_is_refused() {
    assert_eq!(Keypair::generate(Some(&[1u8; 31])), Err(KeyError::SeedLength));
    assert_eq!(Keypair::generate(Some(&[1u8; 33])), Err(KeyError::SeedLength));
}

#[test]
fn random_keypairs_differ_and_sign() {
    let a = Keypair::generate(None).unwrap();
    let b = Keypair::generate(None).unwrap();
    assert_ne!(a.public, b.public);
    let sig = a.sign(b"hello");
    assert!(verify_signature(&a.public, &sig, b"hello"));
    assert!(!verify_signature(&b.public, &sig, b"hello"));
    assert!(!verify_signature(&a.public, &sig, b"hellp"));
}

#[test]
fn verify_signature_never_panics_on_bad_input() {
    let k = Keypair::generate(Some(&[3u8; 32])).unwrap();
    let mut sig = k.sign(b"m");
    assert!(!verify_signature(&k.public, &sig[..63], b"m"));
    assert!(!verify_signature(&k.public[..31], &sig, b"m"));
    sig[63] |= 0xe0;
    assert!(!verify_signature(&k.public, &sig, b"m"));
    let mut no_point = [0u8; 32];
    no_point[0] = 2;
    let good = k.sign(b"m");
    assert!(verify_signature(&k.public, &good, b"m"));
    assert!(!verify_signature(&no_point, &good, b"m"));
}

#[test]
fn keys_record_writes_text_forms() {
    let k = Keypair::generate(Some(&hex(RFC_SEED))).unwrap();
    let r = keys_record(&k);
    assert_eq!(r.curve, "ed25519");
    assert_eq!(r.id, "@11qYAYKxCrfVS/7TyWQHOg7hcvPapiMlrwIaaPcHURo=.ed25519");
    assert_eq!(r.public, "11qYAYKxCrfVS/7TyWQHOg7hcvPapiMlrwIaaPcHURo=.ed25519");
    assert_eq!(
        r.private,
        "nWGxne/9WmC6hEr0kuwsxERJxWl7MmkZcDusAxyuf2DXWpgBgrEKt9VL/tPJZAc6DuFy89qmIyWvAhpo9wdRGg==.ed25519"
    );
}

#[test]
fn private_text_round_trips() {
    let k = Keypair::generate(None).unwrap();
    let r = keys_record(&k);
    assert_eq!(Keypair::from_private(&r.private), Ok(k.clone()));
    let mut bytes = decode_private(&r.private).unwrap();
    assert_eq!(bytes[..32], k.secret[..]);
    bytes[40] ^= 1;
    assert_eq!(Keypair::from_private(&encode_key(&bytes)), Err(KeyError::Mismatch));
    assert!(matches!(Keypair::from_private("zz"), Err(KeyError::Decode(_))));
}

#[test]
fn from_private_bytes_checks_length_and_public_half() {
    let k = Keypair::generate(Some(&hex(RFC_SEED))).unwrap();
    let mut b = hex(RFC_SEED);
    b.extend(hex(RFC_PUBLIC));
    assert_eq!(Keypair::from_private_bytes(&b), Some(k));
    assert_eq!(Keypair::from_private_bytes(&b[..63]), None);
    b[63] ^= 1;
    assert_eq!(Keypair::from_private_bytes(&b), None);
}
