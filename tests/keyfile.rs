use ssb_keys::keyfile::{
    create_key_file, key_file_target, load_or_create_step, read_key_file, KeyFileError,
    LoadOrCreate,
};
use ssb_keys::keys::{keys_record, Keypair};

#[test]
fn second_create_at_same_path_is_refused() {
    let first = create_key_file(false);
    assert!(first.is_ok());
    assert_eq!(create_key_file(true), Err(KeyFileError::AlreadyExists));
}

#[test]
fn key_file_text_reads_back() {
    let f = create_key_file(false).unwrap();
    assert_eq!(read_key_file(&f.text), Ok(f.keypair.clone()));
    let r = keys_record(&f.keypair);
    assert!(f.text.contains(&r.private));
    assert!(f.text.contains(&r.id));
}

#[test]
fn corrupt_key_file_is_reported() {
    assert_eq!(read_key_file("# only a comment\n"), Err(KeyFileError::Corrupt));
    assert_eq!(read_key_file("{\"private\": \"abc\"}"), Err(KeyFileError::Corrupt));
    let k = Keypair::generate(Some(&[1u8; 32])).unwrap();
    let mut other = keys_record(&Keypair::generate(Some(&[2u8; 32])).unwrap()).private;
    other.replace_range(0..4, &keys_record(&k).private[0..4]);
    let text = format!("{{\"private\": \"{}\"}}", other);
    assert_eq!(read_key_file(&text), Err(KeyFileError::Corrupt));
}

#[test]
fn key_file_target_joins_secret_for_directories() {
    assert_eq!(key_file_target("/tmp/x", true), "/tmp/x/secret");
    assert_eq!(key_file_target("/tmp/x/", true), "/tmp/x/secret");
    assert_eq!(key_file_target("", true), "secret");
    assert_eq!(key_file_target("/tmp/x/secret", false), "/tmp/x/secret");
}

#[test]
fn load_or_create_decisions() {
    let k = Keypair::generate(None).unwrap();
    assert_eq!(load_or_create_step(Ok(k.clone()), false), LoadOrCreate::Loaded(k));
    assert_eq!(load_or_create_step(Err(KeyFileError::NotFound), false), LoadOrCreate::Create);
    assert_eq!(
        load_or_create_step(Err(KeyFileError::Corrupt), false),
        LoadOrCreate::Fail(KeyFileError::Corrupt)
    );
    assert_eq!(load_or_create_step(Err(KeyFileError::Corrupt), true), LoadOrCreate::Create);
    assert_eq!(load_or_create_step(Err(KeyFileError::Io), true), LoadOrCreate::Fail(KeyFileError::Io));
}
