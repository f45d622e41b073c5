//! The key file: where it lives, its text, and the decisions of creating and loading it.
//! The file system itself is the caller's.

use vstd::prelude::*;
use crate::keys::{ed25519_public, Keypair};

verus! {

/// The text of a key file holding the keypair with these 64 private-key bytes.
pub uninterp spec fn keyfile_text(private: Seq<u8>) -> Seq<char>;

/// The 64 private-key bytes that a key file's text holds, if it can be read.
pub uninterp spec fn keyfile_private(text: Seq<char>) -> Option<Seq<u8>>;

/// Relies on `ssb_keyfile::write_to_string`: the commented JSON text of a key file, a
/// function of the keypair alone.
#[verifier::external_body]
fn write_keyfile(k: &Keypair) -> (r: String)
    requires
        k.secret@.len() == 32,
        k.public@.len() == 32,
    ensures
        r@ == keyfile_text(k.private_bytes()),
{
    let kp = ssb_crypto::Keypair {
        secret: ssb_crypto::SecretKey(k.secret.as_slice().try_into().unwrap()),
        public: ssb_crypto::PublicKey(k.public.as_slice().try_into().unwrap()),
    };
    ssb_keyfile::write_to_string(&kp)
}

/// Relies on `ssb_keyfile::read_from_str`: the keypair of a key file's text, as its 64
/// private-key bytes (seed, then public key).
#[verifier::external_body]
fn read_keyfile(text: &str) -> (r: Option<Vec<u8>>)
    ensures
        crate::codec::opt_bytes(r) == keyfile_private(text@),
        r matches Some(v) ==> v@.len() == 64,
{
    ssb_keyfile::read_from_str(text).ok().map(|kp| [kp.secret.0, kp.public.0].concat())
}

/// Why a key file could not be created or loaded.
#[derive(Clone, Copy, Debug, PartialEq, Eq, Structural)]
pub enum KeyFileError {
    /// There is no key file.
    NotFound,
    /// A key file is there already and is left untouched.
    AlreadyExists,
    /// The key file cannot be read as a keypair.
    Corrupt,
    /// The file system failed otherwise.
    Io,
}

/// The name of the key file inside a directory.
pub open spec fn secret_name() -> Seq<char> {
    seq!['s', 'e', 'c', 'r', 'e', 't']
}

/// `path` joined with `name`, with one `/` between them.
pub open spec fn joined(path: Seq<char>, name: Seq<char>) -> Seq<char> {
    if path.len() == 0 {
        name
    } else if path.last() == '/' {
        path + name
    } else {
        path + seq!['/'] + name
    }
}

/// The file that a path names: the path itself, or the file `secret` inside it where
/// it is a directory.
pub fn key_file_target(path: &str, is_dir: bool) -> (r: String)
    ensures
        r@ == if is_dir {
            joined(path@, secret_name())
        } else {
            path@
        },
{
    let p = String::from_str(path);
    if !is_dir {
        return p;
    }
    let name = "secret";
    proof {
        reveal_strlit("secret");
        assert(name@ =~= secret_name());
    }
    let n = path.unicode_len();
    if n == 0 {
        return String::from_str(name);
    }
    if path.get_char(n - 1) == '/' {
        p.concat(name)
    } else {
        let slash = "/";
        proof {
            reveal_strlit("/");
        }
        let with_slash = p.concat(slash);
        assert(with_slash@ =~= path@ + seq!['/']);
        with_slash.concat(name)
    }
}

/// A keypair and the text of the key file to write for it.
#[derive(Clone, Debug, PartialEq, Eq)]
pub struct NewKeyFile {
    pub keypair: Keypair,
    pub text: String,
}

/// Creating a key file: refused where the target exists already, so that an identity is
/// never overwritten; otherwise a fresh keypair and the text to write for it.
pub fn create_key_file(target_exists: bool) -> (r: Result<NewKeyFile, KeyFileError>)
    ensures
        r is Err <==> target_exists,
        r is Err ==> r == Err::<NewKeyFile, KeyFileError>(KeyFileError::AlreadyExists),
        r matches Ok(f) ==> f.keypair.wf() && f.text@ == keyfile_text(f.keypair.private_bytes()),
{
    if target_exists {
        return Err(KeyFileError::AlreadyExists);
    }
    let keypair = Keypair::random();
    let text = write_keyfile(&keypair);
    Ok(NewKeyFile { keypair, text })
}

/// Reads the keypair of a key file's text; `Corrupt` where the text cannot be read or
/// its public key is not the one its seed yields.
pub fn read_key_file(text: &str) -> (r: Result<Keypair, KeyFileError>)
    ensures
        r matches Ok(k) ==> k.wf() && keyfile_private(text@) == Some(k.private_bytes()),
        r is Ok <==> (keyfile_private(text@) matches Some(b) && b.subrange(32, 64)
            == ed25519_public(b.subrange(0, 32))),
        r is Err ==> r == Err::<Keypair, KeyFileError>(KeyFileError::Corrupt),
{
    match read_keyfile(text) {
        None => Err(KeyFileError::Corrupt),
        Some(b) => match Keypair::from_private_bytes(b.as_slice()) {
            Some(k) => Ok(k),
            None => Err(KeyFileError::Corrupt),
        },
    }
}

/// What to do after trying to load a key file.
#[derive(Clone, Debug, PartialEq, Eq)]
pub enum LoadOrCreate {
    /// The key file was loaded.
    Loaded(Keypair),
    /// Create a new key file.
    Create,
    /// Give up with this error.
    Fail(KeyFileError),
}

/// Decides between the loaded keypair, creating a new key file, and failing. A missing
/// file leads to creation; a corrupt one only where the caller chose to regenerate it,
/// since that replaces an identity that might still be recovered.
pub fn load_or_create_step(
    loaded: Result<Keypair, KeyFileError>,
    regenerate_corrupt: bool,
) -> (r: LoadOrCreate)
    ensures
        loaded matches Ok(k) ==> r == LoadOrCreate::Loaded(k),
        loaded == Err::<Keypair, KeyFileError>(KeyFileError::NotFound) ==> r
            == LoadOrCreate::Create,
        loaded == Err::<Keypair, KeyFileError>(KeyFileError::Corrupt) ==> r == if regenerate_corrupt {
            LoadOrCreate::Create
        } else {
            LoadOrCreate::Fail(KeyFileError::Corrupt)
        },
        loaded matches Err(e) ==> (e != KeyFileError::NotFound && e != KeyFileError::Corrupt
            ==> r == LoadOrCreate::Fail(e)),
{
    match loaded {
        Ok(k) => LoadOrCreate::Loaded(k),
        Err(KeyFileError::NotFound) => LoadOrCreate::Create,
        Err(KeyFileError::Corrupt) => if regenerate_corrupt {
            LoadOrCreate::Create
        } else {
            LoadOrCreate::Fail(KeyFileError::Corrupt)
        },
        Err(e) => LoadOrCreate::Fail(e),
    }
}

} // verus!
