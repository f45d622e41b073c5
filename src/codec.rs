//! Tagged text forms of keys, signatures and hashes.

use vstd::prelude::*;
use vstd::string::*;

verus! {

/// The standard base64 text of a byte string.
pub uninterp spec fn base64_text(b: Seq<u8>) -> Seq<char>;

/// The bytes that standard base64 decoding yields from a text, if it is well formed.
pub uninterp spec fn base64_bytes(t: Seq<char>) -> Option<Seq<u8>>;

/// A character of the standard base64 alphabet, padding included.
pub open spec fn is_base64_char(c: char) -> bool {
    ('A' <= c && c <= 'Z') || ('a' <= c && c <= 'z') || ('0' <= c && c <= '9') || c == '+'
        || c == '/' || c == '='
}

/// Relies on `base64::encode_config` with the `STANDARD` configuration: the text
/// depends on the bytes alone and is written in the base64 alphabet.
#[verifier::external_body]
fn base64_encode(b: &[u8]) -> (r: String)
    ensures
        r@ == base64_text(b@),
        forall|i: int| 0 <= i < r@.len() ==> is_base64_char(#[trigger] r@[i]),
{
    base64::encode_config(b, base64::STANDARD)
}

/// The text form `base64(bytes) + suffix`.
pub open spec fn encoded(b: Seq<u8>, suffix: Seq<char>) -> Seq<char> {
    base64_text(b) + suffix
}

/// Writes `bytes` in base64, followed by `suffix`.
pub fn encode_with_suffix(bytes: &[u8], suffix: &str) -> (r: String)
    ensures
        r@ == encoded(bytes@, suffix@),
        base64_shaped(base64_text(bytes@)),
{
    let text = base64_encode(bytes);
    text.concat(suffix)
}

/// The view of an optional byte vector.
pub open spec fn opt_bytes(o: Option<Vec<u8>>) -> Option<Seq<u8>> {
    match o {
        Some(v) => Some(v@),
        None => None,
    }
}

/// Relies on `base64::decode_config` with the `STANDARD` configuration: the result
/// depends on the text alone, and the text of a byte string decodes to it.
#[verifier::external_body]
pub(crate) fn base64_decode(t: &str) -> (r: Option<Vec<u8>>)
    ensures
        opt_bytes(r) == base64_bytes(t@),
        forall|b: Seq<u8>| t@ == #[trigger] base64_text(b) ==> opt_bytes(r) == Some(b),
{
    base64::decode_config(t, base64::STANDARD).ok()
}

/// Every character of the text is in the base64 alphabet.
pub open spec fn base64_shaped(t: Seq<char>) -> bool {
    forall|i: int| 0 <= i < t.len() ==> is_base64_char(#[trigger] t[i])
}

/// Why a text form could not be read back.
#[derive(Clone, Copy, Debug, PartialEq, Eq, Structural)]
pub enum DecodeError {
    /// The base64 part is not well formed.
    Malformed,
    /// The base64 part decodes to a byte string of another length.
    WrongLength,
}

/// The text without one leading `@` and without one trailing `suffix`, where present.
pub open spec fn undecorated(s: Seq<char>, suffix: Seq<char>) -> Seq<char> {
    let t = if s.len() > 0 && s[0] == '@' {
        s.drop_first()
    } else {
        s
    };
    if suffix.len() <= t.len() && t.subrange(t.len() - suffix.len(), t.len() as int) == suffix {
        t.subrange(0, t.len() - suffix.len())
    } else {
        t
    }
}

/// What reading a text form back yields: the decoded bytes, when they have length `len`.
pub open spec fn decoded(s: Seq<char>, suffix: Seq<char>, len: nat) -> Result<Seq<u8>, DecodeError> {
    match base64_bytes(undecorated(s, suffix)) {
        None => Err(DecodeError::Malformed),
        Some(b) => if b.len() == len {
            Ok(b)
        } else {
            Err(DecodeError::WrongLength)
        },
    }
}

/// The view of a decoding result.
pub open spec fn decoded_view(r: Result<Vec<u8>, DecodeError>) -> Result<Seq<u8>, DecodeError> {
    match r {
        Ok(v) => Ok(v@),
        Err(e) => Err(e),
    }
}

/// `text` is the text form of `b` with a dot-led `suffix`, with or without a leading `@`,
/// and the base64 part is in the base64 alphabet (as `encode_with_suffix` ensures).
pub open spec fn written_as(text: Seq<char>, b: Seq<u8>, suffix: Seq<char>) -> bool {
    &&& base64_shaped(base64_text(b))
    &&& suffix.len() > 0 && suffix[0] == '.'
    &&& text == encoded(b, suffix) || text == seq!['@'] + encoded(b, suffix)
}

/// Whether `text@` ends with `suffix@`, with `n` and `m` their lengths in characters.
fn ends_with(text: &str, n: usize, suffix: &str, m: usize) -> (r: bool)
    requires
        n == text@.len(),
        m == suffix@.len(),
    ensures
        r == (m <= n && text@.subrange(n - m, n as int) == suffix@),
{
    if m > n {
        return false;
    }
    let start = n - m;
    let mut j: usize = 0;
    while j < m
        invariant
            n == text@.len(),
            m == suffix@.len(),
            start == n - m,
            j <= m,
            forall|k: int| 0 <= k < j ==> text@[start + k] == suffix@[k],
        decreases m - j,
    {
        if text.get_char(start + j) != suffix.get_char(j) {
            assert(text@.subrange(start as int, n as int)[j as int] != suffix@[j as int]);
            return false;
        }
        j = j + 1;
    }
    assert(text@.subrange(start as int, n as int) =~= suffix@);
    true
}

/// Reads back a text form: drops a leading `@` and a trailing `suffix` where present,
/// decodes the base64 that remains, and checks that it holds `len` bytes.
pub fn decode_with_suffix(text: &str, suffix: &str, len: usize) -> (r: Result<Vec<u8>, DecodeError>)
    ensures
        decoded_view(r) == decoded(text@, suffix@, len as nat),
        forall|b: Seq<u8>|
            #![trigger base64_text(b)]
            b.len() == len && written_as(text@, b, suffix@) ==> decoded_view(r) == Ok::<
                Seq<u8>,
                DecodeError,
            >(b),
{
    let n = text.unicode_len();
    let m = suffix.unicode_len();
    let start: usize = if n > 0 && text.get_char(0) == '@' {
        1
    } else {
        0
    };
    let rest = text.substring_char(start, n);
    assert(rest@ == if text@.len() > 0 && text@[0] == '@' {
        text@.drop_first()
    } else {
        text@
    });
    let k = n - start;
    let end: usize = if ends_with(rest, k, suffix, m) {
        k - m
    } else {
        k
    };
    let body = rest.substring_char(0, end);
    assert(body@ == undecorated(text@, suffix@));
    assert forall|b: Seq<u8>|
        #![trigger base64_text(b)]
        written_as(text@, b, suffix@) implies undecorated(text@, suffix@) == base64_text(b) by {
        let e = base64_text(b);
        if text@ == seq!['@'] + encoded(b, suffix@) {
            assert(text@.drop_first() =~= e + suffix@);
            assert((e + suffix@).subrange(e.len() as int, (e + suffix@).len() as int) =~= suffix@);
            assert((e + suffix@).subrange(0, e.len() as int) =~= e);
        } else {
            if e.len() > 0 {
                assert(is_base64_char(e[0]));
                assert(text@[0] == e[0]);
            } else {
                assert(text@[0] == suffix@[0]);
            }
            assert((e + suffix@).subrange(e.len() as int, (e + suffix@).len() as int) =~= suffix@);
            assert((e + suffix@).subrange(0, e.len() as int) =~= e);
        }
    }
    match base64_decode(body) {
        None => Err(DecodeError::Malformed),
        Some(v) => {
            if v.len() == len {
                Ok(v)
            } else {
                Err(DecodeError::WrongLength)
            }
        },
    }
}

/// The suffix of a key's text form.
pub open spec fn key_suffix() -> Seq<char> {
    seq!['.', 'e', 'd', '2', '5', '5', '1', '9']
}

/// The suffix of a signature's text form.
pub open spec fn sig_suffix() -> Seq<char> {
    seq!['.', 's', 'i', 'g'] + key_suffix()
}

/// The suffix of a hash's text form.
pub open spec fn hash_suffix() -> Seq<char> {
    seq!['.', 's', 'h', 'a', '2', '5', '6']
}

/// `<base64>.ed25519`: the text form of a public or private key.
pub fn encode_key(bytes: &[u8]) -> (r: String)
    ensures
        r@ == encoded(bytes@, key_suffix()),
        base64_shaped(base64_text(bytes@)),
{
    let suffix = ".ed25519";
    proof {
        reveal_strlit(".ed25519");
    }
    encode_with_suffix(bytes, suffix)
}

/// `@<base64>.ed25519`: the identifier of a public key.
pub fn public_id(public: &[u8]) -> (r: String)
    ensures
        r@ == seq!['@'] + encoded(public@, key_suffix()),
        base64_shaped(base64_text(public@)),
{
    let text = encode_key(public);
    let at = String::from_str("@");
    proof {
        reveal_strlit("@");
    }
    at.concat(text.as_str())
}

/// `<base64>.sig.ed25519`: the text form of a detached signature.
pub fn encode_signature(sig: &[u8]) -> (r: String)
    ensures
        r@ == encoded(sig@, sig_suffix()),
        base64_shaped(base64_text(sig@)),
{
    let suffix = ".sig.ed25519";
    proof {
        reveal_strlit(".sig.ed25519");
        assert(suffix@ =~= sig_suffix());
    }
    encode_with_suffix(sig, suffix)
}

/// Reads a public key (32 bytes) from `<base64>.ed25519` or `@<base64>.ed25519`, the
/// decorations being optional.
pub fn decode_public(text: &str) -> (r: Result<Vec<u8>, DecodeError>)
    ensures
        decoded_view(r) == decoded(text@, key_suffix(), 32),
        forall|b: Seq<u8>|
            #![trigger base64_text(b)]
            b.len() == 32 && written_as(text@, b, key_suffix()) ==> decoded_view(r) == Ok::<
                Seq<u8>,
                DecodeError,
            >(b),
{
    let suffix = ".ed25519";
    proof {
        reveal_strlit(".ed25519");
        assert(suffix@ =~= key_suffix());
    }
    decode_with_suffix(text, suffix, 32)
}

/// Reads a private key (64 bytes: seed, then public key) from `<base64>.ed25519`, the
/// suffix being optional.
pub fn decode_private(text: &str) -> (r: Result<Vec<u8>, DecodeError>)
    ensures
        decoded_view(r) == decoded(text@, key_suffix(), 64),
        forall|b: Seq<u8>|
            #![trigger base64_text(b)]
            b.len() == 64 && written_as(text@, b, key_suffix()) ==> decoded_view(r) == Ok::<
                Seq<u8>,
                DecodeError,
            >(b),
{
    let suffix = ".ed25519";
    proof {
        reveal_strlit(".ed25519");
        assert(suffix@ =~= key_suffix());
    }
    decode_with_suffix(text, suffix, 64)
}

/// Reads a signature (64 bytes) from `<base64>.sig.ed25519`, the suffix being optional.
pub fn decode_signature(text: &str) -> (r: Result<Vec<u8>, DecodeError>)
    ensures
        decoded_view(r) == decoded(text@, sig_suffix(), 64),
        forall|b: Seq<u8>|
            #![trigger base64_text(b)]
            b.len() == 64 && written_as(text@, b, sig_suffix()) ==> decoded_view(r) == Ok::<
                Seq<u8>,
                DecodeError,
            >(b),
{
    let suffix = ".sig.ed25519";
    proof {
        reveal_strlit(".sig.ed25519");
        assert(suffix@ =~= sig_suffix());
    }
    decode_with_suffix(text, suffix, 64)
}

/// The tag of a text form: what follows its first `.` (`"ed25519"` in `"abc.ed25519"`,
/// `"sig.ed25519"` in a signature), or `None` where there is no `.`.
pub fn get_tag(text: &str) -> (r: Option<String>)
    ensures
        r is None <==> (forall|i: int| 0 <= i < text@.len() ==> text@[i] != '.'),
        r matches Some(t) ==> exists|i: int|
            0 <= i < text@.len() && text@[i] == '.' && (forall|j: int| 0 <= j < i ==> text@[j] != '.')
                && t@ == text@.subrange(i + 1, text@.len() as int),
{
    let n = text.unicode_len();
    let mut i: usize = 0;
    while i < n
        invariant
            n == text@.len(),
            i <= n,
            forall|j: int| 0 <= j < i ==> text@[j] != '.',
        decreases n - i,
    {
        if text.get_char(i) == '.' {
            let tag = text.substring_char(i + 1, n);
            return Some(String::from_str(tag));
        }
        i = i + 1;
    }
    None
}

/// The text without one trailing `suffix`, where present.
pub open spec fn without_suffix(s: Seq<char>, suffix: Seq<char>) -> Seq<char> {
    if suffix.len() <= s.len() && s.subrange(s.len() - suffix.len(), s.len() as int) == suffix {
        s.subrange(0, s.len() - suffix.len())
    } else {
        s
    }
}

/// Decodes base64 text that may carry a trailing `suffix`.
pub fn decode_base64_with_suffix(text: &str, suffix: &str) -> (r: Option<Vec<u8>>)
    ensures
        opt_bytes(r) == base64_bytes(without_suffix(text@, suffix@)),
{
    let n = text.unicode_len();
    let m = suffix.unicode_len();
    let end: usize = if ends_with(text, n, suffix, m) {
        n - m
    } else {
        n
    };
    let body = text.substring_char(0, end);
    assert(body@ == without_suffix(text@, suffix@));
    base64_decode(body)
}

/// The suffix of a sealed box's text form.
pub open spec fn box_suffix() -> Seq<char> {
    seq!['.', 'b', 'o', 'x']
}

/// A 32-byte SHA-256 digest.
pub uninterp spec fn sha256(b: Seq<u8>) -> Seq<u8>;

/// Relies on `ssb_crypto::hash`, the SHA-256 digest of the bytes.
#[verifier::external_body]
fn sha256_digest(b: &[u8]) -> (r: Vec<u8>)
    ensures
        r@ == sha256(b@),
{
    ssb_crypto::hash(b).0.to_vec()
}

/// `<base64>.sha256`: the text form of the SHA-256 digest of `data`.
pub fn hash_text(data: &[u8]) -> (r: String)
    ensures
        r@ == encoded(sha256(data@), hash_suffix()),
{
    let digest = sha256_digest(data);
    let suffix = ".sha256";
    proof {
        reveal_strlit(".sha256");
        assert(suffix@ =~= hash_suffix());
    }
    encode_with_suffix(digest.as_slice(), suffix)
}

} // verus!
