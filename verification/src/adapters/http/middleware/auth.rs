use vstd::prelude::*;
use vstd::string::StringExecFns;
use vstd::utf8::encode_utf8;
use crate::text::{chars_of, string_of};

verus! {

/// The two parts of an `Authorization` header: the key of the wallet in
/// Base58 and the signature in Base64.
#[derive(Debug, Clone)]
pub struct SolanaAuth {
    pub public_key: String,
    pub signature: String,
}

/// A request's credentials with the message that was signed.
#[derive(Debug, Clone)]
pub struct AuthData {
    pub solana: SolanaAuth,
    pub decoded_message: String,
}

/// The scheme that an `Authorization` header starts with, the blank included.
pub open spec fn scheme() -> Seq<char> {
    seq!['S', 'o', 'l', 'a', 'n', 'a', ' ']
}

/// The number of times `c` occurs in `text`.
pub open spec fn occurrences(text: Seq<char>, c: char) -> nat
    decreases text.len(),
{
    if text.len() == 0 {
        0
    } else {
        occurrences(text.drop_last(), c) + if text.last() == c {
            1nat
        } else {
            0nat
        }
    }
}

/// Why a header was turned down.
pub enum HeaderFault {
    /// It does not start with the scheme.
    Scheme,
    /// What follows the scheme is not two parts with one colon between them.
    Format,
}

/// The key and the signature that a header holds. What follows the scheme
/// must hold exactly one colon; the key stands before it, the signature
/// after it, and either may be empty.
pub open spec fn parsed_header(header: Seq<char>) -> Result<(Seq<char>, Seq<char>), HeaderFault> {
    if !scheme().is_prefix_of(header) {
        Err(HeaderFault::Scheme)
    } else {
        let data = header.skip(7);
        if occurrences(data, ':') != 1 {
            Err(HeaderFault::Format)
        } else {
            let colon = data.index_of(':');
            Ok((data.subrange(0, colon), data.subrange(colon + 1, data.len() as int)))
        }
    }
}

/// The words that go with a fault.
pub open spec fn fault_text(fault: HeaderFault) -> Seq<char> {
    match fault {
        HeaderFault::Scheme => "Authorization header must start with 'Solana '"@,
        HeaderFault::Format => "Authorization data must be in format 'public_key:signature'"@,
    }
}

/// Takes an `Authorization` header apart.
pub fn parse_solana_auth(auth_header: &str) -> (result: Result<SolanaAuth, String>)
    ensures
        match parsed_header(auth_header@) {
            Ok((public_key, signature)) => result matches Ok(auth) && auth.public_key@
                == public_key && auth.signature@ == signature,
            Err(fault) => result matches Err(text) && text@ == fault_text(fault),
        },
{
    let header = chars_of(auth_header);
    let prefix = chars_of("Solana ");
    proof {
        reveal_strlit("Solana ");
        assert(prefix@ =~= scheme());
    }
    if header.len() < prefix.len() {
        return Err(String::from_str("Authorization header must start with 'Solana '"));
    }
    let mut k: usize = 0;
    while k < prefix.len()
        invariant
            k <= prefix.len() <= header.len(),
            prefix@ == scheme(),
            header@ == auth_header@,
            forall|m: int| 0 <= m < k ==> header@[m] == prefix@[m],
        decreases prefix.len() - k,
    {
        if header[k] != prefix[k] {
            assert(header@.subrange(0, 7)[k as int] != scheme()[k as int]);
            return Err(String::from_str("Authorization header must start with 'Solana '"));
        }
        k = k + 1;
    }
    assert(scheme().is_prefix_of(header@));
    let ghost data = header@.skip(7);
    let mut colons: usize = 0;
    let mut first: usize = header.len();
    let mut i: usize = 7;
    while i < header.len()
        invariant
            7 <= i <= header.len(),
            data == header@.skip(7),
            colons == occurrences(data.take(i - 7), ':'),
            colons <= i - 7,
            colons == 0 ==> first == header.len() && forall|m: int|
                7 <= m < i ==> header@[m] != ':',
            colons > 0 ==> 7 <= first < i && header@[first as int] == ':' && forall|m: int|
                7 <= m < first ==> header@[m] != ':',
            colons == 1 ==> forall|m: int| first < m < i ==> header@[m] != ':',
        decreases header.len() - i,
    {
        assert(data.take(i + 1 - 7).drop_last() == data.take(i - 7));
        assert(data.take(i + 1 - 7).last() == header@[i as int]);
        if header[i] == ':' {
            if colons == 0 {
                first = i;
            }
            colons = colons + 1;
        }
        i = i + 1;
    }
    assert(data.take(i - 7) == data);
    if colons != 1 {
        return Err(
            String::from_str("Authorization data must be in format 'public_key:signature'"),
        );
    }
    proof {
        let at = first - 7;
        assert(data[at] == ':');
        assert(data.contains(':'));
        let found = data.index_of(':');
        assert(data[found] == ':');
        assert(header@[found + 7] == ':');
        assert(found == at);
        assert(header@.subrange(7, first as int) =~= data.subrange(0, found));
        assert(header@.subrange(first + 1, header@.len() as int) =~= data.subrange(
            found + 1,
            data.len() as int,
        ));
    }
    let public_key = string_of(&header, 7, first);
    let signature = string_of(&header, first + 1, header.len());
    Ok(SolanaAuth { public_key, signature })
}

/// What `urlencoding::decode` makes of a text: the decoded text, or the
/// words of its error where the decoded bytes are no UTF-8.
pub uninterp spec fn percent_decoded(text: Seq<char>) -> Result<Seq<char>, Seq<char>>;

/// The bytes that `bs58` reads from a text in the Bitcoin alphabet, if it
/// reads any.
pub uninterp spec fn base58_decoded(text: Seq<char>) -> Option<Seq<u8>>;

/// The bytes that `base64` reads from a text in the standard alphabet with
/// padding, if it reads any.
pub uninterp spec fn base64_decoded(text: Seq<char>) -> Option<Seq<u8>>;

/// Whether `ed25519_dalek` takes 32 bytes for a verifying key.
pub uninterp spec fn ed25519_key_valid(public_key: Seq<u8>) -> bool;

/// Whether `ed25519_dalek` accepts `signature` as one of `public_key` on
/// `message`.
pub uninterp spec fn ed25519_accepts(public_key: Seq<u8>, message: Seq<u8>, signature: Seq<u8>) -> bool;

/// The bytes of an optional vector.
pub open spec fn optional_bytes(bytes: Option<Vec<u8>>) -> Option<Seq<u8>> {
    match bytes {
        Some(v) => Some(v@),
        None => None,
    }
}

/// Calls `urlencoding::decode`. The result is what that function makes of the
/// text; on failure the error is handed on as its own words.
#[verifier::external_body]
fn url_decode(text: &str) -> (decoded: Result<String, String>)
    ensures
        match decoded {
            Ok(s) => percent_decoded(text@) == Ok::<Seq<char>, Seq<char>>(s@),
            Err(e) => percent_decoded(text@) == Err::<Seq<char>, Seq<char>>(e@),
        },
{
    match urlencoding::decode(text) {
        Ok(decoded) => Ok(decoded.into_owned()),
        Err(e) => Err(e.to_string()),
    }
}

/// Calls `bs58::decode(..).into_vec()`. The result is what that call reads,
/// `None` standing for any of its errors.
#[verifier::external_body]
fn decode_base58(text: &str) -> (bytes: Option<Vec<u8>>)
    ensures
        optional_bytes(bytes) == base58_decoded(text@),
{
    bs58::decode(text).into_vec().ok()
}

/// Calls `decode` of `base64`'s `STANDARD` engine. The result is what that
/// call reads, `None` standing for any of its errors.
#[verifier::external_body]
fn decode_base64(text: &str) -> (bytes: Option<Vec<u8>>)
    ensures
        optional_bytes(bytes) == base64_decoded(text@),
{
    base64::Engine::decode(&base64::engine::general_purpose::STANDARD, text).ok()
}

/// Calls `VerifyingKey::from_bytes` of `ed25519_dalek` and says whether it
/// gave a key.
#[verifier::external_body]
fn is_verifying_key(public_key: &Vec<u8>) -> (valid: bool)
    requires
        public_key@.len() == 32,
    ensures
        valid == ed25519_key_valid(public_key@),
{
    let bytes: [u8; 32] = public_key.as_slice().try_into().unwrap();
    ed25519_dalek::VerifyingKey::from_bytes(&bytes).is_ok()
}

/// Calls `verify` of `ed25519_dalek` on the key and the signature that the
/// bytes stand for, and says whether it accepted. Bytes that are no key are
/// not accepted.
#[verifier::external_body]
fn ed25519_verify(public_key: &Vec<u8>, message: &[u8], signature: &Vec<u8>) -> (accepted: bool)
    requires
        public_key@.len() == 32,
        signature@.len() == 64,
    ensures
        accepted == ed25519_accepts(public_key@, message@, signature@),
{
    let key: [u8; 32] = public_key.as_slice().try_into().unwrap();
    let sig: [u8; 64] = signature.as_slice().try_into().unwrap();
    match ed25519_dalek::VerifyingKey::from_bytes(&key) {
        Ok(key) => ed25519_dalek::Verifier::verify(
            &key,
            message,
            &ed25519_dalek::Signature::from_bytes(&sig),
        ).is_ok(),
        Err(_) => false,
    }
}

/// `text` with every backslash that is followed by the letter n replaced,
/// together with that letter, by a line feed, from left to right.
pub open spec fn unescape_newlines(text: Seq<char>) -> Seq<char>
    decreases text.len(),
{
    if text.len() == 0 {
        Seq::empty()
    } else if text.len() >= 2 && text[0] == '\\' && text[1] == 'n' {
        seq!['\n'] + unescape_newlines(text.skip(2))
    } else {
        seq![text[0]] + unescape_newlines(text.skip(1))
    }
}

/// Replaces the two characters backslash and n by a line feed wherever they
/// stand.
pub fn replace_escaped_newlines(text: &str) -> (replaced: String)
    ensures
        replaced@ == unescape_newlines(text@),
{
    let chars = chars_of(text);
    let mut replaced = String::new();
    let mut i: usize = 0;
    assert(chars@.skip(0) == chars@);
    while i < chars.len()
        invariant
            i <= chars.len(),
            replaced@ + unescape_newlines(chars@.skip(i as int)) == unescape_newlines(chars@),
        decreases chars.len() - i,
    {
        let ghost rest = chars@.skip(i as int);
        assert(rest[0] == chars@[i as int]);
        if chars[i] == '\\' && i + 1 < chars.len() && chars[i + 1] == 'n' {
            assert(rest[1] == chars@[i + 1]);
            assert(rest.skip(2) == chars@.skip(i + 2));
            assert(replaced@.push('\n') + unescape_newlines(rest.skip(2)) == replaced@
                + unescape_newlines(rest));
            replaced.push('\n');
            i = i + 2;
        } else {
            assert(rest.skip(1) == chars@.skip(i + 1));
            proof {
                if rest.len() >= 2 {
                    assert(rest[1] == chars@[i + 1]);
                }
            }
            assert(replaced@.push(chars@[i as int]) + unescape_newlines(rest.skip(1)) == replaced@
                + unescape_newlines(rest));
            replaced.push(chars[i]);
            i = i + 1;
        }
    }
    assert(unescape_newlines(chars@.skip(i as int)) == Seq::<char>::empty());
    assert(replaced@ + Seq::<char>::empty() == replaced@);
    replaced
}

/// The words before the outside error where a message cannot be decoded.
pub open spec fn decode_failure_prefix() -> Seq<char> {
    "Failed to URL decode message: "@
}

/// What a header and a message give, the message already decoded or failed:
/// the fault of the header first, else the failure of the decoding, else the
/// credentials with the message, its escaped line feeds replaced.
pub fn assemble_auth_data(auth_header: &str, decoded: Result<String, String>) -> (result: Result<
    AuthData,
    String,
>)
    ensures
        match parsed_header(auth_header@) {
            Err(fault) => result matches Err(text) && text@ == fault_text(fault),
            Ok((public_key, signature)) => match decoded {
                Err(e) => result matches Err(text) && text@ == decode_failure_prefix() + e@,
                Ok(message) => result matches Ok(data) && data.solana.public_key@ == public_key
                    && data.solana.signature@ == signature && data.decoded_message@
                    == unescape_newlines(message@),
            },
        },
{
    let solana = match parse_solana_auth(auth_header) {
        Ok(solana) => solana,
        Err(text) => {
            return Err(text);
        },
    };
    match decoded {
        Ok(message) => {
            let decoded_message = replace_escaped_newlines(message.as_str());
            Ok(AuthData { solana, decoded_message })
        },
        Err(e) => Err(String::from_str("Failed to URL decode message: ").concat(e.as_str())),
    }
}

/// Reads the credentials of a request from its `Authorization` header and
/// its message header, which is percent-encoded.
pub fn parse_auth_headers(auth_header: &str, message: &str) -> (result: Result<AuthData, String>)
    ensures
        match parsed_header(auth_header@) {
            Err(fault) => result matches Err(text) && text@ == fault_text(fault),
            Ok((public_key, signature)) => match percent_decoded(message@) {
                Err(e) => result matches Err(text) && text@ == decode_failure_prefix() + e,
                Ok(decoded) => result matches Ok(data) && data.solana.public_key@ == public_key
                    && data.solana.signature@ == signature && data.decoded_message@
                    == unescape_newlines(decoded),
            },
        },
{
    assemble_auth_data(auth_header, url_decode(message))
}

/// The verdict on a signature once key and signature are decoded, or could
/// not be: no verdict where the sizes are wrong, refusal where either did
/// not decode or the key is no key, else what the check of the signature
/// says.
pub open spec fn verdict(
    public_key: Option<Seq<u8>>,
    signature: Option<Seq<u8>>,
    message: Seq<u8>,
) -> Option<bool> {
    match (public_key, signature) {
        (Some(key), Some(sig)) => if key.len() != 32 {
            None
        } else if !ed25519_key_valid(key) {
            Some(false)
        } else if sig.len() != 64 {
            None
        } else {
            Some(ed25519_accepts(key, message, sig))
        },
        _ => Some(false),
    }
}

/// Whether there is a verdict on a key and a signature as they were decoded,
/// whatever the message: the sizes are right as far as they are looked at.
pub open spec fn has_verdict(public_key: Option<Seq<u8>>, signature: Option<Seq<u8>>) -> bool {
    match (public_key, signature) {
        (Some(key), Some(sig)) => key.len() == 32 && (!ed25519_key_valid(key) || sig.len() == 64),
        _ => true,
    }
}

/// There is a verdict on one message exactly if there is one on every
/// message.
pub proof fn lemma_has_verdict(
    public_key: Option<Seq<u8>>,
    signature: Option<Seq<u8>>,
    message: Seq<u8>,
)
    ensures
        verdict(public_key, signature, message) is Some <==> has_verdict(public_key, signature),
{
}

/// Looks at the sizes of a decoded key and signature, without checking the
/// signature, and says whether there is a verdict on them.
pub fn sizes_fit(public_key: &Option<Vec<u8>>, signature: &Option<Vec<u8>>) -> (fit: bool)
    ensures
        fit == has_verdict(optional_bytes(*public_key), optional_bytes(*signature)),
{
    match (public_key, signature) {
        (Some(key), Some(sig)) => {
            if key.len() != 32 {
                false
            } else if !is_verifying_key(key) {
                true
            } else {
                sig.len() == 64
            }
        },
        _ => true,
    }
}

/// Judges a signature from the decoded key and signature. There is no
/// verdict where both decoded and the key has not 32 bytes, or the key is
/// valid and the signature has not 64.
pub fn judge_signature(
    public_key: &Option<Vec<u8>>,
    signature: &Option<Vec<u8>>,
    message: &[u8],
) -> (judged: Option<bool>)
    ensures
        judged == verdict(optional_bytes(*public_key), optional_bytes(*signature), message@),
{
    match (public_key, signature) {
        (Some(key), Some(sig)) => {
            if key.len() != 32 {
                None
            } else if !is_verifying_key(key) {
                Some(false)
            } else if sig.len() != 64 {
                None
            } else {
                Some(ed25519_verify(key, message, sig))
            }
        },
        _ => Some(false),
    }
}

/// The verdict on a signature as it comes in a request: the key in Base58,
/// the signature in Base64, the message as text, of which the bytes of its
/// UTF-8 form are what was signed.
pub open spec fn signature_verdict(
    public_key_b58: Seq<char>,
    signature_base64: Seq<char>,
    message: Seq<char>,
) -> Option<bool> {
    verdict(
        base58_decoded(public_key_b58),
        base64_decoded(signature_base64),
        encode_utf8(message),
    )
}

/// Checks a signature, and gives no verdict where the key or the signature
/// has the wrong size. The sizes are looked at first; the signature itself is
/// checked once, and only where there is a verdict to give.
pub fn check_solana_signature(public_key_b58: &str, signature_base64: &str, message: &str) -> (judged:
    Option<bool>)
    ensures
        judged == signature_verdict(public_key_b58@, signature_base64@, message@),
{
    let public_key = decode_base58(public_key_b58);
    let signature = decode_base64(signature_base64);
    if sizes_fit(&public_key, &signature) {
        Some(verify_solana_signature(public_key_b58, signature_base64, message))
    } else {
        None
    }
}

/// Whether `signature_base64` is a signature of the wallet with key
/// `public_key_b58` on `message`. A key of 32 bytes and, under a valid key, a
/// signature of 64 bytes are taken for granted.
pub fn verify_solana_signature(public_key_b58: &str, signature_base64: &str, message: &str) -> (ok:
    bool)
    requires
        signature_verdict(public_key_b58@, signature_base64@, message@) is Some,
    ensures
        signature_verdict(public_key_b58@, signature_base64@, message@) == Some(ok),
{
    let public_key = decode_base58(public_key_b58);
    let signature = decode_base64(signature_base64);
    match judge_signature(&public_key, &signature, message.as_bytes()) {
        Some(ok) => ok,
        None => false,
    }
}

/// Whether the credentials of a request hold: the signature is one of the
/// wallet on the decoded message.
pub fn is_authorized(auth_data: &AuthData) -> (ok: bool)
    requires
        signature_verdict(
            auth_data.solana.public_key@,
            auth_data.solana.signature@,
            auth_data.decoded_message@,
        ) is Some,
    ensures
        signature_verdict(
            auth_data.solana.public_key@,
            auth_data.solana.signature@,
            auth_data.decoded_message@,
        ) == Some(ok),
{
    verify_solana_signature(
        auth_data.solana.public_key.as_str(),
        auth_data.solana.signature.as_str(),
        auth_data.decoded_message.as_str(),
    )
}

/// Judges the credentials of a request, and gives no verdict where the key
/// or the signature has the wrong size. The sizes are looked at first; the
/// signature itself is checked once, and only where there is a verdict to
/// give.
pub fn authorize(auth_data: &AuthData) -> (judged: Option<bool>)
    ensures
        judged == signature_verdict(
            auth_data.solana.public_key@,
            auth_data.solana.signature@,
            auth_data.decoded_message@,
        ),
{
    let public_key = decode_base58(auth_data.solana.public_key.as_str());
    let signature = decode_base64(auth_data.solana.signature.as_str());
    if sizes_fit(&public_key, &signature) {
        Some(is_authorized(auth_data))
    } else {
        None
    }
}

} // verus!
