use base64::Engine;
use catalytics_core::adapters::http::middleware::auth::{
    assemble_auth_data, authorize, check_solana_signature, is_authorized, judge_signature,
    parse_auth_headers, parse_solana_auth, replace_escaped_newlines, sizes_fit,
    verify_solana_signature,
    AuthData, SolanaAuth,
};
use ed25519_dalek::{Signer, SigningKey};

fn signing_key() -> SigningKey {
    SigningKey::from_bytes(&[7u8; 32])
}

fn encoded_key() -> String {
    bs58::encode(signing_key().verifying_key().to_bytes()).into_string()
}

fn encoded_signature(message: &str) -> String {
    let signature = signing_key().sign(message.as_bytes());
    base64::engine::general_purpose::STANDARD.encode(signature.to_bytes())
}

#[test]
fn header_is_taken_apart() {
    let auth = parse_solana_auth("Solana somekey:somesignature").unwrap();
    assert_eq!(auth.public_key, "somekey");
    assert_eq!(auth.signature, "somesignature");
}

#[test]
fn header_parts_may_be_empty() {
    let auth = parse_solana_auth("Solana :").unwrap();
    assert_eq!(auth.public_key, "");
    assert_eq!(auth.signature, "");
    let auth = parse_solana_auth("Solana key:").unwrap();
    assert_eq!(auth.public_key, "key");
    assert_eq!(auth.signature, "");
}

#[test]
fn header_without_scheme_is_refused() {
    let expected = Err(String::from("Authorization header must start with 'Solana '"));
    assert_eq!(parse_solana_auth("Bearer key:sig").map(|_| ()), expected);
    assert_eq!(parse_solana_auth("Solana").map(|_| ()), expected);
    assert_eq!(parse_solana_auth("solana key:sig").map(|_| ()), expected);
    assert_eq!(parse_solana_auth("").map(|_| ()), expected);
    assert_eq!(parse_solana_auth(" Solana key:sig").map(|_| ()), expected);
}

#[test]
fn header_needs_exactly_one_colon() {
    let expected = Err(String::from(
        "Authorization data must be in format 'public_key:signature'",
    ));
    assert_eq!(parse_solana_auth("Solana keysig").map(|_| ()), expected);
    assert_eq!(parse_solana_auth("Solana key:sig:more").map(|_| ()), expected);
    assert_eq!(parse_solana_auth("Solana ").map(|_| ()), expected);
    assert_eq!(parse_solana_auth("Solana ::").map(|_| ()), expected);
}

#[test]
fn escaped_newlines_are_replaced() {
    assert_eq!(replace_escaped_newlines("a\\nb"), "a\nb");
    assert_eq!(replace_escaped_newlines("\\n\\n"), "\n\n");
    assert_eq!(replace_escaped_newlines("\\\\n"), "\\\n");
    assert_eq!(replace_escaped_newlines("no escapes"), "no escapes");
    assert_eq!(replace_escaped_newlines("ends with \\"), "ends with \\");
    assert_eq!(replace_escaped_newlines("\\t stays"), "\\t stays");
    assert_eq!(replace_escaped_newlines(""), "");
    assert_eq!(replace_escaped_newlines("a\\nb"), "a\\nb".replace("\\n", "\n"));
}

#[test]
fn message_is_percent_decoded() {
    let data = parse_auth_headers("Solana key:sig", "Sign%20in%3A%20waitlist%5Cnnonce%201").unwrap();
    assert_eq!(data.solana.public_key, "key");
    assert_eq!(data.solana.signature, "sig");
    assert_eq!(data.decoded_message, "Sign in: waitlist\nnonce 1");
    let plain = parse_auth_headers("Solana key:sig", "a+b").unwrap();
    assert_eq!(plain.decoded_message, "a+b");
}

#[test]
fn undecodable_message_is_refused() {
    let result = parse_auth_headers("Solana key:sig", "%ff%fe");
    let text = result.err().unwrap();
    assert!(text.starts_with("Failed to URL decode message: "));
    assert!(text.len() > "Failed to URL decode message: ".len());
}

#[test]
fn header_fault_comes_before_message_fault() {
    let result = parse_auth_headers("Basic key:sig", "%ff%fe");
    assert_eq!(
        result.err().unwrap(),
        "Authorization header must start with 'Solana '"
    );
}

#[test]
fn auth_data_is_assembled_from_a_decoded_message() {
    let data = assemble_auth_data("Solana k:s", Ok(String::from("one\\ntwo"))).unwrap();
    assert_eq!(data.decoded_message, "one\ntwo");
    let failed = assemble_auth_data("Solana k:s", Err(String::from("bad bytes")));
    assert_eq!(
        failed.err().unwrap(),
        "Failed to URL decode message: bad bytes"
    );
}

#[test]
fn valid_signature_is_accepted() {
    let message = "Sign in to the waitlist\nnonce: 42";
    let key = encoded_key();
    let signature = encoded_signature(message);
    assert_eq!(check_solana_signature(&key, &signature, message), Some(true));
    assert!(verify_solana_signature(&key, &signature, message));
}

#[test]
fn signature_on_another_message_is_refused() {
    let key = encoded_key();
    let signature = encoded_signature("one message");
    assert_eq!(
        check_solana_signature(&key, &signature, "another message"),
        Some(false)
    );
    assert!(!verify_solana_signature(&key, &signature, "another message"));
}

#[test]
fn signature_of_another_key_is_refused() {
    let message = "hello";
    let other = SigningKey::from_bytes(&[9u8; 32]);
    let signature =
        base64::engine::general_purpose::STANDARD.encode(other.sign(message.as_bytes()).to_bytes());
    assert_eq!(
        check_solana_signature(&encoded_key(), &signature, message),
        Some(false)
    );
}

#[test]
fn undecodable_key_or_signature_is_refused() {
    let message = "hello";
    let signature = encoded_signature(message);
    assert_eq!(
        check_solana_signature("not base58 0OIl", &signature, message),
        Some(false)
    );
    assert!(!verify_solana_signature("not base58 0OIl", &signature, message));
    assert_eq!(
        check_solana_signature(&encoded_key(), "not base64 !!!", message),
        Some(false)
    );
    assert!(!verify_solana_signature(&encoded_key(), "not base64 !!!", message));
}

#[test]
fn wrong_sizes_get_no_verdict() {
    let message = "hello";
    let short_key = bs58::encode([1u8; 16]).into_string();
    assert_eq!(
        check_solana_signature(&short_key, &encoded_signature(message), message),
        None
    );
    let short_signature = base64::engine::general_purpose::STANDARD.encode([1u8; 10]);
    assert_eq!(
        check_solana_signature(&encoded_key(), &short_signature, message),
        None
    );
}

#[test]
fn judging_decoded_bytes() {
    let message = b"hello";
    let key = signing_key().verifying_key().to_bytes().to_vec();
    let signature = signing_key().sign(message).to_bytes().to_vec();
    assert_eq!(
        judge_signature(&Some(key.clone()), &Some(signature.clone()), message),
        Some(true)
    );
    assert_eq!(
        judge_signature(&Some(key.clone()), &Some(signature.clone()), b"other"),
        Some(false)
    );
    assert_eq!(judge_signature(&None, &Some(signature.clone()), message), Some(false));
    assert_eq!(judge_signature(&Some(key.clone()), &None, message), Some(false));
    assert_eq!(judge_signature(&None, &None, message), Some(false));
    assert_eq!(
        judge_signature(&Some(vec![0u8; 31]), &Some(signature.clone()), message),
        None
    );
    assert_eq!(
        judge_signature(&Some(key.clone()), &Some(vec![0u8; 63]), message),
        None
    );
    let mut flipped = signature.clone();
    flipped[0] ^= 1;
    assert_eq!(
        judge_signature(&Some(key), &Some(flipped), message),
        Some(false)
    );
}

#[test]
fn bytes_that_are_no_key_are_refused_before_the_signature_is_looked_at() {
    let mut no_point = None;
    for first in 0u8..=255 {
        let mut candidate = [0u8; 32];
        candidate[0] = first;
        if ed25519_dalek::VerifyingKey::from_bytes(&candidate).is_err() {
            no_point = Some(candidate.to_vec());
            break;
        }
    }
    let no_point = no_point.unwrap();
    assert_eq!(
        judge_signature(&Some(no_point.clone()), &Some(vec![0u8; 64]), b"m"),
        Some(false)
    );
    assert_eq!(
        judge_signature(&Some(no_point), &Some(vec![0u8; 3]), b"m"),
        Some(false)
    );
}

#[test]
fn request_is_authorized_by_its_signature() {
    let message = "Sign in\nnonce 7";
    let header = format!("Solana {}:{}", encoded_key(), encoded_signature(message));
    let data = parse_auth_headers(&header, "Sign%20in%5Cnnonce%207").unwrap();
    assert_eq!(data.decoded_message, message);
    assert_eq!(authorize(&data), Some(true));
    assert!(is_authorized(&data));
    let forged = AuthData {
        solana: SolanaAuth {
            public_key: encoded_key(),
            signature: encoded_signature("something else"),
        },
        decoded_message: String::from(message),
    };
    assert_eq!(authorize(&forged), Some(false));
    assert!(!is_authorized(&forged));
    let broken = AuthData {
        solana: SolanaAuth {
            public_key: bs58::encode([1u8; 5]).into_string(),
            signature: encoded_signature(message),
        },
        decoded_message: String::from(message),
    };
    assert_eq!(authorize(&broken), None);
}

#[test]
fn sizes_are_looked_at_without_checking_the_signature() {
    let key = signing_key().verifying_key().to_bytes().to_vec();
    assert!(sizes_fit(&Some(key.clone()), &Some(vec![0u8; 64])));
    assert!(!sizes_fit(&Some(key.clone()), &Some(vec![0u8; 65])));
    assert!(!sizes_fit(&Some(vec![0u8; 33]), &Some(vec![0u8; 64])));
    assert!(sizes_fit(&None, &Some(vec![0u8; 3])));
    assert!(sizes_fit(&Some(vec![0u8; 3]), &None));
    assert!(sizes_fit(&None, &None));
}
