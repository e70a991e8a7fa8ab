use vstd::prelude::*;
use vstd::string::StrSliceExecFns;
use vstd::string::StringExecFns;
use vstd::utf8::encode_utf8;

verus! {

/// The three dots that stand for the hidden middle of an identifier.
pub open spec fn ellipsis() -> Seq<char> {
    seq!['.', '.', '.']
}

/// How an identifier is shown to the outside: as it is where it has at most 8
/// characters, otherwise its first 4 characters, three dots, and its last 4.
pub open spec fn masked(identifier: Seq<char>) -> Seq<char> {
    if identifier.len() <= 8 {
        identifier
    } else {
        identifier.subrange(0, 4) + ellipsis() + identifier.subrange(
            identifier.len() - 4,
            identifier.len() as int,
        )
    }
}

/// Renders a public key for display. The key itself is left as it is.
pub fn truncate_public_key(public_key: &str) -> (shown: String)
    ensures
        shown@ == masked(public_key@),
{
    let n = public_key.unicode_len();
    if n <= 8 {
        String::from_str(public_key)
    } else {
        let head = public_key.substring_char(0, 4);
        let tail = public_key.substring_char(n - 4, n);
        proof {
            reveal_strlit("...");
            assert("..."@ =~= ellipsis());
        }
        String::from_str(head).concat("...").concat(tail)
    }
}

/// A masked identifier never has more than 11 characters, is the identifier
/// itself up to 8 characters, and masking depends on nothing but the
/// identifier.
pub proof fn lemma_masked_shape(identifier: Seq<char>)
    ensures
        identifier.len() <= 8 ==> masked(identifier) == identifier,
        identifier.len() > 8 ==> masked(identifier).len() == 11,
        identifier.len() > 8 ==> masked(identifier) == identifier.subrange(0, 4) + seq![
            '.',
            '.',
            '.',
        ] + identifier.subrange(identifier.len() - 4, identifier.len() as int),
{
}

/// The value of a merge field: a number or a text.
#[derive(Debug, Clone, PartialEq, Eq)]
pub enum MergeValue {
    Number(i32),
    Text(String),
}

/// One merge field of a list member, under its tag.
#[derive(Debug, Clone, PartialEq, Eq)]
pub struct MergeField {
    pub tag: String,
    pub value: MergeValue,
}

/// What is sent to the mailing list to add or update a member.
#[derive(Debug)]
pub struct MailchimpMemberRequest {
    pub email_address: String,
    pub status: String,
    pub merge_fields: Vec<MergeField>,
}

/// What the mailing list answers on success.
#[derive(Debug)]
pub struct MailchimpMemberResponse {
    pub id: String,
    pub email_address: String,
    pub status: String,
    pub merge_fields: Vec<MergeField>,
}

/// What the mailing list answers on failure.
#[derive(Debug)]
pub struct MailchimpErrorResponse {
    pub error_type: String,
    pub title: String,
    pub detail: String,
    pub status: u16,
}

impl MailchimpMemberRequest {
    /// The request that subscribes `email` with the three merge fields of an
    /// applicant: the identifier, the masked key and the referral code.
    pub fn new(email: &str, id: i32, public_key: &str, referral_code: &str) -> (request:
        MailchimpMemberRequest)
        ensures
            request.email_address@ == email@,
            request.status@ == "subscribed"@,
            request.merge_fields@.len() == 3,
            request.merge_fields@[0].tag@ == "MMERGE1"@,
            request.merge_fields@[0].value == MergeValue::Number(id),
            request.merge_fields@[1].tag@ == "MMERGE2"@,
            request.merge_fields@[1].value matches MergeValue::Text(shown) && shown@ == masked(
                public_key@,
            ),
            request.merge_fields@[2].tag@ == "MMERGE3"@,
            request.merge_fields@[2].value matches MergeValue::Text(code) && code@
                == referral_code@,
    {
        let mut merge_fields: Vec<MergeField> = Vec::new();
        merge_fields.push(
            MergeField { tag: String::from_str("MMERGE1"), value: MergeValue::Number(id) },
        );
        merge_fields.push(
            MergeField {
                tag: String::from_str("MMERGE2"),
                value: MergeValue::Text(truncate_public_key(public_key)),
            },
        );
        merge_fields.push(
            MergeField {
                tag: String::from_str("MMERGE3"),
                value: MergeValue::Text(String::from_str(referral_code)),
            },
        );
        MailchimpMemberRequest {
            email_address: String::from_str(email),
            status: String::from_str("subscribed"),
            merge_fields,
        }
    }
}

/// The lower-case form that `str::to_lowercase` gives a text.
pub uninterp spec fn lowercased(text: Seq<char>) -> Seq<char>;

/// The 16 bytes of the MD5 digest that the `md5` crate computes of `data`.
pub uninterp spec fn md5_digest(data: Seq<u8>) -> Seq<u8>;

/// Calls `str::to_lowercase`.
#[verifier::external_body]
fn to_lowercase(text: &str) -> (lower: String)
    ensures
        lower@ == lowercased(text@),
{
    text.to_lowercase()
}

/// Calls `md5::compute` and hands out the 16 bytes of the digest.
#[verifier::external_body]
fn md5_compute(data: &[u8]) -> (digest: [u8; 16])
    ensures
        digest@ == md5_digest(data@),
{
    md5::compute(data).0
}

/// The hexadecimal digit of a value below 16, letters in lower case.
pub open spec fn hex_digit(value: int) -> char {
    if value == 0 {
        '0'
    } else if value == 1 {
        '1'
    } else if value == 2 {
        '2'
    } else if value == 3 {
        '3'
    } else if value == 4 {
        '4'
    } else if value == 5 {
        '5'
    } else if value == 6 {
        '6'
    } else if value == 7 {
        '7'
    } else if value == 8 {
        '8'
    } else if value == 9 {
        '9'
    } else if value == 10 {
        'a'
    } else if value == 11 {
        'b'
    } else if value == 12 {
        'c'
    } else if value == 13 {
        'd'
    } else if value == 14 {
        'e'
    } else {
        'f'
    }
}

/// `bytes` in hexadecimal: two digits for each byte, the high one first.
pub open spec fn hex_lower(bytes: Seq<u8>) -> Seq<char>
    decreases bytes.len(),
{
    if bytes.len() == 0 {
        Seq::empty()
    } else {
        hex_lower(bytes.drop_last()).push(hex_digit(bytes.last() as int / 16)).push(
            hex_digit(bytes.last() as int % 16),
        )
    }
}

fn digit_of(value: u8) -> (digit: char)
    requires
        value < 16,
    ensures
        digit == hex_digit(value as int),
{
    if value == 0 {
        '0'
    } else if value == 1 {
        '1'
    } else if value == 2 {
        '2'
    } else if value == 3 {
        '3'
    } else if value == 4 {
        '4'
    } else if value == 5 {
        '5'
    } else if value == 6 {
        '6'
    } else if value == 7 {
        '7'
    } else if value == 8 {
        '8'
    } else if value == 9 {
        '9'
    } else if value == 10 {
        'a'
    } else if value == 11 {
        'b'
    } else if value == 12 {
        'c'
    } else if value == 13 {
        'd'
    } else if value == 14 {
        'e'
    } else {
        'f'
    }
}

/// Writes bytes in hexadecimal, letters in lower case.
pub fn to_hex(bytes: &[u8]) -> (text: String)
    ensures
        text@ == hex_lower(bytes@),
        text@.len() == 2 * bytes@.len(),
{
    let mut text = String::new();
    let mut i: usize = 0;
    while i < bytes.len()
        invariant
            i <= bytes.len(),
            text@ == hex_lower(bytes@.take(i as int)),
            text@.len() == 2 * i,
        decreases bytes.len() - i,
    {
        assert(bytes@.take(i + 1).drop_last() == bytes@.take(i as int));
        assert(bytes@.take(i + 1).last() == bytes@[i as int]);
        let byte = bytes[i];
        text.push(digit_of(byte / 16));
        text.push(digit_of(byte % 16));
        i = i + 1;
    }
    assert(bytes@.take(i as int) == bytes@);
    text
}

/// The name under which the mailing list keeps an address: the MD5 digest of
/// the address in lower case, in hexadecimal.
pub open spec fn email_hash(email: Seq<char>) -> Seq<char> {
    hex_lower(md5_digest(encode_utf8(lowercased(email))))
}

/// Computes the name under which the mailing list keeps `email`.
pub fn email_to_hash(email: &str) -> (hash: String)
    ensures
        hash@ == email_hash(email@),
        hash@.len() == 32,
{
    let lower = to_lowercase(email);
    let digest = md5_compute(lower.as_str().as_bytes());
    to_hex(digest.as_slice())
}

} // verus!
