//! Secrets that are wiped from memory when they are dropped.

use crate::error::{ErrorCategory, VoxError};
use crate::text::{decimal, join3, write_number};
use vstd::prelude::*;
use vstd::string::*;
use vstd::utf8::*;

verus! {

/// A string in a `zeroize::Zeroizing`, which overwrites it with zeros when it is dropped.
#[verifier::external_body]
pub struct WipedText {
    text: zeroize::Zeroizing<String>,
}

/// The text that a wiped string holds while it lives.
pub uninterp spec fn wiped_text(wiped: WipedText) -> Seq<char>;

/// `zeroize::Zeroizing::new`: keeps the string as it is until it is dropped.
#[verifier::external_body]
fn wipe_later(text: String) -> (wiped: WipedText)
    ensures
        wiped_text(wiped) == text@,
{
    WipedText { text: zeroize::Zeroizing::new(text) }
}

/// `Deref` of `zeroize::Zeroizing`: the string that is kept.
#[verifier::external_body]
fn kept_text(wiped: &WipedText) -> (text: &str)
    ensures
        text@ == wiped_text(*wiped),
{
    wiped.text.as_str()
}

/// A secret; it has no form that shows it but [`SecretString::expose`].
pub struct SecretString {
    value: WipedText,
}

/// An ASCII control byte.
pub open spec fn control_byte(byte: u8) -> bool {
    byte < 0x20 || byte == 0x7F
}

pub open spec fn no_control_bytes(bytes: Seq<u8>) -> bool {
    forall|i: int| 0 <= i < bytes.len() ==> !control_byte(#[trigger] bytes[i])
}

/// A secret is not empty and has no control bytes, which could escape a configuration line.
pub open spec fn proper_secret(bytes: Seq<u8>) -> bool {
    bytes.len() > 0 && no_control_bytes(bytes)
}

/// The error that a secret is refused with.
pub open spec fn secret_refused(error: VoxError) -> bool {
    error.says(
        ErrorCategory::Authentication,
        "secret.invalid_characters"@,
        "secret must be non-empty and contain no control characters"@,
        false,
    )
}

/// Whether there is no ASCII control byte among the bytes.
pub fn lacks_control_bytes(bytes: &[u8]) -> (r: bool)
    ensures
        r == no_control_bytes(bytes@),
{
    for i in 0..bytes.len()
        invariant
            forall|j: int| 0 <= j < i ==> !control_byte(#[trigger] bytes@[j]),
    {
        let byte: u8 = bytes[i];
        if byte < 0x20 || byte == 0x7F {
            assert(control_byte(bytes@[i as int]));
            return false;
        }
    }
    true
}

/// Validates secret material accepted by command-line and settings-store boundaries.
pub fn validate_secret_bytes(value: &[u8]) -> (r: Result<(), VoxError>)
    ensures
        match r {
            Ok(_) => proper_secret(value@),
            Err(error) => !proper_secret(value@) && secret_refused(error),
        },
{
    if value.len() == 0 || !lacks_control_bytes(value) {
        return Err(
            VoxError::new(
                ErrorCategory::Authentication,
                "secret.invalid_characters",
                "secret must be non-empty and contain no control characters",
            ),
        );
    }
    Ok(())
}

impl SecretString {
    pub closed spec fn view(&self) -> Seq<char> {
        wiped_text(self.value)
    }

    pub fn new(value: String) -> (secret: Self)
        ensures
            secret@ == value@,
    {
        SecretString { value: wipe_later(value) }
    }

    /// What becomes of a value that is to be kept as a secret.
    pub open spec fn tried(r: Result<Self, VoxError>, value: Seq<char>) -> bool {
        match r {
            Ok(secret) => proper_secret(encode_utf8(value)) && secret@ == value,
            Err(error) => !proper_secret(encode_utf8(value)) && secret_refused(error),
        }
    }

    /// Creates a secret after rejecting control characters that could escape a transport
    /// configuration line.
    pub fn try_new(value: String) -> (r: Result<Self, VoxError>)
        ensures
            Self::tried(r, value@),
    {
        match validate_secret_bytes(value.as_str().as_bytes()) {
            Ok(_) => Ok(SecretString::new(value)),
            Err(error) => Err(error),
        }
    }

    pub fn expose(&self) -> (r: &str)
        ensures
            r@ == self@,
    {
        kept_text(&self.value)
    }

    /// What is shown in place of the secret: the same for every secret.
    pub fn redacted(&self) -> (r: &'static str)
        ensures
            r@ == "SecretString([redacted])"@,
    {
        "SecretString([redacted])"
    }
}

/// Bytes in a `zeroize::Zeroizing`, which overwrites them with zeros when it is dropped.
#[verifier::external_body]
pub struct WipedBytes {
    bytes: zeroize::Zeroizing<Vec<u8>>,
}

/// The bytes that a wiped buffer holds while it lives.
pub uninterp spec fn wiped_bytes(wiped: WipedBytes) -> Seq<u8>;

/// `zeroize::Zeroizing::new`: keeps the bytes as they are until they are dropped.
#[verifier::external_body]
fn wipe_bytes_later(bytes: Vec<u8>) -> (wiped: WipedBytes)
    ensures
        wiped_bytes(wiped) == bytes@,
{
    WipedBytes { bytes: zeroize::Zeroizing::new(bytes) }
}

/// `Deref` of `zeroize::Zeroizing`: the bytes that are kept.
#[verifier::external_body]
fn kept_bytes(wiped: &WipedBytes) -> (bytes: &[u8])
    ensures
        bytes@ == wiped_bytes(*wiped),
{
    wiped.bytes.as_slice()
}

/// Token-bearing request bytes that are cleared when dropped.
pub struct SecretRequest {
    bytes: WipedBytes,
}

impl SecretRequest {
    pub closed spec fn view(&self) -> Seq<u8> {
        wiped_bytes(self.bytes)
    }

    pub fn new(bytes: Vec<u8>) -> (request: Self)
        ensures
            request@ == bytes@,
    {
        SecretRequest { bytes: wipe_bytes_later(bytes) }
    }

    pub fn as_bytes(&self) -> (r: &[u8])
        ensures
            r@ == self@,
    {
        kept_bytes(&self.bytes)
    }

    /// What is shown in place of the request: only its length.
    pub fn redacted(&self) -> (r: String)
        ensures
            r@ == "SecretRequest(["@ + decimal(self@.len()) + " redacted bytes])"@,
    {
        let length = write_number(self.as_bytes().len() as u64);
        join3("SecretRequest([", length.as_str(), " redacted bytes])")
    }
}

/// A secret is taken exactly where it is not empty and none of its bytes is a control character of
/// ASCII, and then it is kept unchanged.
pub proof fn law_secret_is_taken_whole(r: Result<SecretString, VoxError>, value: Seq<char>)
    requires
        SecretString::tried(r, value),
    ensures
        r is Ok <==> encode_utf8(value).len() > 0 && forall|i: int|
            0 <= i < encode_utf8(value).len() ==> (#[trigger] encode_utf8(value)[i]) >= 32
                && encode_utf8(value)[i] != 127,
        r is Ok ==> r->Ok_0@ == value,
        r is Err ==> r->Err_0.code_text() == "secret.invalid_characters"@,
{
    let bytes = encode_utf8(value);
    if r is Ok {
        assert forall|i: int| 0 <= i < bytes.len() implies (#[trigger] bytes[i]) >= 32 && bytes[i]
            != 127 by {
            assert(!control_byte(bytes[i]));
        }
    } else if bytes.len() > 0 {
        let i = choose|i: int| 0 <= i < bytes.len() && control_byte(#[trigger] bytes[i]);
        assert(bytes[i] < 32 || bytes[i] == 127);
    }
}

} // verus!
