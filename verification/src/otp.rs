//! The one-time password of a profile's MFA device at a given time.

use crate::mfa::{secret_of, MfaConfig};
use vstd::prelude::*;
use vstd::string::*;

verus! {

/// The number of digits of a password.
pub const DIGITS: usize = 6;

/// The number of time steps by which a verifier may be off.
pub const SKEW: u8 = 1;

/// The length of a time step in seconds.
pub const STEP: u64 = 30;

#[verifier::external_type_specification]
#[verifier::external_body]
pub struct ExSecretParseError(totp_rs::SecretParseError);

#[verifier::external_type_specification]
#[verifier::external_body]
pub struct ExTotpUrlError(totp_rs::TotpUrlError);

/// Why no password could be made.
#[derive(Debug)]
pub enum OtpError {
    /// The registry holds no device for the profile.
    NoDevice { profile: String },
    /// The secret key of the device is not base32 text.
    InvalidSecret,
    /// The secret key of the device is refused as the key of a generator.
    RejectedSecret,
}

/// The mathematical value of an `OtpError`.
pub enum OtpErrorView {
    NoDevice { profile: Seq<char> },
    InvalidSecret,
    RejectedSecret,
}

impl View for OtpError {
    type V = OtpErrorView;

    open spec fn view(&self) -> OtpErrorView {
        match *self {
            OtpError::NoDevice { profile } => OtpErrorView::NoDevice { profile: profile@ },
            OtpError::InvalidSecret => OtpErrorView::InvalidSecret,
            OtpError::RejectedSecret => OtpErrorView::RejectedSecret,
        }
    }
}

/// The upper case letter of a lower case ASCII letter; any other character
/// itself.
pub open spec fn ascii_upper(c: char) -> char {
    if 'a' <= c <= 'z' {
        ((c as u32) - 32) as char
    } else {
        c
    }
}

/// The text with every lower case ASCII letter in upper case.
pub open spec fn upper_of(s: Seq<char>) -> Seq<char> {
    Seq::new(s.len(), |i: int| ascii_upper(s[i]))
}

/// The bytes that `totp_rs` reads from base32 text without padding; `None`
/// where the text is not base32.
pub uninterp spec fn base32_bytes(encoded: Seq<char>) -> Option<Seq<u8>>;

/// The password that a SHA-1 generator of `totp_rs` with the given secret
/// key, number of digits, skew and step makes for a time in seconds; `None`
/// where `totp_rs` refuses to build the generator.
pub uninterp spec fn sha1_code(secret: Seq<u8>, digits: int, skew: int, step: int, time: int) -> Option<
    Seq<char>,
>;

/// `str::to_ascii_uppercase` of the standard library: the letters `a` to `z`
/// become `A` to `Z`, every other character stays.
#[verifier::external_body]
fn to_upper(s: &str) -> (r: String)
    ensures
        r@ == upper_of(s@),
{
    s.to_ascii_uppercase()
}

/// `totp_rs::Secret::to_bytes` on an encoded secret: the bytes that the
/// base32 text stands for. The contract names them; it fails exactly where
/// there are none.
#[verifier::external_body]
fn decode_secret(encoded: String) -> (r: Result<Vec<u8>, totp_rs::SecretParseError>)
    ensures
        match base32_bytes(encoded@) {
            Some(bytes) => r is Ok && r->Ok_0@ == bytes,
            None => r is Err,
        },
{
    totp_rs::Secret::Encoded(encoded).to_bytes()
}

/// `totp_rs::TOTP::new` with SHA-1, then `TOTP::generate` for the time. The
/// contract names the password; it fails exactly where the generator is
/// refused. A step of zero is left out: `generate` divides by it.
#[verifier::external_body]
fn generate_sha1(secret: Vec<u8>, digits: usize, skew: u8, step: u64, time: u64) -> (r: Result<
    String,
    totp_rs::TotpUrlError,
>)
    requires
        step > 0,
    ensures
        match sha1_code(secret@, digits as int, skew as int, step as int, time as int) {
            Some(code) => r is Ok && r->Ok_0@ == code,
            None => r is Err,
        },
{
    let totp = totp_rs::TOTP::new(totp_rs::Algorithm::SHA1, digits, skew, step, secret)?;
    Ok(totp.generate(time))
}

/// The password for a secret key at a time, or why there is none: the key
/// is put in upper case and read as base32, and the bytes are the key of a
/// generator of six digits with a step of thirty seconds.
pub open spec fn otp_of(secret: Option<Seq<char>>, profile: Seq<char>, time: int) -> Result<
    Seq<char>,
    OtpErrorView,
> {
    match secret {
        None => Err(OtpErrorView::NoDevice { profile }),
        Some(text) => match base32_bytes(upper_of(text)) {
            None => Err(OtpErrorView::InvalidSecret),
            Some(bytes) => match sha1_code(bytes, DIGITS as int, SKEW as int, STEP as int, time) {
                None => Err(OtpErrorView::RejectedSecret),
                Some(code) => Ok(code),
            },
        },
    }
}

/// The view of a password or of the reason why there is none.
pub open spec fn otp_view(r: Result<String, OtpError>) -> Result<Seq<char>, OtpErrorView> {
    match r {
        Ok(code) => Ok(code@),
        Err(e) => Err(e@),
    }
}

/// The one-time password of a secret key at `time`, in seconds since the
/// start of 1970.
pub fn otp_for_secret(secret: &str, profile: &str, time: u64) -> (r: Result<String, OtpError>)
    ensures
        otp_view(r) == otp_of(Some(secret@), profile@, time as int),
{
    let bytes = match decode_secret(to_upper(secret)) {
        Ok(b) => b,
        Err(_) => {
            return Err(OtpError::InvalidSecret);
        },
    };
    match generate_sha1(bytes, DIGITS, SKEW, STEP, time) {
        Ok(code) => Ok(code),
        Err(_) => Err(OtpError::RejectedSecret),
    }
}

/// The one-time password of the MFA device of `profile` at `time`, in
/// seconds since the start of 1970.
pub fn get_otp(config: &MfaConfig, profile: &str, time: u64) -> (r: Result<String, OtpError>)
    ensures
        otp_view(r) == otp_of(secret_of(config@, profile@), profile@, time as int),
{
    match config.get_secret(profile) {
        Ok(secret) => otp_for_secret(secret.as_str(), profile, time),
        Err(_) => Err(OtpError::NoDevice { profile: profile.to_owned() }),
    }
}

} // verus!
