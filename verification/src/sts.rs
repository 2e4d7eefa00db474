//! The request for temporary credentials and the credentials that come
//! back.

use crate::error::opt_view;
use std::fmt::Write;
use vstd::prelude::*;
use vstd::string::*;

verus! {

/// What is asked of the token service: the profile to ask with, how long
/// the credentials should live, the MFA device and its current code.
#[derive(Debug)]
pub struct GetSessionToken {
    profile: Option<String>,
    duration_seconds: Option<i32>,
    serial_number: Option<String>,
    token_code: Option<String>,
}

/// The mathematical value of a `GetSessionToken`.
pub struct GetSessionTokenView {
    pub profile: Option<Seq<char>>,
    pub duration_seconds: Option<i32>,
    pub serial_number: Option<Seq<char>>,
    pub token_code: Option<Seq<char>>,
}

impl View for GetSessionToken {
    type V = GetSessionTokenView;

    closed spec fn view(&self) -> GetSessionTokenView {
        GetSessionTokenView {
            profile: opt_view(self.profile),
            duration_seconds: self.duration_seconds,
            serial_number: opt_view(self.serial_number),
            token_code: opt_view(self.token_code),
        }
    }
}

/// The view of an optional borrowed string.
pub open spec fn opt_ref_view(s: Option<&String>) -> Option<Seq<char>> {
    match s {
        Some(t) => Some(t@),
        None => None,
    }
}

impl GetSessionToken {
    /// A request with nothing set.
    pub fn new() -> (r: Self)
        ensures
            r@ == (GetSessionTokenView {
                profile: None,
                duration_seconds: None,
                serial_number: None,
                token_code: None,
            }),
    {
        GetSessionToken {
            profile: None,
            duration_seconds: None,
            serial_number: None,
            token_code: None,
        }
    }

    /// The request with the profile replaced.
    pub fn set_profile(self, profile: Option<String>) -> (r: Self)
        ensures
            r@ == (GetSessionTokenView { profile: opt_view(profile), ..self@ }),
    {
        GetSessionToken {
            profile,
            duration_seconds: self.duration_seconds,
            serial_number: self.serial_number,
            token_code: self.token_code,
        }
    }

    /// The request with the lifetime replaced.
    pub fn set_duration_seconds(self, duration_seconds: Option<i32>) -> (r: Self)
        ensures
            r@ == (GetSessionTokenView { duration_seconds, ..self@ }),
    {
        GetSessionToken {
            profile: self.profile,
            duration_seconds,
            serial_number: self.serial_number,
            token_code: self.token_code,
        }
    }

    /// The request with the MFA device replaced.
    pub fn set_serial_number(self, serial_number: Option<String>) -> (r: Self)
        ensures
            r@ == (GetSessionTokenView { serial_number: opt_view(serial_number), ..self@ }),
    {
        GetSessionToken {
            profile: self.profile,
            duration_seconds: self.duration_seconds,
            serial_number,
            token_code: self.token_code,
        }
    }

    /// The request with the code of the MFA device replaced.
    pub fn set_token_code(self, token_code: Option<String>) -> (r: Self)
        ensures
            r@ == (GetSessionTokenView { token_code: opt_view(token_code), ..self@ }),
    {
        GetSessionToken {
            profile: self.profile,
            duration_seconds: self.duration_seconds,
            serial_number: self.serial_number,
            token_code,
        }
    }

    /// The profile to ask with.
    pub fn profile(&self) -> (r: Option<&String>)
        ensures
            opt_ref_view(r) == self@.profile,
    {
        self.profile.as_ref()
    }

    /// How long the credentials should live, in seconds.
    pub fn duration_seconds(&self) -> (r: Option<i32>)
        ensures
            r == self@.duration_seconds,
    {
        self.duration_seconds
    }

    /// The MFA device.
    pub fn serial_number(&self) -> (r: Option<&String>)
        ensures
            opt_ref_view(r) == self@.serial_number,
    {
        self.serial_number.as_ref()
    }

    /// The code of the MFA device.
    pub fn token_code(&self) -> (r: Option<&String>)
        ensures
            opt_ref_view(r) == self@.token_code,
    {
        self.token_code.as_ref()
    }
}

/// A point in time: seconds since the start of 1970 in UTC, and the
/// nanoseconds into that second.
#[derive(Debug, Clone, Copy, PartialEq, Eq, Structural)]
pub struct Timestamp {
    pub secs: i64,
    pub nanos: u32,
}

/// Temporary credentials.
#[derive(Debug)]
pub struct StsCredential {
    pub access_key_id: String,
    pub secret_access_key: String,
    pub session_token: String,
    pub expiration: Option<Timestamp>,
}

/// How the end of validity is written.
pub const EXPIRATION_LAYOUT: &'static str = "%Y-%m-%d %H:%M:%S";

/// What is written where the end of validity is not known.
pub const EXPIRATION_UNKNOWN: &'static str = "Unknown";

/// What `chrono` writes for the UTC date and time of a timestamp under a
/// `strftime` layout; `None` where `chrono::DateTime::from_timestamp` has no
/// date for the timestamp, or where the layout cannot be written.
pub uninterp spec fn utc_text(secs: int, nanos: int, layout: Seq<char>) -> Option<Seq<char>>;

/// Builds the date with `chrono::DateTime::from_timestamp` and writes its
/// UTC date and time with `NaiveDateTime::format`. The contract only names
/// the text; `None` stands for a timestamp without a date and for a layout
/// that `chrono` refuses to write.
#[verifier::external_body]
fn format_utc(secs: i64, nanos: u32, layout: &str) -> (r: Option<String>)
    ensures
        opt_view(r) == utc_text(secs as int, nanos as int, layout@),
{
    let time = chrono::DateTime::from_timestamp(secs, nanos)?;
    let mut out = String::new();
    write!(out, "{}", time.naive_utc().format(layout)).ok()?;
    Some(out)
}

/// The text for the end of validity, given what was written for its
/// timestamp.
pub open spec fn expiration_of(written: Option<Seq<char>>) -> Seq<char> {
    match written {
        Some(text) => text,
        None => EXPIRATION_UNKNOWN@,
    }
}

/// The text for the end of validity: the written timestamp, or `Unknown`
/// where there is none.
pub fn expiration_text(written: Option<String>) -> (r: String)
    ensures
        r@ == expiration_of(opt_view(written)),
{
    match written {
        Some(text) => text,
        None => EXPIRATION_UNKNOWN.to_owned(),
    }
}

impl StsCredential {
    /// Credentials with the given parts.
    pub fn new(
        access_key_id: String,
        secret_access_key: String,
        session_token: String,
        expiration: Option<Timestamp>,
    ) -> (r: Self)
        ensures
            r.access_key_id == access_key_id,
            r.secret_access_key == secret_access_key,
            r.session_token == session_token,
            r.expiration == expiration,
    {
        StsCredential { access_key_id, secret_access_key, session_token, expiration }
    }

    /// The end of validity as UTC date and time, or `Unknown` where it is
    /// not known or has no date.
    pub fn expiration(&self) -> (r: String)
        ensures
            r@ == match self.expiration {
                Some(t) => expiration_of(
                    utc_text(t.secs as int, t.nanos as int, EXPIRATION_LAYOUT@),
                ),
                None => EXPIRATION_UNKNOWN@,
            },
    {
        match self.expiration {
            Some(t) => expiration_text(format_utc(t.secs, t.nanos, EXPIRATION_LAYOUT)),
            None => expiration_text(None),
        }
    }
}

impl Default for StsCredential {
    fn default() -> (r: Self)
        ensures
            r.access_key_id@.len() == 0,
            r.secret_access_key@.len() == 0,
            r.session_token@.len() == 0,
            r.expiration is None,
    {
        StsCredential {
            access_key_id: String::new(),
            secret_access_key: String::new(),
            session_token: String::new(),
            expiration: None,
        }
    }
}

} // verus!
