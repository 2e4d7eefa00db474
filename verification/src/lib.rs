//! A store for sectioned `key = value` configuration files of the AWS command
//! line tools, with the rules around it that an MFA helper needs.

pub mod aws;
pub mod content;
pub mod error;
pub mod file;
pub mod header;
pub mod laws;
pub mod mfa;
pub mod otp;
pub mod parser;
pub mod profile;
pub mod roundtrip;
pub mod store;
pub mod sts;
pub mod text;

pub use content::{Content, ContentBuilder};
pub use error::{ConfError, Setting};
pub use file::{ConfFile, ConfLoader};
pub use header::{capture, HeaderStyle, PROFILE_CONFIG, PROFILE_CREDENTIALS};
pub use mfa::{MfaConfig, Secret};
pub use otp::{get_otp, OtpError};
pub use profile::Profile;
