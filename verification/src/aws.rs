//! The two files of the AWS command line tools, `config` and `credentials`,
//! and what an MFA login does to them.

use crate::error::{ConfError, ConfErrorView};
use crate::file::{ConfFile, ConfFileView, ConfLoader};
use crate::header::{pattern_compiles, HeaderStyle, PROFILE_CONFIG, PROFILE_CREDENTIALS};
use crate::parser::parsed;
use crate::profile::{lookup, with_pair, without_key, Profile, ProfileView};
use crate::store::{find, rendered, style_renderer, upsert};
use crate::sts::StsCredential;
use vstd::prelude::*;
use vstd::string::*;

verus! {

/// The name of the config file below the AWS directory.
pub const CONFIG_FILENAME: &'static str = "config";

/// The name of the credentials file below the AWS directory.
pub const CREDENTIALS_FILENAME: &'static str = "credentials";

/// The key under which a profile names its MFA device.
pub const MFA_SERIAL: &'static str = "mfa_serial";

/// The key of the access key id in a credentials section.
pub const ACCESS_KEY_ID: &'static str = "aws_access_key_id";

/// The key of the secret access key in a credentials section.
pub const SECRET_ACCESS_KEY: &'static str = "aws_secret_access_key";

/// The key of the session token in a credentials section.
pub const SESSION_TOKEN: &'static str = "aws_session_token";

/// A file that is to be written: its name below the AWS directory and its
/// whole text.
#[derive(Debug)]
pub struct FileImage {
    pub name: String,
    pub text: String,
}

/// One of the two file formats: how a header is recognised, how it is
/// written, and what the file is called.
#[derive(Debug, Clone, Copy, PartialEq, Eq, Structural)]
pub enum Dialect {
    /// The credentials file, with a name in square brackets as header.
    Credentials,
    /// The config file, with `[default]` and `[profile <name>]` as headers.
    Config,
}

/// The header pattern of a format.
pub open spec fn dialect_pattern(d: Dialect) -> Seq<char> {
    match d {
        Dialect::Credentials => PROFILE_CREDENTIALS@,
        Dialect::Config => PROFILE_CONFIG@,
    }
}

/// The header style of a format.
pub open spec fn dialect_style(d: Dialect) -> HeaderStyle {
    match d {
        Dialect::Credentials => HeaderStyle::Bare,
        Dialect::Config => HeaderStyle::Prefixed,
    }
}

/// The file name of a format.
pub open spec fn dialect_filename(d: Dialect) -> Seq<char> {
    match d {
        Dialect::Credentials => CREDENTIALS_FILENAME@,
        Dialect::Config => CONFIG_FILENAME@,
    }
}

impl Dialect {
    /// The pattern that recognises a header.
    pub fn pattern(&self) -> (r: &'static str)
        ensures
            r@ == dialect_pattern(*self),
    {
        match self {
            Dialect::Credentials => PROFILE_CREDENTIALS,
            Dialect::Config => PROFILE_CONFIG,
        }
    }

    /// The style in which a header is written.
    pub fn style(&self) -> (r: HeaderStyle)
        ensures
            r == dialect_style(*self),
    {
        match self {
            Dialect::Credentials => HeaderStyle::Bare,
            Dialect::Config => HeaderStyle::Prefixed,
        }
    }

    /// The name of the file below the AWS directory.
    pub fn filename(&self) -> (r: &'static str)
        ensures
            r@ == dialect_filename(*self),
    {
        match self {
            Dialect::Credentials => CREDENTIALS_FILENAME,
            Dialect::Config => CONFIG_FILENAME,
        }
    }

    /// Reads the text of a file of this format.
    pub fn load(&self, text: &str) -> (r: Result<ConfFile, ConfError>)
        ensures
            r is Ok <==> pattern_compiles(dialect_pattern(*self)),
            r matches Err(e) ==> e@ == ConfErrorView::InvalidPattern,
            r matches Ok(c) ==> c@ == (ConfFileView {
                style: dialect_style(*self),
                profiles: parsed(dialect_pattern(*self), text@),
            }),
    {
        ConfLoader::new().set_path(self.filename()).set_reg_profile(self.pattern()).set_formatter(
            self.style(),
        ).load(text)
    }
}

/// The error for a profile that a file does not hold.
pub open spec fn missing_profile(profile: Seq<char>, file: Seq<char>) -> ConfErrorView {
    ConfErrorView::NotFound { profile, key: None, file: Some(file) }
}

/// The error for a key that a profile of a file does not hold.
pub open spec fn missing_key(profile: Seq<char>, key: Seq<char>, file: Seq<char>) -> ConfErrorView {
    ConfErrorView::NotFound { profile, key: Some(key), file: Some(file) }
}

/// The `config` file.
#[derive(Debug)]
pub struct Config {
    content: ConfFile,
}

impl View for Config {
    type V = ConfFileView;

    closed spec fn view(&self) -> ConfFileView {
        self.content@
    }
}

impl Config {
    /// The config file with the given text. Its headers are `[default]` and
    /// `[profile <name>]`.
    pub fn new(text: &str) -> (r: Result<Self, ConfError>)
        ensures
            r is Ok <==> pattern_compiles(PROFILE_CONFIG@),
            r matches Err(e) ==> e@ == ConfErrorView::InvalidPattern,
            r matches Ok(c) ==> c@ == (ConfFileView {
                style: HeaderStyle::Prefixed,
                profiles: parsed(PROFILE_CONFIG@, text@),
            }),
    {
        Self::load(text)
    }

    /// The sections of the file.
    pub fn content(&self) -> (r: &ConfFile)
        ensures
            r@ == self@,
    {
        &self.content
    }

    /// The MFA device of a profile. Fails where the file has no such
    /// profile, and where the profile names no device.
    pub fn mfa_serial(&self, profile: &str) -> (r: Result<&str, ConfError>)
        ensures
            match find(self@.profiles, profile@) {
                None => r is Err && r->Err_0@ == missing_profile(profile@, CONFIG_FILENAME@),
                Some(p) => match lookup(p.lines, MFA_SERIAL@) {
                    Some(v) => r is Ok && r->Ok_0@ == v,
                    None => r is Err && r->Err_0@ == missing_key(
                        profile@,
                        MFA_SERIAL@,
                        CONFIG_FILENAME@,
                    ),
                },
            },
    {
        match self.content.profile(profile) {
            None => Err(
                ConfError::NotFound {
                    profile: profile.to_owned(),
                    key: None,
                    file: Some(CONFIG_FILENAME.to_owned()),
                },
            ),
            Some(p) => match p.get(MFA_SERIAL) {
                Some(v) => Ok(v),
                None => Err(
                    ConfError::NotFound {
                        profile: profile.to_owned(),
                        key: Some(MFA_SERIAL.to_owned()),
                        file: Some(CONFIG_FILENAME.to_owned()),
                    },
                ),
            },
        }
    }

    /// The file with the profile `src` set under the name `dst`, without its
    /// MFA device. Fails where the file has no profile `src`.
    pub fn set_mfa_profile(self, src: &str, dst: &str) -> (r: Result<Self, ConfError>)
        ensures
            match find(self@.profiles, src@) {
                None => r is Err && r->Err_0@ == missing_profile(src@, CONFIG_FILENAME@),
                Some(p) => r is Ok && r->Ok_0@ == (ConfFileView {
                    style: self@.style,
                    profiles: upsert(
                        self@.profiles,
                        ProfileView { name: dst@, lines: without_key(p.lines, MFA_SERIAL@) },
                    ),
                }),
            },
    {
        let profile = match self.content.profile(src) {
            None => {
                return Err(
                    ConfError::NotFound {
                        profile: src.to_owned(),
                        key: None,
                        file: Some(CONFIG_FILENAME.to_owned()),
                    },
                );
            },
            Some(p) => p.clone().rename(dst).remove(MFA_SERIAL),
        };
        Ok(Config { content: self.content.set(profile) })
    }

    /// What is to be written to disk: the file's name and text.
    pub fn save(&self) -> (r: FileImage)
        ensures
            r.name@ == CONFIG_FILENAME@,
            r.text@ == rendered(style_renderer(self@.style), self@.profiles),
    {
        FileImage { name: CONFIG_FILENAME.to_owned(), text: self.write() }
    }

    /// Reads the text of a config file.
    pub fn load(text: &str) -> (r: Result<Self, ConfError>)
        ensures
            r is Ok <==> pattern_compiles(PROFILE_CONFIG@),
            r matches Err(e) ==> e@ == ConfErrorView::InvalidPattern,
            r matches Ok(c) ==> c@ == (ConfFileView {
                style: HeaderStyle::Prefixed,
                profiles: parsed(PROFILE_CONFIG@, text@),
            }),
    {
        match Dialect::Config.load(text) {
            Ok(content) => Ok(Config { content }),
            Err(e) => Err(e),
        }
    }

    /// The text of the file.
    pub fn write(&self) -> (r: String)
        ensures
            r@ == rendered(style_renderer(self@.style), self@.profiles),
    {
        self.content.write()
    }
}

/// The lines of a credentials section for the given credentials.
pub open spec fn credential_lines(
    access_key_id: Seq<char>,
    secret_access_key: Seq<char>,
    session_token: Seq<char>,
) -> Seq<Seq<char>> {
    with_pair(
        with_pair(
            with_pair(Seq::empty(), ACCESS_KEY_ID@, access_key_id),
            SECRET_ACCESS_KEY@,
            secret_access_key,
        ),
        SESSION_TOKEN@,
        session_token,
    )
}

/// The `credentials` file.
#[derive(Debug)]
pub struct Credentials {
    content: ConfFile,
}

impl View for Credentials {
    type V = ConfFileView;

    closed spec fn view(&self) -> ConfFileView {
        self.content@
    }
}

impl Credentials {
    /// The credentials file with the given text. Its headers are names in
    /// square brackets.
    pub fn new(text: &str) -> (r: Result<Self, ConfError>)
        ensures
            r is Ok <==> pattern_compiles(PROFILE_CREDENTIALS@),
            r matches Err(e) ==> e@ == ConfErrorView::InvalidPattern,
            r matches Ok(c) ==> c@ == (ConfFileView {
                style: HeaderStyle::Bare,
                profiles: parsed(PROFILE_CREDENTIALS@, text@),
            }),
    {
        Self::load(text)
    }

    /// The sections of the file.
    pub fn content(&self) -> (r: &ConfFile)
        ensures
            r@ == self@,
    {
        &self.content
    }

    /// The file with the credentials set as the section `name`: the access
    /// key id, the secret access key and the session token, in this order.
    /// The empty name is refused.
    pub fn set_cred(self, name: &str, cred: StsCredential) -> (r: Result<Self, ConfError>)
        ensures
            name@.len() == 0 ==> r is Err && r->Err_0@ == ConfErrorView::InvalidInput,
            name@.len() > 0 ==> r is Ok && r->Ok_0@ == (ConfFileView {
                style: self@.style,
                profiles: upsert(
                    self@.profiles,
                    ProfileView {
                        name: name@,
                        lines: credential_lines(
                            cred.access_key_id@,
                            cred.secret_access_key@,
                            cred.session_token@,
                        ),
                    },
                ),
            }),
    {
        let profile = match Profile::new(name) {
            Ok(p) => p,
            Err(e) => {
                return Err(e);
            },
        };
        let profile = profile.set(ACCESS_KEY_ID, cred.access_key_id.as_str()).set(
            SECRET_ACCESS_KEY,
            cred.secret_access_key.as_str(),
        ).set(SESSION_TOKEN, cred.session_token.as_str());
        Ok(Credentials { content: self.content.set(profile) })
    }

    /// What is to be written to disk: the file's name and text.
    pub fn save(&self) -> (r: FileImage)
        ensures
            r.name@ == CREDENTIALS_FILENAME@,
            r.text@ == rendered(style_renderer(self@.style), self@.profiles),
    {
        FileImage { name: CREDENTIALS_FILENAME.to_owned(), text: self.write() }
    }

    /// Reads the text of a credentials file.
    pub fn load(text: &str) -> (r: Result<Self, ConfError>)
        ensures
            r is Ok <==> pattern_compiles(PROFILE_CREDENTIALS@),
            r matches Err(e) ==> e@ == ConfErrorView::InvalidPattern,
            r matches Ok(c) ==> c@ == (ConfFileView {
                style: HeaderStyle::Bare,
                profiles: parsed(PROFILE_CREDENTIALS@, text@),
            }),
    {
        match Dialect::Credentials.load(text) {
            Ok(content) => Ok(Credentials { content }),
            Err(e) => Err(e),
        }
    }

    /// The text of the file.
    pub fn write(&self) -> (r: String)
        ensures
            r@ == rendered(style_renderer(self@.style), self@.profiles),
    {
        self.content.write()
    }
}

/// The config file and the credentials file together.
#[derive(Debug)]
pub struct AwsConfigs {
    config: Config,
    credentials: Credentials,
}

/// The mathematical value of an `AwsConfigs`.
pub struct AwsConfigsView {
    pub config: ConfFileView,
    pub credentials: ConfFileView,
}

impl View for AwsConfigs {
    type V = AwsConfigsView;

    closed spec fn view(&self) -> AwsConfigsView {
        AwsConfigsView { config: self.config@, credentials: self.credentials@ }
    }
}

impl AwsConfigs {
    /// The two files with the given texts.
    pub fn new(config_text: &str, credentials_text: &str) -> (r: Result<Self, ConfError>)
        ensures
            r is Ok <==> pattern_compiles(PROFILE_CONFIG@) && pattern_compiles(
                PROFILE_CREDENTIALS@,
            ),
            r matches Err(e) ==> e@ == ConfErrorView::InvalidPattern,
            r matches Ok(c) ==> c@ == (AwsConfigsView {
                config: ConfFileView {
                    style: HeaderStyle::Prefixed,
                    profiles: parsed(PROFILE_CONFIG@, config_text@),
                },
                credentials: ConfFileView {
                    style: HeaderStyle::Bare,
                    profiles: parsed(PROFILE_CREDENTIALS@, credentials_text@),
                },
            }),
    {
        let config = match Config::new(config_text) {
            Ok(c) => c,
            Err(e) => {
                return Err(e);
            },
        };
        let credentials = match Credentials::new(credentials_text) {
            Ok(c) => c,
            Err(e) => {
                return Err(e);
            },
        };
        Ok(AwsConfigs { config, credentials })
    }

    /// The config file.
    pub fn config(&self) -> (r: &Config)
        ensures
            r@ == self@.config,
    {
        &self.config
    }

    /// The credentials file.
    pub fn credentials(&self) -> (r: &Credentials)
        ensures
            r@ == self@.credentials,
    {
        &self.credentials
    }

    /// The MFA device that the config file names for a profile.
    pub fn mfa_serial(&self, name: &str) -> (r: Result<String, ConfError>)
        ensures
            match find(self@.config.profiles, name@) {
                None => r is Err && r->Err_0@ == missing_profile(name@, CONFIG_FILENAME@),
                Some(p) => match lookup(p.lines, MFA_SERIAL@) {
                    Some(v) => r is Ok && r->Ok_0@ == v,
                    None => r is Err && r->Err_0@ == missing_key(
                        name@,
                        MFA_SERIAL@,
                        CONFIG_FILENAME@,
                    ),
                },
            },
    {
        match self.config.mfa_serial(name) {
            Ok(v) => Ok(v.to_owned()),
            Err(e) => Err(e),
        }
    }

    /// The files after a login with the profile `src`: in the config file
    /// the profile `src` is set under the name `dst` without its MFA device,
    /// and in the credentials file the credentials are set under the name
    /// `dst`. Fails where the config file has no profile `src`, and where
    /// `dst` is empty; nothing is changed then.
    pub fn set_cred(self, src: &str, dst: &str, cred: StsCredential) -> (r: Result<
        Self,
        ConfError,
    >)
        ensures
            match find(self@.config.profiles, src@) {
                None => r is Err && r->Err_0@ == missing_profile(src@, CONFIG_FILENAME@),
                Some(p) => if dst@.len() == 0 {
                    r is Err && r->Err_0@ == ConfErrorView::InvalidInput
                } else {
                    r is Ok && r->Ok_0@ == (AwsConfigsView {
                        config: ConfFileView {
                            style: self@.config.style,
                            profiles: upsert(
                                self@.config.profiles,
                                ProfileView {
                                    name: dst@,
                                    lines: without_key(p.lines, MFA_SERIAL@),
                                },
                            ),
                        },
                        credentials: ConfFileView {
                            style: self@.credentials.style,
                            profiles: upsert(
                                self@.credentials.profiles,
                                ProfileView {
                                    name: dst@,
                                    lines: credential_lines(
                                        cred.access_key_id@,
                                        cred.secret_access_key@,
                                        cred.session_token@,
                                    ),
                                },
                            ),
                        },
                    })
                },
            },
    {
        let config = match self.config.set_mfa_profile(src, dst) {
            Ok(c) => c,
            Err(e) => {
                return Err(e);
            },
        };
        let credentials = match self.credentials.set_cred(dst, cred) {
            Ok(c) => c,
            Err(e) => {
                return Err(e);
            },
        };
        Ok(AwsConfigs { config, credentials })
    }

    /// What is to be written to disk, in the order of writing: the config
    /// file, then the credentials file.
    pub fn save(&self) -> (r: Vec<FileImage>)
        ensures
            r@.len() == 2,
            r@[0].name@ == CONFIG_FILENAME@,
            r@[0].text@ == rendered(
                style_renderer(self@.config.style),
                self@.config.profiles,
            ),
            r@[1].name@ == CREDENTIALS_FILENAME@,
            r@[1].text@ == rendered(
                style_renderer(self@.credentials.style),
                self@.credentials.profiles,
            ),
    {
        let mut out: Vec<FileImage> = Vec::new();
        out.push(self.config.save());
        out.push(self.credentials.save());
        out
    }
}

} // verus!
