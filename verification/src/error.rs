//! The errors that the store and the registries report.

use vstd::prelude::*;
use vstd::string::*;

verus! {

/// A setting that a loader needs before it can read a text.
#[derive(Debug, Clone, Copy, PartialEq, Eq, Structural)]
pub enum Setting {
    /// The pattern that recognises a section header.
    Pattern,
    /// The path of the file.
    Path,
    /// The rule that writes a section header.
    Formatter,
}

/// What went wrong in an operation on a store.
#[derive(Debug)]
pub enum ConfError {
    /// A section, or a key inside a section, was looked up and is not there.
    NotFound {
        /// The section that was asked for.
        profile: String,
        /// The key that was asked for, where the section itself was found.
        key: Option<String>,
        /// The file that the store stands for, where the store knows it.
        file: Option<String>,
    },
    /// A loader was asked to load before the setting was given.
    ParseMisconfigured(Setting),
    /// The header pattern is not a regular expression.
    InvalidPattern,
    /// A section was to be created under the empty name.
    InvalidInput,
}

/// The mathematical value of a `ConfError`.
pub enum ConfErrorView {
    NotFound { profile: Seq<char>, key: Option<Seq<char>>, file: Option<Seq<char>> },
    ParseMisconfigured(Setting),
    InvalidPattern,
    InvalidInput,
}

/// The view of an optional string.
pub open spec fn opt_view(s: Option<String>) -> Option<Seq<char>> {
    match s {
        Some(t) => Some(t@),
        None => None,
    }
}

impl View for ConfError {
    type V = ConfErrorView;

    open spec fn view(&self) -> ConfErrorView {
        match *self {
            ConfError::NotFound { profile, key, file } => ConfErrorView::NotFound {
                profile: profile@,
                key: opt_view(key),
                file: opt_view(file),
            },
            ConfError::ParseMisconfigured(s) => ConfErrorView::ParseMisconfigured(s),
            ConfError::InvalidPattern => ConfErrorView::InvalidPattern,
            ConfError::InvalidInput => ConfErrorView::InvalidInput,
        }
    }
}

/// The name of a setting as it is written in a message.
pub open spec fn setting_name(s: Setting) -> Seq<char> {
    match s {
        Setting::Pattern => "reg_profile"@,
        Setting::Path => "path"@,
        Setting::Formatter => "formatter"@,
    }
}

/// The message of an error.
pub open spec fn message_of(e: ConfErrorView) -> Seq<char> {
    match e {
        ConfErrorView::NotFound { profile, key: None, file: None } => "Cannot find profile: "@
            + profile,
        ConfErrorView::NotFound { profile, key: Some(k), file: None } => "Not Found key: "@ + k
            + " in profile: "@ + profile,
        ConfErrorView::NotFound { profile, key: None, file: Some(f) } => "Not Found profile: "@
            + profile + " at "@ + f,
        ConfErrorView::NotFound { profile, key: Some(k), file: Some(f) } => "Not Found "@ + k
            + " in profile "@ + profile + " at "@ + f,
        ConfErrorView::ParseMisconfigured(s) => setting_name(s) + " is not set"@,
        ConfErrorView::InvalidPattern => "reg_profile is not a regular expression"@,
        ConfErrorView::InvalidInput => "profile name is empty"@,
    }
}

impl Setting {
    /// The name of the setting as it is written in a message.
    pub fn name(&self) -> (r: &'static str)
        ensures
            r@ == setting_name(*self),
    {
        match self {
            Setting::Pattern => "reg_profile",
            Setting::Path => "path",
            Setting::Formatter => "formatter",
        }
    }
}

impl ConfError {
    /// The message of the error, for a reader of the program's output.
    pub fn message(&self) -> (r: String)
        ensures
            r@ == message_of(self@),
    {
        match self {
            ConfError::NotFound { profile, key, file } => match (key, file) {
                (None, None) => "Cannot find profile: ".to_owned().concat(profile.as_str()),
                (Some(k), None) => "Not Found key: ".to_owned().concat(k.as_str()).concat(
                    " in profile: ",
                ).concat(profile.as_str()),
                (None, Some(f)) => "Not Found profile: ".to_owned().concat(
                    profile.as_str(),
                ).concat(" at ").concat(f.as_str()),
                (Some(k), Some(f)) => "Not Found ".to_owned().concat(k.as_str()).concat(
                    " in profile ",
                ).concat(profile.as_str()).concat(" at ").concat(f.as_str()),
            },
            ConfError::ParseMisconfigured(s) => s.name().to_owned().concat(" is not set"),
            ConfError::InvalidPattern => "reg_profile is not a regular expression".to_owned(),
            ConfError::InvalidInput => "profile name is empty".to_owned(),
        }
    }
}

/// The error for a section that is not there.
pub open spec fn no_profile(profile: Seq<char>) -> ConfErrorView {
    ConfErrorView::NotFound { profile, key: None, file: None }
}

/// The error for a key that a section does not hold.
pub open spec fn no_key(profile: Seq<char>, key: Seq<char>) -> ConfErrorView {
    ConfErrorView::NotFound { profile, key: Some(key), file: None }
}

} // verus!
