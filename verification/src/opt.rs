//! The options of a run, and what a run decides from them.

use crate::mfa::AssumeRoleWithMFATokenProvider;
use crate::params::text_of;
use vstd::prelude::*;

verus! {

/// The options of a run.
#[derive(Debug)]
pub struct EnvFmtOpts {
    /// What to do: read or write.
    pub command: Command,
    /// The format to print results in.
    pub format: Option<Format>,
    /// The region to operate in.
    pub region: Option<String>,
    /// The profile to authenticate with.
    pub profile: Option<String>,
    /// Whether to show verbose diagnostics.
    pub debug: bool,
    /// Whether to authenticate with an MFA code that is prompted for.
    pub mfa: bool,
    /// The MFA code to authenticate with, in place of the prompt.
    pub mfa_token: Option<String>,
    /// The file to write results to, in place of standard output.
    pub out: Option<String>,
}

/// What a run does.
#[derive(Debug)]
pub enum Command {
    /// Read the parameters under `path`.
    Read { path: String },
    /// Write the entries of the file at `file_path` under `prefix`,
    /// replacing values that are already there only with `overwrite`.
    Write { prefix: Option<String>, file_path: String, overwrite: bool },
}

impl Default for Command {
    fn default() -> (r: Command)
        ensures
            r matches Command::Read { path } && path@ == Seq::<char>::empty(),
    {
        Command::Read { path: String::new() }
    }
}

/// An output format.
#[derive(Debug, Clone, Copy, PartialEq, Eq, Structural)]
pub enum Format {
    DotEnv,
    PhpFpm,
}

/// Why an argument was refused.
#[derive(Debug, Clone, Copy, PartialEq, Eq, Structural)]
pub enum ArgError {
    /// The format named is none of those known.
    InvalidFormat,
}

impl ArgError {
    /// What the error says.
    pub fn message(&self) -> (r: String)
        ensures
            r@ == "the value given is not a valid output format"@,
    {
        "the value given is not a valid output format".to_owned()
    }
}

/// The format of the name `name`, if it names one.
pub open spec fn format_named(name: Seq<char>) -> Option<Format> {
    if name == "dot-env"@ {
        Some(Format::DotEnv)
    } else if name == "php-fpm"@ {
        Some(Format::PhpFpm)
    } else {
        None
    }
}

impl Format {
    /// Reads the name of a format: `dot-env` or `php-fpm`.
    pub fn from_str(s: &str) -> (r: Result<Format, ArgError>)
        ensures
            match format_named(s@) {
                Some(format) => r == Ok::<Format, ArgError>(format),
                None => r == Err::<Format, ArgError>(ArgError::InvalidFormat),
            },
    {
        let name = s.to_owned();
        if name == "dot-env".to_owned() {
            Ok(Format::DotEnv)
        } else if name == "php-fpm".to_owned() {
            Ok(Format::PhpFpm)
        } else {
            Err(ArgError::InvalidFormat)
        }
    }
}

impl EnvFmtOpts {
    /// Whether the run authenticates with an MFA code, prompted for or
    /// supplied.
    pub fn uses_mfa(&self) -> (r: bool)
        ensures
            r == (self.mfa || self.mfa_token is Some),
    {
        self.mfa || self.mfa_token.is_some()
    }

    /// The format to print results in: the one chosen, or `.env`.
    pub fn output_format(&self) -> (r: Format)
        ensures
            r == match self.format {
                Some(format) => format,
                None => Format::DotEnv,
            },
    {
        match self.format {
            Some(format) => format,
            None => Format::DotEnv,
        }
    }

    /// The credential provider of a run that authenticates with an MFA
    /// code: for the profile, the code and the region of the options.
    pub fn provider(&self) -> (r: AssumeRoleWithMFATokenProvider)
        ensures
            text_of(r.profile) == text_of(self.profile),
            text_of(r.token) == text_of(self.mfa_token),
            text_of(r.region) == text_of(self.region),
    {
        let mut provider = AssumeRoleWithMFATokenProvider::new();
        provider.set_profile(copy_of(&self.profile));
        provider.set_token(copy_of(&self.mfa_token));
        provider.set_region(copy_of(&self.region));
        provider
    }
}

/// A copy of an optional string.
fn copy_of(text: &Option<String>) -> (r: Option<String>)
    ensures
        r == *text,
{
    match text {
        Some(text) => Some(text.clone()),
        None => None,
    }
}

} // verus!
