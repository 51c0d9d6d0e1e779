//! The startup inputs.

use vstd::prelude::*;
use crate::identity::StartupError;
use crate::views::text_view;

verus! {

/// Polling interval, in seconds, used when none is configured.
pub const DEFAULT_POLL_INTERVAL_SECONDS: u64 = 2;

/// The startup inputs, as a mathematical value.
pub struct ConfigView {
    /// Path of the executable to protect.
    pub trusted_executable_path: Seq<char>,
    /// Path of the detached signature over the executable's content.
    pub signature_path: Seq<char>,
    /// Path of the PEM-encoded public key that the signature is checked with.
    pub public_key_path: Seq<char>,
    /// Seconds of sleep between two audit cycles, at least one.
    pub poll_interval_seconds: u64,
}

/// The startup inputs.
#[derive(Debug)]
pub struct Config {
    trusted_executable_path: String,
    signature_path: String,
    public_key_path: String,
    poll_interval_seconds: u64,
}

impl View for Config {
    type V = ConfigView;

    closed spec fn view(&self) -> ConfigView {
        ConfigView {
            trusted_executable_path: self.trusted_executable_path@,
            signature_path: self.signature_path@,
            public_key_path: self.public_key_path@,
            poll_interval_seconds: self.poll_interval_seconds,
        }
    }
}

/// What `Config::new` gives for the inputs as they were found.
pub open spec fn configured(
    trusted_executable_path: Option<Seq<char>>,
    signature_path: Option<Seq<char>>,
    public_key_path: Option<Seq<char>>,
    poll_interval_seconds: Option<u64>,
) -> Result<ConfigView, StartupError> {
    match (trusted_executable_path, signature_path, public_key_path) {
        (Some(executable), Some(signature), Some(key)) => Ok(
            ConfigView {
                trusted_executable_path: executable,
                signature_path: signature,
                public_key_path: key,
                poll_interval_seconds: poll_interval_of(poll_interval_seconds),
            },
        ),
        _ => Err(StartupError::Usage),
    }
}

impl Config {
    /// The configuration for the inputs as they were found. The three paths
    /// are required: without one of them this is a usage error. The interval
    /// is the default where none is given or the given one is zero.
    pub fn new(
        trusted_executable_path: Option<String>,
        signature_path: Option<String>,
        public_key_path: Option<String>,
        poll_interval_seconds: Option<u64>,
    ) -> (outcome: Result<Config, StartupError>)
        ensures
            match configured(
                text_view(trusted_executable_path),
                text_view(signature_path),
                text_view(public_key_path),
                poll_interval_seconds,
            ) {
                Ok(config) => outcome matches Ok(made) && made@ == config,
                Err(error) => outcome matches Err(given) && given == error,
            },
    {
        match (trusted_executable_path, signature_path, public_key_path) {
            (Some(executable), Some(signature), Some(key)) => Ok(
                Config {
                    trusted_executable_path: executable,
                    signature_path: signature,
                    public_key_path: key,
                    poll_interval_seconds: poll_interval(poll_interval_seconds),
                },
            ),
            _ => Err(StartupError::Usage),
        }
    }

    /// Path of the executable to protect.
    pub fn trusted_executable_path(&self) -> (path: &String)
        ensures
            path@ == self@.trusted_executable_path,
    {
        &self.trusted_executable_path
    }

    /// Path of the detached signature.
    pub fn signature_path(&self) -> (path: &String)
        ensures
            path@ == self@.signature_path,
    {
        &self.signature_path
    }

    /// Path of the public key.
    pub fn public_key_path(&self) -> (path: &String)
        ensures
            path@ == self@.public_key_path,
    {
        &self.public_key_path
    }

    /// Seconds of sleep between two audit cycles.
    pub fn poll_interval_seconds(&self) -> (seconds: u64)
        ensures
            seconds == self@.poll_interval_seconds,
    {
        self.poll_interval_seconds
    }
}

/// The interval between two audit cycles: the requested number of seconds
/// when it is at least one, and the default otherwise.
pub open spec fn poll_interval_of(requested: Option<u64>) -> u64 {
    match requested {
        Some(seconds) if seconds >= 1 => seconds,
        _ => DEFAULT_POLL_INTERVAL_SECONDS,
    }
}

/// The interval between two audit cycles, see `poll_interval_of`.
pub fn poll_interval(requested: Option<u64>) -> (seconds: u64)
    ensures
        seconds == poll_interval_of(requested),
        seconds >= 1,
{
    match requested {
        Some(seconds) if seconds >= 1 => seconds,
        _ => DEFAULT_POLL_INTERVAL_SECONDS,
    }
}

} // verus!
