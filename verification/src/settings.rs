//! Participant settings.
//!
//! A participant needs the coordinator's URL, a signing key pair, and the
//! masking scalar it will use. The settings collect these piecewise and are
//! checked for completeness before they become the participant's protocol
//! settings.

use vstd::prelude::*;
use crate::crypto::SigningKeyPair;
use crate::events::Scalar;

verus! {

/// The IEEE-754 bit pattern of the default masking scalar, one.
pub const DEFAULT_SCALAR_BITS: u64 = 0x3FF0000000000000;

/// The default cap on the size of an outgoing message, in bytes.
pub const DEFAULT_MAX_MESSAGE_SIZE: u64 = 4096;

/// A participant's settings, collected piecewise.
#[derive(Clone, Debug)]
pub struct Settings {
    /// The participant signing keys.
    pub keys: Option<SigningKeyPair>,
    /// The coordinator URL.
    pub url: Option<String>,
    /// The scalar used for masking.
    pub scalar: Scalar,
}

/// Why settings are not complete.
#[derive(Clone, Copy, PartialEq, Eq, Structural, Debug)]
pub enum SettingsError {
    /// The coordinator URL must be specified.
    MissingUrl,
    /// The participant signing key pair must be specified.
    MissingKeys,
}

/// A participant's protocol settings, once complete.
#[derive(Clone, Debug)]
pub struct PetSettings {
    /// The scalar used for masking.
    pub scalar: Scalar,
    /// The cap on the size of an outgoing message, in bytes.
    pub max_message_size: u64,
    /// The participant signing keys.
    pub keys: SigningKeyPair,
}

impl Settings {
    /// Creates new empty settings.
    pub fn new() -> (r: Settings)
        ensures
            r.keys is None,
            r.url is None,
            r.scalar.bits == DEFAULT_SCALAR_BITS,
    {
        Settings { keys: None, url: None, scalar: Scalar { bits: DEFAULT_SCALAR_BITS } }
    }

    /// Sets the participant signing keys.
    pub fn set_keys(&mut self, keys: SigningKeyPair)
        ensures
            final(self).keys == Some(keys),
            final(self).url == old(self).url,
            final(self).scalar == old(self).scalar,
    {
        self.keys = Some(keys);
    }

    /// Sets the scalar used for masking.
    pub fn set_scalar(&mut self, scalar: Scalar)
        ensures
            final(self).scalar == scalar,
            final(self).keys == old(self).keys,
            final(self).url == old(self).url,
    {
        self.scalar = scalar;
    }

    /// Sets the coordinator address.
    pub fn set_url(&mut self, url: String)
        ensures
            match final(self).url {
                Some(u) => u@ == url@,
                None => false,
            },
            final(self).keys == old(self).keys,
            final(self).scalar == old(self).scalar,
    {
        self.url = Some(url);
    }

    /// Checks whether the settings are complete: the URL first, then the keys.
    pub fn check(&self) -> (r: Result<(), SettingsError>)
        ensures
            match r {
                Ok(()) => self.url is Some && self.keys is Some,
                Err(SettingsError::MissingUrl) => self.url is None,
                Err(SettingsError::MissingKeys) => self.url is Some && self.keys is None,
            },
    {
        if self.url.is_none() {
            Err(SettingsError::MissingUrl)
        } else if self.keys.is_none() {
            Err(SettingsError::MissingKeys)
        } else {
            Ok(())
        }
    }

    /// Turns complete settings into the coordinator URL and the participant's
    /// protocol settings; incomplete settings name what is missing.
    pub fn into_parts(self) -> (r: Result<(String, PetSettings), SettingsError>)
        ensures
            match r {
                Ok(parts) => {
                    &&& self.url == Some(parts.0)
                    &&& self.keys == Some(parts.1.keys)
                    &&& parts.1.scalar == self.scalar
                    &&& parts.1.max_message_size == DEFAULT_MAX_MESSAGE_SIZE
                },
                Err(SettingsError::MissingUrl) => self.url is None,
                Err(SettingsError::MissingKeys) => self.url is Some && self.keys is None,
            },
    {
        let Settings { keys, url, scalar } = self;
        let url = match url {
            Some(url) => url,
            None => {
                return Err(SettingsError::MissingUrl);
            },
        };
        let keys = match keys {
            Some(keys) => keys,
            None => {
                return Err(SettingsError::MissingKeys);
            },
        };
        let pet_settings = PetSettings {
            scalar,
            max_message_size: DEFAULT_MAX_MESSAGE_SIZE,
            keys,
        };
        Ok((url, pet_settings))
    }
}

impl Default for Settings {
    /// Empty settings with the default scalar.
    fn default() -> (r: Settings)
        ensures
            r.keys is None,
            r.url is None,
            r.scalar.bits == DEFAULT_SCALAR_BITS,
    {
        Settings::new()
    }
}

} // verus!
