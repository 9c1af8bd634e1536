//! What a process is started with: one secret and the fixed endpoints.

use vstd::prelude::*;
use nostr::FromBech32;
use crate::error::CycleError;

verus! {

/// The local port of the proxy through which onion relays are reached.
pub const PROXY_PORT: u16 = 9050;

/// The configuration of a session, built once at startup and handed on.
#[derive(Debug, Clone)]
pub struct SessionConfig {
    /// The private signing key, in its bech32 text form.
    pub private_key: String,
    pub relay_url: String,
    pub proxy_port: u16,
    pub output_path: String,
}

/// Whether `nostr::SecretKey::from_bech32` accepts a text as a private key.
pub uninterp spec fn secret_key_accepted(text: Seq<char>) -> bool;

/// Calls `nostr::SecretKey::from_bech32` and says whether it gave a key.
/// Trusted: the answer is the named function of the text.
#[verifier::external_body]
fn accepts_secret_key(text: &str) -> (ok: bool)
    ensures
        ok == secret_key_accepted(text@),
{
    nostr::SecretKey::from_bech32(text).is_ok()
}

impl SessionConfig {
    /// Whether this is the configuration for the private key `text`: the
    /// endpoints are the fixed ones.
    pub open spec fn is_for(&self, text: Seq<char>) -> bool {
        &&& self.private_key@ == text
        &&& self.relay_url@ == "wss://relay.damus.io"@
        &&& self.proxy_port == PROXY_PORT
        &&& self.output_path@ == "output.json"@
    }

    /// Builds the configuration from the key text, given whether the text was
    /// accepted as a private key. A missing or rejected key is a
    /// configuration error.
    pub fn build(key: Option<String>, accepted: bool) -> (r: Result<SessionConfig, CycleError>)
        ensures
            match r {
                Ok(c) => key is Some && accepted && c.is_for(key->Some_0@),
                Err(e) => e == CycleError::Config && !(key is Some && accepted),
            },
    {
        match key {
            Some(text) => {
                if accepted {
                    Ok(
                        SessionConfig {
                            private_key: text,
                            relay_url: "wss://relay.damus.io".to_owned(),
                            proxy_port: PROXY_PORT,
                            output_path: "output.json".to_owned(),
                        },
                    )
                } else {
                    Err(CycleError::Config)
                }
            },
            None => Err(CycleError::Config),
        }
    }

    /// Builds the configuration from the private key's text, where there is
    /// one. A missing key, or a text that is no private key, is a
    /// configuration error.
    pub fn load(key: Option<String>) -> (r: Result<SessionConfig, CycleError>)
        ensures
            match r {
                Ok(c) => key is Some && secret_key_accepted(key->Some_0@) && c.is_for(
                    key->Some_0@,
                ),
                Err(e) => e == CycleError::Config && !(key is Some && secret_key_accepted(
                    key->Some_0@,
                )),
            },
    {
        let accepted = match &key {
            Some(text) => accepts_secret_key(text.as_str()),
            None => false,
        };
        SessionConfig::build(key, accepted)
    }
}

} // verus!
