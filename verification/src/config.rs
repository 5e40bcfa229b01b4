//! The account and channel settings, and the test that they are usable.

use vstd::prelude::*;

verus! {

/// What the mirror needs to know: the API credentials, the phone number of
/// the account, the source channels and the destination channel.
#[derive(Debug)]
pub struct AppConfig {
    pub api_hash: String,
    pub api_id: i32,
    pub phone: String,
    pub from: Vec<String>,
    pub to: String,
}

/// The number of bytes of a text in UTF-8.
pub open spec fn byte_len(text: Seq<char>) -> nat {
    vstd::utf8::encode_utf8(text).len()
}

/// A configuration is usable when the hash and the destination have at least
/// three bytes, the phone number at least five, the API id is at least ten and
/// there is at least one source.
pub open spec fn valid_config(config: &AppConfig) -> bool {
    &&& byte_len(config.api_hash@) >= 3
    &&& config.api_id >= 10
    &&& config.from@.len() > 0
    &&& byte_len(config.to@) >= 3
    &&& byte_len(config.phone@) >= 5
}

/// Whether the configuration is usable: see [`valid_config`].
pub fn is_valid(config: &AppConfig) -> (valid: bool)
    ensures
        valid == valid_config(config),
{
    if config.api_hash.as_str().as_bytes().len() < 3 {
        return false;
    }
    if config.api_id < 10 || config.from.len() == 0 {
        return false;
    }
    config.to.as_str().as_bytes().len() >= 3 && config.phone.as_str().as_bytes().len() >= 5
}

} // verus!
