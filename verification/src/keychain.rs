//! Per-provider keychain slots. Each cloud transcription provider keeps its
//! API key in a keychain account of its own, named after the provider;
//! providers that take no key (such as local Whisper) have no account.

use vstd::prelude::*;
use crate::text::str_eq;

verus! {

/// Keychain service under which every provider's key is stored.
pub const KEYCHAIN_SERVICE: &'static str = "no.humla.app";

/// The keychain account of a provider, if it takes an API key.
pub open spec fn account_for(provider_id: Seq<char>) -> Option<Seq<char>> {
    if provider_id == "openai"@ {
        Some("openai_api_key"@)
    } else if provider_id == "deepgram"@ {
        Some("deepgram_api_key"@)
    } else if provider_id == "groq"@ {
        Some("groq_api_key"@)
    } else {
        None
    }
}

pub open spec fn opt_str_view(o: Option<&'static str>) -> Option<Seq<char>> {
    match o {
        Some(s) => Some(s@),
        None => None,
    }
}

/// Maps a provider id to its keychain account name; `None` for providers
/// that do not take an API key.
pub fn keychain_account_for(provider_id: &str) -> (r: Option<&'static str>)
    ensures
        opt_str_view(r) == account_for(provider_id@),
{
    if str_eq(provider_id, "openai") {
        Some("openai_api_key")
    } else if str_eq(provider_id, "deepgram") {
        Some("deepgram_api_key")
    } else if str_eq(provider_id, "groq") {
        Some("groq_api_key")
    } else {
        None
    }
}

/// True exactly for the providers that have a keychain account.
pub fn requires_api_key(provider_id: &str) -> (r: bool)
    ensures
        r == account_for(provider_id@) is Some,
{
    keychain_account_for(provider_id).is_some()
}

/// Every provider's account is its id followed by `_api_key`.
pub proof fn law_account_is_provider_api_key(provider_id: Seq<char>)
    ensures
        account_for(provider_id) matches Some(a) ==> a == provider_id + "_api_key"@,
{
    reveal_strlit("openai");
    reveal_strlit("deepgram");
    reveal_strlit("groq");
    reveal_strlit("_api_key");
    reveal_strlit("openai_api_key");
    reveal_strlit("deepgram_api_key");
    reveal_strlit("groq_api_key");
    if provider_id == "openai"@ {
        assert("openai_api_key"@ =~= "openai"@ + "_api_key"@);
    } else if provider_id == "deepgram"@ {
        assert("deepgram_api_key"@ =~= "deepgram"@ + "_api_key"@);
    } else if provider_id == "groq"@ {
        assert("groq_api_key"@ =~= "groq"@ + "_api_key"@);
    }
}

} // verus!
