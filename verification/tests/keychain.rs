use humla::keychain::{keychain_account_for, requires_api_key, KEYCHAIN_SERVICE};

#[test]
fn known_providers_have_keychain_accounts() {
    assert_eq!(keychain_account_for("openai"), Some("openai_api_key"));
    assert_eq!(keychain_account_for("deepgram"), Some("deepgram_api_key"));
    assert_eq!(keychain_account_for("groq"), Some("groq_api_key"));
    assert_eq!(keychain_account_for("local"), None);
    assert_eq!(keychain_account_for("nonsense"), None);
}

#[test]
fn requires_api_key_matches_accounts() {
    for p in ["openai", "deepgram", "groq", "local", "nonsense", "", "OpenAI", "openai "] {
        assert_eq!(requires_api_key(p), keychain_account_for(p).is_some());
    }
    assert!(requires_api_key("groq"));
    assert!(!requires_api_key("local"));
}

#[test]
fn account_is_provider_followed_by_api_key() {
    for p in ["openai", "deepgram", "groq"] {
        assert_eq!(keychain_account_for(p).unwrap(), format!("{p}_api_key"));
    }
}

#[test]
fn keychain_service_name() {
    assert_eq!(KEYCHAIN_SERVICE, "no.humla.app");
}
