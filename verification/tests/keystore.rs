use novel_studio_ai::ai::keystore::AiKeyStore;
use novel_studio_ai::ai::requests::set_api_key;

#[test]
fn set_has_get_and_clear_roundtrip() {
    let mut store = AiKeyStore::new();
    assert!(!store.has("anthropic"));
    store.set("anthropic", "sk-test-123".into());
    assert!(store.has("anthropic"));
    assert_eq!(store.get("anthropic").as_deref(), Some("sk-test-123"));
    store.clear("anthropic");
    assert!(!store.has("anthropic"));
}

#[test]
fn setting_empty_string_clears_key() {
    let mut store = AiKeyStore::new();
    store.set("openai", "sk-abc".into());
    store.set("openai", "".into());
    assert!(!store.has("openai"));
}

#[test]
fn writing_one_key_leaves_the_others() {
    let mut store = AiKeyStore::default();
    store.set("anthropic", "sk-a".into());
    store.set("gemini", "g-1".into());
    store.set("anthropic", "sk-b".into());
    assert_eq!(store.get("anthropic").as_deref(), Some("sk-b"));
    assert_eq!(store.get("gemini").as_deref(), Some("g-1"));
    store.clear("gemini");
    assert_eq!(store.get("anthropic").as_deref(), Some("sk-b"));
    assert_eq!(store.get("gemini"), None);
    assert_eq!(store.get("openai"), None);
}

#[test]
fn keys_are_accepted_only_for_offered_providers() {
    let mut store = AiKeyStore::new();
    let e = set_api_key(&mut store, "mistral", "sk".into()).unwrap_err();
    assert_eq!(e.message(), "エラー: 未対応のAIプロバイダーです: mistral");
    assert!(!store.has("mistral"));
    set_api_key(&mut store, "openai_compatible", "local".into()).unwrap();
    assert_eq!(store.get("openai_compatible").as_deref(), Some("local"));
    set_api_key(&mut store, "openai_compatible", String::new()).unwrap();
    assert!(!store.has("openai_compatible"));
}
