use novel_studio_ai::ai::anthropic::AnthropicProvider;
use novel_studio_ai::ai::gemini::GeminiProvider;
use novel_studio_ai::ai::http_client::HttpResponse;
use novel_studio_ai::ai::openai_compatible::OpenAiCompatibleProvider;
use novel_studio_ai::ai::provider::{ai_provider_kinds, build_provider, check_provider_kind, is_provider_kind, Provider};
use novel_studio_ai::json::JsonValue;
use novel_studio_ai::models::AiChatTurn;

fn s(v: &str) -> JsonValue {
    JsonValue::Str(v.to_string())
}

fn obj(members: Vec<(&str, JsonValue)>) -> JsonValue {
    JsonValue::Object(members.into_iter().map(|(k, v)| (k.to_string(), v)).collect())
}

fn headers(r: &novel_studio_ai::ai::http_client::HttpRequest) -> Vec<(&str, &str)> {
    r.headers.iter().map(|(n, v)| (n.as_str(), v.as_str())).collect()
}

#[test]
fn every_listed_kind_builds_a_provider() {
    assert_eq!(ai_provider_kinds(), vec!["anthropic", "openai", "gemini", "openai_compatible"]);
    for kind in ai_provider_kinds() {
        assert!(is_provider_kind(&kind));
        assert!(check_provider_kind(&kind).is_ok());
        assert!(build_provider(&kind).is_ok());
    }
    assert!(matches!(build_provider("anthropic"), Ok(Provider::Anthropic(_))));
    assert!(matches!(build_provider("gemini"), Ok(Provider::Gemini(_))));
    let e = build_provider("mistral").err().unwrap();
    assert_eq!(e.message(), "エラー: 未対応のAIプロバイダーです: mistral");
}

#[test]
fn anthropic_request_carries_the_key_in_a_header() {
    let p = AnthropicProvider;
    let r = p.request("sk-1", None, "{}".to_string()).unwrap();
    assert_eq!(r.method, "POST");
    assert_eq!(r.url, "https://api.anthropic.com/v1/messages");
    assert_eq!(
        headers(&r),
        vec![("x-api-key", "sk-1"), ("anthropic-version", "2023-06-01"), ("content-type", "application/json")]
    );
    assert_eq!(r.body_json.as_deref(), Some("{}"));
    assert_eq!(r.timeout_secs, 120);
    let custom = p.request("sk-1", Some("http://proxy/v1/messages"), "{}".to_string()).unwrap();
    assert_eq!(custom.url, "http://proxy/v1/messages");
    let e = p.request("", None, "{}".to_string()).err().unwrap();
    assert_eq!(e.message(), "エラー: Anthropic APIキーが設定されていません。設定画面から登録してください。");
    assert_eq!(AnthropicProvider::max_tokens(None), 2048);
    assert_eq!(AnthropicProvider::max_tokens(Some(100)), 100);
}

#[test]
fn gemini_request_carries_the_key_in_the_url() {
    let p = GeminiProvider;
    let r = p.request("g-1", Some("http://host/v1beta///"), "gemini-pro", "{}".to_string()).unwrap();
    assert_eq!(r.url, "http://host/v1beta/models/gemini-pro:generateContent?key=g-1");
    assert_eq!(headers(&r), vec![("content-type", "application/json")]);
    let d = p.request("g-1", None, "m", "{}".to_string()).unwrap();
    assert_eq!(d.url, "https://generativelanguage.googleapis.com/v1beta/models/m:generateContent?key=g-1");
    assert!(p.request("", None, "m", "{}".to_string()).is_err());
    assert_eq!(GeminiProvider::role("assistant"), "model");
    assert_eq!(GeminiProvider::role("user"), "user");
    assert_eq!(GeminiProvider::role("system"), "user");
}

#[test]
fn openai_compatible_endpoints_and_keys() {
    let openai = OpenAiCompatibleProvider::openai();
    let r = openai.request("sk", Some("http://ignored"), "{}".to_string()).unwrap();
    assert_eq!(r.url, "https://api.openai.com/v1/chat/completions");
    assert_eq!(headers(&r), vec![("content-type", "application/json"), ("Authorization", "Bearer sk")]);
    let e = openai.request("", None, "{}".to_string()).err().unwrap();
    assert_eq!(e.message(), "エラー: OpenAI APIキーが設定されていません。設定画面から登録してください。");

    let local = OpenAiCompatibleProvider::custom();
    let l = local.request("", Some("http://localhost:1234/v1/chat/completions"), "{}".to_string()).unwrap();
    assert_eq!(l.url, "http://localhost:1234/v1/chat/completions");
    assert_eq!(headers(&l), vec![("content-type", "application/json")]);
    let e = local.request("", None, "{}".to_string()).err().unwrap();
    assert_eq!(e.message(), "エラー: OpenAI互換プロバイダーにはBase URLの設定が必要です。");
}

#[test]
fn openai_turns_put_the_system_prompt_first() {
    let turns = vec![AiChatTurn { role: "user".into(), content: "こんにちは".into() }];
    let t = OpenAiCompatibleProvider::turns(Some("指示"), &turns);
    assert_eq!(t.len(), 2);
    assert_eq!((t[0].role.as_str(), t[0].content.as_str()), ("system", "指示"));
    assert_eq!((t[1].role.as_str(), t[1].content.as_str()), ("user", "こんにちは"));
    assert_eq!(OpenAiCompatibleProvider::turns(None, &turns).len(), 1);
}

#[test]
fn replies_are_read_per_provider() {
    let anthropic = obj(vec![
        ("content", JsonValue::Array(vec![obj(vec![("type", s("tool_use"))]), obj(vec![("type", s("text")), ("text", s("答え"))])])),
        ("usage", obj(vec![("input_tokens", JsonValue::Number(Some(12))), ("output_tokens", JsonValue::Number(Some(7)))])),
    ]);
    let r = build_provider("anthropic").unwrap().reply(&anthropic);
    assert_eq!((r.content.as_str(), r.input_tokens, r.output_tokens), ("答え", Some(12), Some(7)));

    let openai = obj(vec![
        ("choices", JsonValue::Array(vec![obj(vec![("message", obj(vec![("content", s("続き"))]))])])),
        ("usage", obj(vec![("prompt_tokens", JsonValue::Number(Some(3))), ("completion_tokens", JsonValue::Number(None))])),
    ]);
    let r = build_provider("openai").unwrap().reply(&openai);
    assert_eq!((r.content.as_str(), r.input_tokens, r.output_tokens), ("続き", Some(3), None));

    let gemini = obj(vec![
        (
            "candidates",
            JsonValue::Array(vec![obj(vec![(
                "content",
                obj(vec![("parts", JsonValue::Array(vec![obj(vec![("text", s("提案"))])]))]),
            )])]),
        ),
        ("usageMetadata", obj(vec![("promptTokenCount", JsonValue::Number(Some(5)))])),
    ]);
    let r = build_provider("gemini").unwrap().reply(&gemini);
    assert_eq!((r.content.as_str(), r.input_tokens, r.output_tokens), ("提案", Some(5), None));

    let empty = build_provider("gemini").unwrap().reply(&JsonValue::Null);
    assert_eq!((empty.content.as_str(), empty.input_tokens), ("", None));
}

#[test]
fn non_2xx_responses_are_errors_with_the_start_of_the_body() {
    let p = build_provider("anthropic").unwrap();
    assert!(p.check_status(&HttpResponse { status: 200, body: String::new() }).is_ok());
    let long = "x".repeat(600);
    let e = p.check_status(&HttpResponse { status: 429, body: long }).unwrap_err();
    assert_eq!(e.message(), format!("エラー: Anthropic APIがエラーを返しました(status=429): {}...", "x".repeat(500)));
    let e = build_provider("openai_compatible").unwrap().check_status(&HttpResponse { status: 0, body: "oops".into() }).unwrap_err();
    assert_eq!(e.message(), "エラー: AIプロバイダーがエラーを返しました(status=0): oops");
    let e = build_provider("gemini").unwrap().parse_failure("EOF");
    assert_eq!(e.message(), "エラー: Gemini APIの応答を解析できませんでした: EOF");
}
