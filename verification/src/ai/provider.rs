//! The providers the user can pick, and one interface over them: callers
//! never need to know which one was chosen. A new provider is added here
//! and in `spec_provider_kinds`.
use vstd::prelude::*;
use crate::ai::anthropic::{self, AnthropicProvider};
use crate::ai::gemini::{self, GeminiProvider};
use crate::ai::http_client::{
    check_status, is_call, parse_error_text, parse_failure, status_error_text, status_ok, HttpRequest, HttpResponse,
};
use crate::ai::openai_compatible::{self, OpenAiCompatibleProvider, OPENAI_DEFAULT_URL};
use crate::error::{other_with, AppError};
use crate::json::JsonValue;
use crate::models::AiSendResponse;
use crate::text::{str_eq, views};

verus! {

broadcast use vstd::string::group_string_axioms;

/// The provider kinds, in the order offered to the user.
pub open spec fn spec_provider_kinds() -> Seq<Seq<char>> {
    seq!["anthropic"@, "openai"@, "gemini"@, "openai_compatible"@]
}

/// The provider kinds (`AI_PROVIDER_KINDS`).
pub fn ai_provider_kinds() -> (v: Vec<String>)
    ensures
        views(v@) == spec_provider_kinds(),
{
    let mut v: Vec<String> = Vec::new();
    v.push(String::from_str("anthropic"));
    v.push(String::from_str("openai"));
    v.push(String::from_str("gemini"));
    v.push(String::from_str("openai_compatible"));
    assert(views(v@) =~= spec_provider_kinds());
    v
}

proof fn lemma_kinds()
    ensures
        spec_provider_kinds()[0] == "anthropic"@,
        spec_provider_kinds()[1] == "openai"@,
        spec_provider_kinds()[2] == "gemini"@,
        spec_provider_kinds()[3] == "openai_compatible"@,
        spec_provider_kinds().len() == 4,
{
}

/// The error for a provider kind that is not offered.
pub open spec fn unsupported_text(kind: Seq<char>) -> Seq<char> {
    "未対応のAIプロバイダーです: "@ + kind
}

/// Whether `kind` is one of the offered provider kinds.
pub fn is_provider_kind(kind: &str) -> (b: bool)
    ensures
        b == spec_provider_kinds().contains(kind@),
{
    proof {
        lemma_kinds();
    }
    let b = str_eq(kind, "anthropic") || str_eq(kind, "openai") || str_eq(kind, "gemini") || str_eq(
        kind,
        "openai_compatible",
    );
    if !b {
        assert(!spec_provider_kinds().contains(kind@));
    }
    b
}

/// Accepts an offered provider kind; names any other in the error.
pub fn check_provider_kind(kind: &str) -> (r: Result<(), AppError>)
    ensures
        r is Ok <==> spec_provider_kinds().contains(kind@),
        !spec_provider_kinds().contains(kind@) ==> (r matches Err(AppError::Other(m)) && m@ == unsupported_text(
            kind@,
        )),
{
    if is_provider_kind(kind) {
        Ok(())
    } else {
        Err(other_with("未対応のAIプロバイダーです: ", kind))
    }
}

pub enum Provider {
    Anthropic(AnthropicProvider),
    OpenAiCompatible(OpenAiCompatibleProvider),
    Gemini(GeminiProvider),
}

/// The provider each kind stands for: `openai` is the compatible provider
/// at OpenAI's own endpoint, `openai_compatible` the one at a base URL.
pub open spec fn provider_for(kind: Seq<char>, p: Provider) -> bool {
    if kind == "anthropic"@ {
        p is Anthropic
    } else if kind == "openai"@ {
        p matches Provider::OpenAiCompatible(o) && o.fixed() == Some(OPENAI_DEFAULT_URL@)
    } else if kind == "gemini"@ {
        p is Gemini
    } else {
        p matches Provider::OpenAiCompatible(o) && o.fixed() == None::<Seq<char>>
    }
}

/// The provider of an offered kind; an error naming any other kind.
pub fn build_provider(kind: &str) -> (r: Result<Provider, AppError>)
    ensures
        r is Ok <==> spec_provider_kinds().contains(kind@),
        r matches Ok(p) ==> provider_for(kind@, p),
        !spec_provider_kinds().contains(kind@) ==> (r matches Err(AppError::Other(m)) && m@ == unsupported_text(
            kind@,
        )),
{
    proof {
        lemma_kinds();
    }
    if str_eq(kind, "anthropic") {
        Ok(Provider::Anthropic(AnthropicProvider))
    } else if str_eq(kind, "openai") {
        Ok(Provider::OpenAiCompatible(OpenAiCompatibleProvider::openai()))
    } else if str_eq(kind, "gemini") {
        Ok(Provider::Gemini(GeminiProvider))
    } else if str_eq(kind, "openai_compatible") {
        Ok(Provider::OpenAiCompatible(OpenAiCompatibleProvider::custom()))
    } else {
        assert(!spec_provider_kinds().contains(kind@));
        Err(other_with("未対応のAIプロバイダーです: ", kind))
    }
}

/// How errors name the provider.
pub open spec fn api_name_of(p: Provider) -> Seq<char> {
    match p {
        Provider::Anthropic(_) => anthropic::API_NAME@,
        Provider::OpenAiCompatible(_) => openai_compatible::API_NAME@,
        Provider::Gemini(_) => gemini::API_NAME@,
    }
}

/// The URL and headers of the provider's request, or why it is refused.
pub open spec fn provider_call(p: Provider, api_key: Seq<char>, base_url: Option<&str>, model: Seq<char>) -> Result<
    (Seq<char>, Seq<(Seq<char>, Seq<char>)>),
    Seq<char>,
> {
    match p {
        Provider::Anthropic(_) => anthropic::call(api_key, base_url),
        Provider::OpenAiCompatible(o) => openai_compatible::call(o.fixed(), api_key, base_url),
        Provider::Gemini(_) => gemini::call(api_key, base_url, model),
    }
}

/// What the provider reads from a parsed reply: text, input and output
/// token counts.
pub open spec fn provider_reply(p: Provider, parsed: JsonValue) -> (Seq<char>, Option<i64>, Option<i64>) {
    match p {
        Provider::Anthropic(_) => (
            anthropic::reply_text(parsed),
            anthropic::usage(parsed, "input_tokens"@),
            anthropic::usage(parsed, "output_tokens"@),
        ),
        Provider::OpenAiCompatible(_) => (
            openai_compatible::reply_text(parsed),
            openai_compatible::usage(parsed, "prompt_tokens"@),
            openai_compatible::usage(parsed, "completion_tokens"@),
        ),
        Provider::Gemini(_) => (
            gemini::reply_text(parsed),
            gemini::usage(parsed, "promptTokenCount"@),
            gemini::usage(parsed, "candidatesTokenCount"@),
        ),
    }
}

impl Provider {
    pub fn api_name(&self) -> (r: &'static str)
        ensures
            r@ == api_name_of(*self),
    {
        match self {
            Provider::Anthropic(_) => anthropic::API_NAME,
            Provider::OpenAiCompatible(_) => openai_compatible::API_NAME,
            Provider::Gemini(_) => gemini::API_NAME,
        }
    }

    /// The request that sends `body_json` (see `provider_call`).
    pub fn request(&self, api_key: &str, base_url: Option<&str>, model: &str, body_json: String) -> (r: Result<
        HttpRequest,
        AppError,
    >)
        ensures
            is_call(r, provider_call(*self, api_key@, base_url, model@), body_json@),
    {
        match self {
            Provider::Anthropic(a) => a.request(api_key, base_url, body_json),
            Provider::OpenAiCompatible(o) => o.request(api_key, base_url, body_json),
            Provider::Gemini(g) => g.request(api_key, base_url, model, body_json),
        }
    }

    /// Accepts a 2xx response; any other is an error naming the provider.
    pub fn check_status(&self, resp: &HttpResponse) -> (r: Result<(), AppError>)
        ensures
            r is Ok <==> status_ok(resp.status),
            !status_ok(resp.status) ==> (r matches Err(AppError::Other(m)) && m@ == status_error_text(
                api_name_of(*self),
                resp.status,
                resp.body@,
            )),
    {
        check_status(self.api_name(), resp)
    }

    /// The error for a reply that is not the JSON expected.
    pub fn parse_failure(&self, detail: &str) -> (e: AppError)
        ensures
            e matches AppError::Other(m) && m@ == parse_error_text(api_name_of(*self), detail@),
    {
        parse_failure(self.api_name(), detail)
    }

    /// What the provider reads from a parsed reply.
    pub fn reply(&self, parsed: &JsonValue) -> (r: AiSendResponse)
        ensures
            (r.content@, r.input_tokens, r.output_tokens) == provider_reply(*self, *parsed),
    {
        match self {
            Provider::Anthropic(a) => a.reply(parsed),
            Provider::OpenAiCompatible(o) => o.reply(parsed),
            Provider::Gemini(g) => g.reply(parsed),
        }
    }
}

/// The API key never goes into the URL (which `curl` receives as an
/// argument, visible to other processes) except for Gemini, whose API
/// takes it only there: for the other providers, two requests that differ
/// only in their key go to the same URL.
pub proof fn law_key_stays_out_of_url(
    p: Provider,
    key1: Seq<char>,
    key2: Seq<char>,
    base_url: Option<&str>,
    model: Seq<char>,
)
    requires
        !(p is Gemini),
        provider_call(p, key1, base_url, model) is Ok,
        provider_call(p, key2, base_url, model) is Ok,
    ensures
        provider_call(p, key1, base_url, model)->Ok_0.0 == provider_call(p, key2, base_url, model)->Ok_0.0,
{
}

} // verus!
