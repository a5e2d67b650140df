//! Google's Gemini API: where a request goes (the key travels in the URL,
//! as Google's own clients send it), the role names it expects, and what
//! is read back from the reply.
use vstd::prelude::*;
use crate::ai::http_client::{header, header_views, is_call, post, HttpRequest};
use crate::error::AppError;
use crate::json::{field, get_field, get_item, int_of, int_value, item, text_or_empty, text_or_empty_of, JsonValue};
use crate::models::AiSendResponse;
use crate::text::{str_eq, to_chars, string_of_range};

verus! {

broadcast use vstd::string::group_string_axioms;

pub const DEFAULT_BASE_URL: &'static str = "https://generativelanguage.googleapis.com/v1beta";

/// How errors name this provider.
pub const API_NAME: &'static str = "Gemini API";

pub const MISSING_KEY: &'static str = "Gemini APIキーが設定されていません。設定画面から登録してください。";

pub struct GeminiProvider;

/// `s.trim_end_matches('/')`.
pub open spec fn without_trailing_slashes(s: Seq<char>) -> Seq<char>
    decreases s.len(),
{
    if s.len() > 0 && s.last() == '/' {
        without_trailing_slashes(s.drop_last())
    } else {
        s
    }
}

/// `{base}/models/{model}:generateContent?key={api_key}`, the base URL
/// being the configured one (else the public one) without trailing
/// slashes.
pub open spec fn endpoint(base_url: Option<&str>, model: Seq<char>, api_key: Seq<char>) -> Seq<char> {
    let base = match base_url {
        Some(u) => u@,
        None => DEFAULT_BASE_URL@,
    };
    without_trailing_slashes(base) + "/models/"@ + model + ":generateContent?key="@ + api_key
}

/// The call for `api_key`: refused without a key.
pub open spec fn call(api_key: Seq<char>, base_url: Option<&str>, model: Seq<char>) -> Result<
    (Seq<char>, Seq<(Seq<char>, Seq<char>)>),
    Seq<char>,
> {
    if api_key.len() == 0 {
        Err(MISSING_KEY@)
    } else {
        Ok((endpoint(base_url, model, api_key), seq![("content-type"@, "application/json"@)]))
    }
}

/// Gemini's name for a speaker: `model` for the assistant, `user` for
/// anyone else.
pub open spec fn role_name(role: Seq<char>) -> Seq<char> {
    if role == "assistant"@ {
        "model"@
    } else {
        "user"@
    }
}

/// The reply's text: `candidates[0].content.parts[0].text`, or nothing.
pub open spec fn reply_text(parsed: JsonValue) -> Seq<char> {
    text_or_empty(
        field(item(field(field(item(field(Some(parsed), "candidates"@), 0), "content"@), "parts"@), 0), "text"@),
    )
}

pub open spec fn usage(parsed: JsonValue, key: Seq<char>) -> Option<i64> {
    int_of(field(field(Some(parsed), "usageMetadata"@), key))
}

fn strip_trailing_slashes(s: &str) -> (r: String)
    ensures
        r@ == without_trailing_slashes(s@),
{
    let v = to_chars(s);
    let mut n = v.len();
    assert(v@.take(v@.len() as int) =~= v@);
    while n > 0 && v[n - 1] == '/'
        invariant
            n <= v@.len(),
            without_trailing_slashes(v@) == without_trailing_slashes(v@.take(n as int)),
        decreases n,
    {
        assert(v@.take(n as int).drop_last() =~= v@.take(n - 1));
        n -= 1;
    }
    assert(v@.take(n as int) =~= v@.subrange(0, n as int));
    string_of_range(&v, 0, n)
}

impl GeminiProvider {
    /// The POST of `body_json` to the model's `generateContent`, with the
    /// key in the query; an error when no key is set.
    pub fn request(&self, api_key: &str, base_url: Option<&str>, model: &str, body_json: String) -> (r: Result<
        HttpRequest,
        AppError,
    >)
        ensures
            is_call(r, call(api_key@, base_url, model@), body_json@),
    {
        if api_key.is_empty() {
            return Err(AppError::Other(String::from_str(MISSING_KEY)));
        }
        let mut url = match base_url {
            Some(u) => strip_trailing_slashes(u),
            None => strip_trailing_slashes(DEFAULT_BASE_URL),
        };
        url.append("/models/");
        url.append(model);
        url.append(":generateContent?key=");
        url.append(api_key);
        let mut headers: Vec<(String, String)> = Vec::new();
        headers.push(header("content-type", "application/json"));
        assert(header_views(headers@) =~= seq![("content-type"@, "application/json"@)]);
        Ok(post(url, headers, body_json))
    }

    /// The role name Gemini expects for `role`.
    pub fn role(role: &str) -> (r: &'static str)
        ensures
            r@ == role_name(role@),
    {
        if str_eq(role, "assistant") {
            "model"
        } else {
            "user"
        }
    }

    /// The text and token counts of a reply.
    pub fn reply(&self, parsed: &JsonValue) -> (r: AiSendResponse)
        ensures
            r.content@ == reply_text(*parsed),
            r.input_tokens == usage(*parsed, "promptTokenCount"@),
            r.output_tokens == usage(*parsed, "candidatesTokenCount"@),
    {
        let candidate = get_item(get_field(Some(parsed), "candidates"), 0);
        let part = get_item(get_field(get_field(candidate, "content"), "parts"), 0);
        let content = text_or_empty_of(get_field(part, "text"));
        let u = get_field(Some(parsed), "usageMetadata");
        let input_tokens = int_value(get_field(u, "promptTokenCount"));
        let output_tokens = int_value(get_field(u, "candidatesTokenCount"));
        AiSendResponse { content, input_tokens, output_tokens }
    }
}

} // verus!
