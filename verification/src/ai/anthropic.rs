//! Anthropic's Messages API: where a request goes, with which headers,
//! and what is read back from the reply.
use vstd::prelude::*;
use crate::ai::http_client::{header, header_views, is_call, post, HttpRequest};
use crate::error::AppError;
use crate::json::{field, get_field, int_of, int_value, opt, text_or_empty, text_or_empty_of, JsonValue};
use crate::models::AiSendResponse;
use crate::text::str_eq;

verus! {

broadcast use vstd::string::group_string_axioms;

pub const DEFAULT_BASE_URL: &'static str = "https://api.anthropic.com/v1/messages";

pub const ANTHROPIC_VERSION: &'static str = "2023-06-01";

/// `max_tokens` when the user set no limit.
pub const DEFAULT_MAX_TOKENS: i64 = 2048;

/// How errors name this provider.
pub const API_NAME: &'static str = "Anthropic API";

pub const MISSING_KEY: &'static str = "Anthropic APIキーが設定されていません。設定画面から登録してください。";

pub struct AnthropicProvider;

/// The URL of a request: the configured base URL, else the public one.
pub open spec fn endpoint(base_url: Option<&str>) -> Seq<char> {
    match base_url {
        Some(u) => u@,
        None => DEFAULT_BASE_URL@,
    }
}

pub open spec fn headers_for(api_key: Seq<char>) -> Seq<(Seq<char>, Seq<char>)> {
    seq![("x-api-key"@, api_key), ("anthropic-version"@, ANTHROPIC_VERSION@), ("content-type"@, "application/json"@)]
}

/// The call for `api_key`: refused without a key.
pub open spec fn call(api_key: Seq<char>, base_url: Option<&str>) -> Result<
    (Seq<char>, Seq<(Seq<char>, Seq<char>)>),
    Seq<char>,
> {
    if api_key.len() == 0 {
        Err(MISSING_KEY@)
    } else {
        Ok((endpoint(base_url), headers_for(api_key)))
    }
}

/// Whether a content block is a text block (`"type": "text"`).
pub open spec fn is_text_block(b: JsonValue) -> bool {
    field(Some(b), "type"@) matches Some(JsonValue::Str(t)) && t@ == "text"@
}

/// The first text block at or after `i`.
pub open spec fn text_block_from(blocks: Seq<JsonValue>, i: int) -> Option<JsonValue>
    decreases blocks.len() - i,
{
    if i < 0 || i >= blocks.len() {
        None
    } else if is_text_block(blocks[i]) {
        Some(blocks[i])
    } else {
        text_block_from(blocks, i + 1)
    }
}

/// The reply's text: the `text` of the first text block of `content`
/// (empty when there is none, or when it holds no string).
pub open spec fn reply_text(parsed: JsonValue) -> Seq<char> {
    match field(Some(parsed), "content"@) {
        Some(JsonValue::Array(blocks)) => text_or_empty(field(text_block_from(blocks@, 0), "text"@)),
        _ => Seq::empty(),
    }
}

pub open spec fn usage(parsed: JsonValue, key: Seq<char>) -> Option<i64> {
    int_of(field(field(Some(parsed), "usage"@), key))
}

fn text_block(blocks: &Vec<JsonValue>) -> (r: Option<&JsonValue>)
    ensures
        opt(r) == text_block_from(blocks@, 0),
{
    let mut i: usize = 0;
    while i < blocks.len()
        invariant
            0 <= i <= blocks@.len(),
            text_block_from(blocks@, 0) == text_block_from(blocks@, i as int),
        decreases blocks.len() - i,
    {
        let b = &blocks[i];
        let t = get_field(Some(b), "type");
        let is_text = match t {
            Some(JsonValue::Str(s)) => str_eq(s.as_str(), "text"),
            _ => false,
        };
        if is_text {
            return Some(b);
        }
        i += 1;
    }
    None
}

impl AnthropicProvider {
    /// The POST of `body_json` with the key in `x-api-key`; an error when
    /// no key is set.
    pub fn request(&self, api_key: &str, base_url: Option<&str>, body_json: String) -> (r: Result<
        HttpRequest,
        AppError,
    >)
        ensures
            is_call(r, call(api_key@, base_url), body_json@),
    {
        if api_key.is_empty() {
            return Err(AppError::Other(String::from_str(MISSING_KEY)));
        }
        let url = match base_url {
            Some(u) => String::from_str(u),
            None => String::from_str(DEFAULT_BASE_URL),
        };
        let mut headers: Vec<(String, String)> = Vec::new();
        headers.push(header("x-api-key", api_key));
        headers.push(header("anthropic-version", ANTHROPIC_VERSION));
        headers.push(header("content-type", "application/json"));
        assert(header_views(headers@) =~= headers_for(api_key@));
        Ok(post(url, headers, body_json))
    }

    /// `max_tokens`: the requested limit, else `DEFAULT_MAX_TOKENS`.
    pub fn max_tokens(requested: Option<i64>) -> (n: i64)
        ensures
            n == match requested {
                Some(m) => m,
                None => DEFAULT_MAX_TOKENS,
            },
    {
        match requested {
            Some(m) => m,
            None => DEFAULT_MAX_TOKENS,
        }
    }

    /// The text and token counts of a reply.
    pub fn reply(&self, parsed: &JsonValue) -> (r: AiSendResponse)
        ensures
            r.content@ == reply_text(*parsed),
            r.input_tokens == usage(*parsed, "input_tokens"@),
            r.output_tokens == usage(*parsed, "output_tokens"@),
    {
        let content = match get_field(Some(parsed), "content") {
            Some(JsonValue::Array(blocks)) => {
                let b = text_block(blocks);
                text_or_empty_of(get_field(b, "text"))
            },
            _ => String::new(),
        };
        let u = get_field(Some(parsed), "usage");
        let input_tokens = int_value(get_field(u, "input_tokens"));
        let output_tokens = int_value(get_field(u, "output_tokens"));
        AiSendResponse { content, input_tokens, output_tokens }
    }
}

} // verus!
