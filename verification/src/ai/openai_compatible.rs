//! The OpenAI Chat Completions API. One provider covers both OpenAI itself
//! (a fixed endpoint, a key required) and any compatible server, such as a
//! local model, at a base URL the user sets (a key optional).
use vstd::prelude::*;
use crate::ai::http_client::{header, header_views, is_call, post, HttpRequest};
use crate::error::AppError;
use crate::json::{field, get_field, get_item, int_of, int_value, item, text_or_empty, text_or_empty_of, JsonValue};
use crate::models::{AiChatTurn, AiSendResponse};

verus! {

broadcast use vstd::string::group_string_axioms;

pub const OPENAI_DEFAULT_URL: &'static str = "https://api.openai.com/v1/chat/completions";

/// How errors name this provider.
pub const API_NAME: &'static str = "AIプロバイダー";

pub const MISSING_BASE_URL: &'static str = "OpenAI互換プロバイダーにはBase URLの設定が必要です。";

pub const MISSING_KEY: &'static str = "OpenAI APIキーが設定されていません。設定画面から登録してください。";

pub struct OpenAiCompatibleProvider {
    fixed_url: Option<&'static str>,
}

impl OpenAiCompatibleProvider {
    /// The endpoint this provider always uses, if it has one.
    pub closed spec fn fixed(&self) -> Option<Seq<char>> {
        match self.fixed_url {
            Some(u) => Some(u@),
            None => None,
        }
    }

    /// OpenAI itself, at its public endpoint.
    pub fn openai() -> (p: Self)
        ensures
            p.fixed() == Some(OPENAI_DEFAULT_URL@),
    {
        OpenAiCompatibleProvider { fixed_url: Some(OPENAI_DEFAULT_URL) }
    }

    /// A compatible server at the base URL of each request.
    pub fn custom() -> (p: Self)
        ensures
            p.fixed() == None::<Seq<char>>,
    {
        OpenAiCompatibleProvider { fixed_url: None }
    }
}

/// The headers: the content type, and the key as a bearer token when one
/// is set.
pub open spec fn headers_for(api_key: Seq<char>) -> Seq<(Seq<char>, Seq<char>)> {
    if api_key.len() == 0 {
        seq![("content-type"@, "application/json"@)]
    } else {
        seq![("content-type"@, "application/json"@), ("Authorization"@, "Bearer "@ + api_key)]
    }
}

/// The call: to the fixed endpoint, else to the request's base URL (an
/// error without one); OpenAI itself also refuses to go without a key.
pub open spec fn call(fixed: Option<Seq<char>>, api_key: Seq<char>, base_url: Option<&str>) -> Result<
    (Seq<char>, Seq<(Seq<char>, Seq<char>)>),
    Seq<char>,
> {
    match fixed {
        Some(u) => if api_key.len() == 0 {
            Err(MISSING_KEY@)
        } else {
            Ok((u, headers_for(api_key)))
        },
        None => match base_url {
            Some(b) => Ok((b@, headers_for(api_key))),
            None => Err(MISSING_BASE_URL@),
        },
    }
}

/// The conversation as sent: the system prompt first, as a `system` turn,
/// then the turns in order.
pub open spec fn turns_with_system(system: Option<&str>, turns: Seq<(Seq<char>, Seq<char>)>) -> Seq<
    (Seq<char>, Seq<char>),
> {
    match system {
        Some(s) => seq![("system"@, s@)] + turns,
        None => turns,
    }
}

pub open spec fn turn_views(ts: Seq<AiChatTurn>) -> Seq<(Seq<char>, Seq<char>)> {
    ts.map_values(|t: AiChatTurn| (t.role@, t.content@))
}

/// The reply's text: `choices[0].message.content`, or nothing.
pub open spec fn reply_text(parsed: JsonValue) -> Seq<char> {
    text_or_empty(field(field(item(field(Some(parsed), "choices"@), 0), "message"@), "content"@))
}

pub open spec fn usage(parsed: JsonValue, key: Seq<char>) -> Option<i64> {
    int_of(field(field(Some(parsed), "usage"@), key))
}

impl OpenAiCompatibleProvider {
    /// The POST of `body_json`; an error without an endpoint, or without a
    /// key for OpenAI itself.
    pub fn request(&self, api_key: &str, base_url: Option<&str>, body_json: String) -> (r: Result<
        HttpRequest,
        AppError,
    >)
        ensures
            is_call(r, call(self.fixed(), api_key@, base_url), body_json@),
    {
        let url = match self.fixed_url {
            Some(u) => String::from_str(u),
            None => match base_url {
                Some(b) => String::from_str(b),
                None => {
                    return Err(AppError::Other(String::from_str(MISSING_BASE_URL)));
                },
            },
        };
        if self.fixed_url.is_some() && api_key.is_empty() {
            return Err(AppError::Other(String::from_str(MISSING_KEY)));
        }
        let mut headers: Vec<(String, String)> = Vec::new();
        headers.push(header("content-type", "application/json"));
        if !api_key.is_empty() {
            let mut bearer = String::from_str("Bearer ");
            bearer.append(api_key);
            headers.push((String::from_str("Authorization"), bearer));
        }
        assert(header_views(headers@) =~= headers_for(api_key@));
        Ok(post(url, headers, body_json))
    }

    /// The turns to send (see `turns_with_system`).
    pub fn turns(system: Option<&str>, messages: &[AiChatTurn]) -> (r: Vec<AiChatTurn>)
        ensures
            turn_views(r@) == turns_with_system(system, turn_views(messages@)),
    {
        let mut r: Vec<AiChatTurn> = Vec::new();
        if let Some(s) = system {
            r.push(AiChatTurn { role: String::from_str("system"), content: String::from_str(s) });
        }
        let ghost first = turn_views(r@);
        let mut i: usize = 0;
        while i < messages.len()
            invariant
                0 <= i <= messages@.len(),
                first == match system {
                    Some(s) => seq![("system"@, s@)],
                    None => Seq::<(Seq<char>, Seq<char>)>::empty(),
                },
                turn_views(r@) == first + turn_views(messages@.take(i as int)),
            decreases messages.len() - i,
        {
            let m = &messages[i];
            let t = AiChatTurn { role: m.role.clone(), content: m.content.clone() };
            let ghost before = r@;
            r.push(t);
            assert(messages@.take(i + 1) =~= messages@.take(i as int).push(messages@[i as int]));
            assert(turn_views(r@) =~= turn_views(before).push((m.role@, m.content@)));
            assert(turn_views(r@) =~= first + turn_views(messages@.take(i + 1)));
            i += 1;
        }
        assert(messages@.take(messages@.len() as int) =~= messages@);
        assert(turn_views(r@) =~= turns_with_system(system, turn_views(messages@)));
        r
    }

    /// The text and token counts of a reply.
    pub fn reply(&self, parsed: &JsonValue) -> (r: AiSendResponse)
        ensures
            r.content@ == reply_text(*parsed),
            r.input_tokens == usage(*parsed, "prompt_tokens"@),
            r.output_tokens == usage(*parsed, "completion_tokens"@),
    {
        let choice = get_item(get_field(Some(parsed), "choices"), 0);
        let content = text_or_empty_of(get_field(get_field(choice, "message"), "content"));
        let u = get_field(Some(parsed), "usage");
        let input_tokens = int_value(get_field(u, "prompt_tokens"));
        let output_tokens = int_value(get_field(u, "completion_tokens"));
        AiSendResponse { content, input_tokens, output_tokens }
    }
}

} // verus!
