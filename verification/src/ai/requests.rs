//! What is sent to a provider for a chat message, a writing feature or an
//! analysis, and when such a request is refused. Only the blocks the user
//! reviewed and selected ever reach a system prompt.
use vstd::prelude::*;
use crate::ai::analysis::{self, analysis_prompt, spec_analysis_types};
use crate::ai::features::{self, feature_prompt, spec_requires_input_text, spec_writing_features};
use crate::ai::keystore::AiKeyStore;
use crate::ai::provider::{check_provider_kind, spec_provider_kinds, unsupported_text};
use crate::error::AppError;
use crate::models::{AiChatMessage, AiChatTurn, ContextBlock};
use crate::text::{is_blank, join, join_strings, trim, views};

verus! {

broadcast use vstd::string::group_string_axioms;

/// The first line of a chat's system prompt.
pub const CHAT_PREAMBLE: &'static str = "あなたは小説創作を支援するアシスタントです。以下は作者が確認・選択した、この作品に関する参考情報です。";

pub const EMPTY_MESSAGE: &'static str = "メッセージが空です。";

pub const EMPTY_INPUT: &'static str = "対象の本文が空です。";

/// The user turn of a writing feature given no text.
pub const NO_INSTRUCTION: &'static str = "(追加の指示はありません。上記の情報のみを踏まえて提案してください。)";

pub const CHARACTER_REQUIRED: &'static str = "対象キャラクターを選択してください。";

pub const NOTHING_SELECTED: &'static str = "分析対象の情報が選択されていません。";

/// The user turn of an analysis.
pub const ANALYSIS_REQUEST: &'static str = "上記の情報をもとに分析結果を日本語で述べてください。";

/// A selected block as a section of a system prompt.
pub open spec fn section(b: ContextBlock) -> Seq<char> {
    "\n## "@ + b.label@ + "\n"@ + b.content@
}

/// `first`, then a section per block, one per line.
pub open spec fn prompt_with(first: Seq<char>, blocks: Seq<ContextBlock>) -> Seq<char> {
    join(seq![first] + blocks.map_values(|b: ContextBlock| section(b)), "\n"@)
}

/// The labels of the blocks, comma-separated.
pub open spec fn labels(blocks: Seq<ContextBlock>) -> Seq<char> {
    join(blocks.map_values(|b: ContextBlock| b.label@), ", "@)
}

fn prompt_lines(first: &str, blocks: &[ContextBlock]) -> (r: String)
    ensures
        r@ == prompt_with(first@, blocks@),
{
    let mut lines: Vec<String> = Vec::new();
    lines.push(String::from_str(first));
    let mut i: usize = 0;
    while i < blocks.len()
        invariant
            0 <= i <= blocks@.len(),
            views(lines@) == seq![first@] + blocks@.take(i as int).map_values(|b: ContextBlock| section(b)),
        decreases blocks.len() - i,
    {
        let b = &blocks[i];
        let mut l = String::from_str("\n## ");
        l.append(b.label.as_str());
        l.append("\n");
        l.append(b.content.as_str());
        let ghost before = lines@;
        lines.push(l);
        assert(blocks@.take(i + 1) =~= blocks@.take(i as int).push(blocks@[i as int]));
        assert(views(lines@) =~= views(before).push(l@));
        assert(views(lines@) =~= seq![first@] + blocks@.take(i + 1).map_values(|b: ContextBlock| section(b)));
        i += 1;
    }
    assert(blocks@.take(blocks@.len() as int) =~= blocks@);
    join_strings(&lines, "\n")
}

/// The labels of the selected blocks, comma-separated.
pub fn label_list(blocks: &[ContextBlock]) -> (r: String)
    ensures
        r@ == labels(blocks@),
{
    let mut names: Vec<String> = Vec::new();
    let mut i: usize = 0;
    while i < blocks.len()
        invariant
            0 <= i <= blocks@.len(),
            views(names@) == blocks@.take(i as int).map_values(|b: ContextBlock| b.label@),
        decreases blocks.len() - i,
    {
        let l = blocks[i].label.clone();
        let ghost before = names@;
        names.push(l);
        assert(blocks@.take(i + 1) =~= blocks@.take(i as int).push(blocks@[i as int]));
        assert(views(names@) =~= views(before).push(l@));
        assert(views(names@) =~= blocks@.take(i + 1).map_values(|b: ContextBlock| b.label@));
        i += 1;
    }
    assert(blocks@.take(blocks@.len() as int) =~= blocks@);
    join_strings(&names, ", ")
}

/// What a chat message is sent with: the record of which blocks were
/// selected, and the system prompt built from them (neither when nothing
/// was selected).
pub struct ChatPlan {
    pub context_summary: Option<String>,
    pub system: Option<String>,
}

/// Why a chat message is refused, if it is: an unknown provider kind, then
/// a message that is only whitespace.
pub open spec fn chat_refusal(provider_kind: Seq<char>, user_content: Seq<char>) -> Option<Seq<char>> {
    if !spec_provider_kinds().contains(provider_kind) {
        Some(unsupported_text(provider_kind))
    } else if trim(user_content).len() == 0 {
        Some(EMPTY_MESSAGE@)
    } else {
        None
    }
}

/// Checks a chat message and prepares what it is sent with.
pub fn prepare_chat(provider_kind: &str, user_content: &str, selected_context: &[ContextBlock]) -> (r: Result<
    ChatPlan,
    AppError,
>)
    ensures
        match chat_refusal(provider_kind@, user_content@) {
            Some(m) => r matches Err(AppError::Other(e)) && e@ == m,
            None => r matches Ok(plan) && (if selected_context@.len() == 0 {
                plan.context_summary is None && plan.system is None
            } else {
                &&& plan.context_summary matches Some(s) && s@ == labels(selected_context@)
                &&& plan.system matches Some(s) && s@ == prompt_with(CHAT_PREAMBLE@, selected_context@)
            }),
        },
{
    check_provider_kind(provider_kind)?;
    if is_blank(user_content) {
        return Err(AppError::Other(String::from_str(EMPTY_MESSAGE)));
    }
    if selected_context.len() == 0 {
        Ok(ChatPlan { context_summary: None, system: None })
    } else {
        let summary = label_list(selected_context);
        let system = prompt_lines(CHAT_PREAMBLE, selected_context);
        Ok(ChatPlan { context_summary: Some(summary), system: Some(system) })
    }
}

pub open spec fn turn_of(m: AiChatMessage) -> (Seq<char>, Seq<char>) {
    (m.role@, m.content@)
}

/// The stored conversation as turns to send, in order.
pub fn history_turns(history: &[AiChatMessage]) -> (r: Vec<AiChatTurn>)
    ensures
        r@.len() == history@.len(),
        forall|i: int| 0 <= i < history@.len() ==> (#[trigger] r@[i]).role@ == history@[i].role@ && r@[i].content@
            == history@[i].content@,
{
    let mut r: Vec<AiChatTurn> = Vec::new();
    let mut i: usize = 0;
    while i < history.len()
        invariant
            0 <= i <= history@.len(),
            r@.len() == i,
            forall|j: int| 0 <= j < i ==> (#[trigger] r@[j]).role@ == history@[j].role@ && r@[j].content@
                == history@[j].content@,
        decreases history.len() - i,
    {
        let m = &history[i];
        r.push(AiChatTurn { role: m.role.clone(), content: m.content.clone() });
        i += 1;
    }
    r
}

/// What a writing feature is sent with: its system prompt followed by the
/// selected blocks, and a single user turn.
pub struct FeaturePlan {
    pub system: String,
    pub user_content: String,
}

/// Why a writing feature is refused, if it is: an unknown provider kind,
/// an unknown feature, then a feature that works on text given none.
pub open spec fn feature_refusal(provider_kind: Seq<char>, feature: Seq<char>, input: Seq<char>) -> Option<
    Seq<char>,
> {
    if !spec_provider_kinds().contains(provider_kind) {
        Some(unsupported_text(provider_kind))
    } else if !spec_writing_features().contains(feature) {
        Some("未対応のAI執筆支援機能です: "@ + feature)
    } else if spec_requires_input_text(feature) && trim(input).len() == 0 {
        Some(EMPTY_INPUT@)
    } else {
        None
    }
}

pub open spec fn input_of(input_text: Option<&str>) -> Seq<char> {
    match input_text {
        Some(t) => t@,
        None => Seq::empty(),
    }
}

/// The user turn of a writing feature: the text given, or a note that
/// there is none when it is blank.
pub open spec fn feature_turn(input: Seq<char>) -> Seq<char> {
    if trim(input).len() == 0 {
        NO_INSTRUCTION@
    } else {
        input
    }
}

/// Checks a writing-feature request and prepares what it is sent with.
pub fn prepare_writing_feature(
    provider_kind: &str,
    feature: &str,
    selected_context: &[ContextBlock],
    input_text: Option<&str>,
) -> (r: Result<FeaturePlan, AppError>)
    ensures
        match feature_refusal(provider_kind@, feature@, input_of(input_text)) {
            Some(m) => r matches Err(AppError::Other(e)) && e@ == m,
            None => r matches Ok(plan) && plan.system@ == prompt_with(feature_prompt(feature@), selected_context@)
                && plan.user_content@ == feature_turn(input_of(input_text)),
        },
{
    check_provider_kind(provider_kind)?;
    let base_prompt = features::system_prompt(feature)?;
    let input = match input_text {
        Some(t) => String::from_str(t),
        None => String::new(),
    };
    let blank = is_blank(input.as_str());
    if features::requires_input_text(feature) && blank {
        return Err(AppError::Other(String::from_str(EMPTY_INPUT)));
    }
    let system = prompt_lines(base_prompt, selected_context);
    let user_content = if blank {
        String::from_str(NO_INSTRUCTION)
    } else {
        input
    };
    Ok(FeaturePlan { system, user_content })
}

/// Why an analysis is refused before anything is read, if it is: an
/// unknown provider kind, an unknown analysis type, then a character-tone
/// analysis without a target character.
pub open spec fn analysis_refusal(provider_kind: Seq<char>, analysis_type: Seq<char>, has_character: bool) -> Option<
    Seq<char>,
> {
    if !spec_provider_kinds().contains(provider_kind) {
        Some(unsupported_text(provider_kind))
    } else if !spec_analysis_types().contains(analysis_type) {
        Some("未対応の分析種別です: "@ + analysis_type)
    } else if analysis_type == "character_tone"@ && !has_character {
        Some(CHARACTER_REQUIRED@)
    } else {
        None
    }
}

/// Checks an analysis request; gives the analysis's system prompt.
pub fn check_analysis(provider_kind: &str, analysis_type: &str, character_id: Option<&str>) -> (r: Result<
    &'static str,
    AppError,
>)
    ensures
        match analysis_refusal(provider_kind@, analysis_type@, character_id is Some) {
            Some(m) => r matches Err(AppError::Other(e)) && e@ == m,
            None => r matches Ok(p) && p@ == analysis_prompt(analysis_type@),
        },
{
    check_provider_kind(provider_kind)?;
    let base_prompt = analysis::system_prompt(analysis_type)?;
    if analysis::requires_character(analysis_type) && character_id.is_none() {
        return Err(AppError::Other(String::from_str(CHARACTER_REQUIRED)));
    }
    Ok(base_prompt)
}

/// What an analysis is sent with: the system prompt followed by the
/// selected blocks, the record of which blocks were selected, and the
/// request to analyse.
pub struct AnalysisPlan {
    pub system: String,
    pub context_summary: String,
    pub user_content: String,
}

/// Prepares an analysis from its system prompt and the selected blocks; an
/// error when no block was selected.
pub fn prepare_analysis(base_prompt: &str, selected_context: &[ContextBlock]) -> (r: Result<AnalysisPlan, AppError>)
    ensures
        selected_context@.len() == 0 <==> r is Err,
        selected_context@.len() == 0 ==> (r matches Err(AppError::Other(e)) && e@ == NOTHING_SELECTED@),
        r matches Ok(plan) ==> {
            &&& plan.system@ == prompt_with(base_prompt@, selected_context@)
            &&& plan.context_summary@ == labels(selected_context@)
            &&& plan.user_content@ == ANALYSIS_REQUEST@
        },
{
    if selected_context.len() == 0 {
        return Err(AppError::Other(String::from_str(NOTHING_SELECTED)));
    }
    let system = prompt_lines(base_prompt, selected_context);
    let context_summary = label_list(selected_context);
    Ok(AnalysisPlan { system, context_summary, user_content: String::from_str(ANALYSIS_REQUEST) })
}

/// The feature name under which an analysis's usage is logged.
pub fn analysis_usage_feature(analysis_type: &str) -> (r: String)
    ensures
        r@ == "analysis_"@ + analysis_type@,
{
    let mut r = String::from_str("analysis_");
    r.append(analysis_type);
    r
}

/// Stores a key for an offered provider kind (an empty key removes it);
/// any other kind is refused and the store left as it was.
pub fn set_api_key(store: &mut AiKeyStore, provider: &str, api_key: String) -> (r: Result<(), AppError>)
    requires
        old(store).wf(),
    ensures
        final(store).wf(),
        r is Ok <==> spec_provider_kinds().contains(provider@),
        r is Err ==> final(store)@ == old(store)@ && (r matches Err(AppError::Other(e)) && e@ == unsupported_text(
            provider@,
        )),
        r is Ok && api_key@.len() == 0 ==> final(store)@ == old(store)@.remove(provider@),
        r is Ok && api_key@.len() > 0 ==> final(store)@ == old(store)@.insert(provider@, api_key@),
{
    check_provider_kind(provider)?;
    store.set(provider, api_key);
    Ok(())
}

} // verus!
