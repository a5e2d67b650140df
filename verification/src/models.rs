//! The shapes of the novel's domain entities (projects, chapters, scenes,
//! characters, the world bible, the story tools, the AI records and the
//! safety records). They carry data only; the logic lives in the other
//! modules.
use vstd::prelude::*;

verus! {

#[derive(Debug)]
pub struct Project {
    pub id: String,
    pub title: String,
    pub subtitle: Option<String>,
    pub author_name: Option<String>,
    pub pen_name: Option<String>,
    pub genre: Option<String>,
    pub target_audience: Option<String>,
    pub target_length: Option<i64>,
    pub deadline: Option<String>,
    pub synopsis: Option<String>,
    pub theme: Option<String>,
    pub concept: Option<String>,
    pub style_memo: Option<String>,
    pub pov_policy: Option<String>,
    pub tense: Option<String>,
    pub ai_policy: Option<String>,
    pub is_sample: bool,
    pub created_at: String,
    pub updated_at: String,
}

#[derive(Debug, Default)]
pub struct ProjectInput {
    pub title: String,
    pub subtitle: Option<String>,
    pub author_name: Option<String>,
    pub pen_name: Option<String>,
    pub genre: Option<String>,
    pub target_audience: Option<String>,
    pub target_length: Option<i64>,
    pub deadline: Option<String>,
    pub synopsis: Option<String>,
    pub theme: Option<String>,
    pub concept: Option<String>,
    pub style_memo: Option<String>,
    pub pov_policy: Option<String>,
    pub tense: Option<String>,
    pub ai_policy: Option<String>,
}

#[derive(Debug)]
pub struct Part {
    pub id: String,
    pub project_id: String,
    pub title: String,
    pub order_index: i64,
}

#[derive(Debug)]
pub struct Chapter {
    pub id: String,
    pub project_id: String,
    pub part_id: Option<String>,
    pub title: String,
    pub subtitle: Option<String>,
    pub synopsis: Option<String>,
    pub memo: Option<String>,
    pub pov: Option<String>,
    pub status: String,
    pub start_at: Option<String>,
    pub end_at: Option<String>,
    pub location: Option<String>,
    pub order_index: i64,
    pub char_count: i64,
}

#[derive(Debug)]
pub struct Scene {
    pub id: String,
    pub chapter_id: String,
    pub title: String,
    pub summary: Option<String>,
    pub pov_character: Option<String>,
    pub location: Option<String>,
    pub event_date: Option<String>,
    pub start_time: Option<String>,
    pub end_time: Option<String>,
    pub purpose: Option<String>,
    pub conflict: Option<String>,
    pub result: Option<String>,
    pub emotion: Option<String>,
    pub memo: Option<String>,
    pub order_index: i64,
    pub char_count: i64,
}

#[derive(Debug)]
pub struct Document {
    pub id: String,
    pub owner_type: String,
    pub owner_id: String,
    pub body: String,
    pub char_count: i64,
    pub updated_at: String,
}

#[derive(Debug)]
pub struct SearchHit {
    pub owner_type: String,
    pub owner_id: String,
    pub title: String,
    pub snippet: String,
}

#[derive(Debug, Default)]
pub struct Character {
    pub id: String,
    pub project_id: String,
    pub name: String,
    pub reading: Option<String>,
    pub aliases: Option<String>,
    pub age: Option<String>,
    pub gender: Option<String>,
    pub birthday: Option<String>,
    pub height: Option<String>,
    pub occupation: Option<String>,
    pub affiliation: Option<String>,
    pub role: Option<String>,
    pub first_appearance: Option<String>,
    pub hair: Option<String>,
    pub eyes: Option<String>,
    pub build: Option<String>,
    pub clothing: Option<String>,
    pub features: Option<String>,
    pub scars: Option<String>,
    pub equipment: Option<String>,
    pub personality: Option<String>,
    pub strengths: Option<String>,
    pub weaknesses: Option<String>,
    pub beliefs: Option<String>,
    pub desires: Option<String>,
    pub fears: Option<String>,
    pub secret: Option<String>,
    pub trauma: Option<String>,
    pub first_person: Option<String>,
    pub second_person: Option<String>,
    pub speech_suffix: Option<String>,
    pub catchphrase: Option<String>,
    pub honorific_level: Option<String>,
    pub calls_protagonist: Option<String>,
    pub calls_others: Option<String>,
    pub goal: Option<String>,
    pub motivation: Option<String>,
    pub past: Option<String>,
    pub initial_state: Option<String>,
    pub middle_state: Option<String>,
    pub final_state: Option<String>,
    pub character_arc: Option<String>,
    pub memo: Option<String>,
    pub reference_image_path: Option<String>,
}

#[derive(Debug)]
pub struct CharacterRelation {
    pub id: String,
    pub project_id: String,
    pub from_character_id: String,
    pub to_character_id: String,
    pub label: String,
    pub color: Option<String>,
    pub direction: String,
    pub detail: Option<String>,
    pub start_at: Option<String>,
    pub end_at: Option<String>,
}

#[derive(Debug)]
pub struct WorldCategory {
    pub id: String,
    pub project_id: String,
    pub name: String,
    pub is_builtin: bool,
    pub order_index: i64,
}

#[derive(Debug, Default)]
pub struct WorldEntry {
    pub id: String,
    pub project_id: String,
    pub category_id: Option<String>,
    pub name: String,
    pub reading: Option<String>,
    pub summary: Option<String>,
    pub detail: Option<String>,
    pub related_character_ids: Vec<String>,
    pub related_location_ids: Vec<String>,
    pub related_entry_ids: Vec<String>,
    pub image_path: Option<String>,
    pub memo: Option<String>,
}

#[derive(Debug, Default)]
pub struct GlossaryEntry {
    pub id: String,
    pub project_id: String,
    pub term: String,
    pub reading: Option<String>,
    pub definition: Option<String>,
}

#[derive(Debug, Default)]
pub struct Location {
    pub id: String,
    pub project_id: String,
    pub parent_location_id: Option<String>,
    pub name: String,
    pub description: Option<String>,
    pub coordinates: Option<String>,
    pub related_character_ids: Vec<String>,
    pub image_path: Option<String>,
    pub memo: Option<String>,
}

#[derive(Debug, Default)]
pub struct Note {
    pub id: String,
    pub project_id: String,
    pub folder: String,
    pub title: String,
    pub body: String,
    pub updated_at: String,
}

#[derive(Debug)]
pub struct Tag {
    pub id: String,
    pub project_id: String,
    pub name: String,
    pub color: Option<String>,
}

#[derive(Debug)]
pub struct PlotLane {
    pub id: String,
    pub project_id: String,
    pub name: String,
    pub order_index: i64,
}

#[derive(Debug, Default)]
pub struct PlotCard {
    pub id: String,
    pub project_id: String,
    pub lane_id: String,
    pub title: String,
    pub summary: Option<String>,
    pub chapter_id: Option<String>,
    pub color: Option<String>,
    pub order_index: i64,
}

#[derive(Debug, Default)]
pub struct TimelineEvent {
    pub id: String,
    pub project_id: String,
    pub title: String,
    pub event_date: Option<String>,
    pub description: Option<String>,
    pub chapter_id: Option<String>,
    pub scene_id: Option<String>,
    pub order_index: i64,
}

#[derive(Debug, Default)]
pub struct Foreshadowing {
    pub id: String,
    pub project_id: String,
    pub title: String,
    pub detail: Option<String>,
    pub status: String,
    pub planted_chapter_id: Option<String>,
    pub payoff_chapter_id: Option<String>,
    pub memo: Option<String>,
}

#[derive(Debug, Default)]
pub struct Todo {
    pub id: String,
    pub project_id: String,
    pub title: String,
    pub done: bool,
    pub due_date: Option<String>,
    pub memo: Option<String>,
    pub order_index: i64,
}

#[derive(Debug, Default)]
pub struct Comment {
    pub id: String,
    pub project_id: String,
    pub owner_type: String,
    pub owner_id: String,
    pub anchor_start: Option<i64>,
    pub anchor_end: Option<i64>,
    pub quote: Option<String>,
    pub body: String,
    pub resolved: bool,
    pub created_at: String,
    pub updated_at: String,
}

#[derive(Debug)]
pub struct AiChatMessage {
    pub id: String,
    pub project_id: String,
    pub role: String,
    pub content: String,
    pub context_summary: Option<String>,
    pub provider: Option<String>,
    pub model: Option<String>,
    pub created_at: String,
}

#[derive(Debug, Default)]
pub struct AiUsageSummary {
    pub today_requests: i64,
    pub today_input_tokens: i64,
    pub today_output_tokens: i64,
    pub month_requests: i64,
    pub month_input_tokens: i64,
    pub month_output_tokens: i64,
}

/// One candidate block of information that the user may choose to send to
/// an AI provider; `included_by_default` is its initial check state.
#[derive(Debug)]
pub struct ContextBlock {
    pub label: String,
    pub content: String,
    pub char_count: i64,
    pub included_by_default: bool,
}

/// One message handed to a provider.
#[derive(Debug)]
pub struct AiChatTurn {
    pub role: String,
    pub content: String,
}

#[derive(Debug, Default)]
pub struct AiSendResponse {
    pub content: String,
    pub input_tokens: Option<i64>,
    pub output_tokens: Option<i64>,
}

#[derive(Debug)]
pub struct AiAnalysisReport {
    pub id: String,
    pub project_id: String,
    pub analysis_type: String,
    pub target_summary: Option<String>,
    pub context_summary: Option<String>,
    pub result: String,
    pub provider: String,
    pub model: String,
    pub created_at: String,
}

#[derive(Debug)]
pub struct Revision {
    pub id: String,
    pub owner_type: String,
    pub owner_id: String,
    pub body: String,
    pub char_count: i64,
    pub trigger: String,
    pub label: Option<String>,
    pub created_at: String,
}

/// A soft-deleted record of any kind, as the trash lists it.
#[derive(Debug)]
pub struct TrashItem {
    pub entity_type: String,
    pub id: String,
    pub project_id: String,
    pub title: String,
    pub deleted_at: String,
}

/// One whole-database backup file.
#[derive(Debug)]
pub struct BackupInfo {
    pub filename: String,
    pub created_at: String,
    pub size_bytes: u64,
}

} // verus!
