//! System prompts of the AI analyses (contradictions, character voice,
//! timeline, setting, foreshadowing, style). An analysis only reads the
//! manuscript: nothing here writes to it.
use vstd::prelude::*;
use crate::error::{other_with, AppError};
use crate::text::{str_eq, views};

verus! {

pub const CONTRADICTION_PROMPT: &'static str = "あなたは日本語小説の校正者です。提示された本文全体と、登場人物・世界観設定・\
時系列の情報を読み、それらの間に矛盾点がないか確認してください。矛盾がある場合は該当\
箇所を引用し、何と何がどう矛盾しているかを具体的に指摘してください。断定的すぎる指摘は\
避け、「〜の可能性があります」のように可能性として述べてください。矛盾が見つからない\
場合は、確認した範囲でその旨を述べてください。";

pub const CHARACTER_TONE_PROMPT: &'static str = "あなたは日本語小説の校正者です。指定された対象キャラクターの一人称・二人称・\
語尾・口癖・性格などの設定と、本文中のそのキャラクターの発言・言動を比較してください。\
設定と食い違う口調や、キャラクターらしくない言動があれば、該当箇所を引用して具体的に\
指摘してください。特に問題が見当たらない場合はその旨を述べてください。";

pub const TIMELINE_PROMPT: &'static str = "あなたは日本語小説の校正者です。提示された時系列イベント一覧(日付・出来事)と\
本文中の時間経過の記述を照らし合わせ、日付や出来事の前後関係に矛盾がないか確認して\
ください。矛盾があれば該当箇所を引用して具体的に指摘してください。";

pub const SETTING_PROMPT: &'static str = "あなたは日本語小説の校正者です。提示された世界観設定(用語・ルール・場所など)と\
本文の描写を照らし合わせ、設定と食い違う記述がないか確認してください。矛盾があれば\
該当箇所を引用して具体的に指摘してください。";

pub const FORESHADOWING_PROMPT: &'static str = "あなたは日本語小説の編集者です。提示された伏線一覧(タイトル・ステータス・詳細)\
と本文を照らし合わせ、次の観点で指摘してください: (1)「設置済」「ヒント提示済」\
「回収予定」のまま長く放置されていそうな伏線、(2) 本文中に伏線らしき記述があるのに\
伏線一覧に登録されていなさそうなもの。断定はせず、確認を促す形で指摘してください。";

pub const STYLE_PROMPT: &'static str = "あなたは日本語小説の編集者です。提示された本文と、その文体統計(平均文長・\
会話文比率・文字種比率など)を参考に、文体の特徴・癖・読みやすさについて講評してください。\
文末表現の単調な繰り返しなど、改善余地があれば具体的な箇所を挙げて指摘してください。";

/// The analysis kinds, in the order offered to the user.
pub open spec fn spec_analysis_types() -> Seq<Seq<char>> {
    seq!["contradiction"@, "character_tone"@, "timeline"@, "setting"@, "foreshadowing"@, "style"@]
}

/// The analysis kinds (`AI_ANALYSIS_TYPES`).
pub fn ai_analysis_types() -> (v: Vec<String>)
    ensures
        views(v@) == spec_analysis_types(),
{
    let mut v: Vec<String> = Vec::new();
    v.push(String::from_str("contradiction"));
    v.push(String::from_str("character_tone"));
    v.push(String::from_str("timeline"));
    v.push(String::from_str("setting"));
    v.push(String::from_str("foreshadowing"));
    v.push(String::from_str("style"));
    assert(views(v@) =~= spec_analysis_types());
    v
}

/// Only the `character_tone` analysis needs a target character.
pub fn requires_character(analysis_type: &str) -> (b: bool)
    ensures
        b == (analysis_type@ == "character_tone"@),
{
    str_eq(analysis_type, "character_tone")
}

/// The system prompt of each analysis kind.
pub open spec fn analysis_prompt(t: Seq<char>) -> Seq<char> {
    if t == "contradiction"@ {
        CONTRADICTION_PROMPT@
    } else if t == "character_tone"@ {
        CHARACTER_TONE_PROMPT@
    } else if t == "timeline"@ {
        TIMELINE_PROMPT@
    } else if t == "setting"@ {
        SETTING_PROMPT@
    } else if t == "foreshadowing"@ {
        FORESHADOWING_PROMPT@
    } else {
        STYLE_PROMPT@
    }
}

/// The system prompt for `analysis_type`; an error names any kind that is
/// not one of `spec_analysis_types()`.
pub fn system_prompt(analysis_type: &str) -> (r: Result<&'static str, AppError>)
    ensures
        spec_analysis_types().contains(analysis_type@) ==> (r matches Ok(p) && p@ == analysis_prompt(analysis_type@)),
        !spec_analysis_types().contains(analysis_type@) ==> (r matches Err(AppError::Other(m)) && m@
            == "未対応の分析種別です: "@ + analysis_type@),
{
    proof {
        assert(spec_analysis_types()[0] == "contradiction"@);
        assert(spec_analysis_types()[1] == "character_tone"@);
        assert(spec_analysis_types()[2] == "timeline"@);
        assert(spec_analysis_types()[3] == "setting"@);
        assert(spec_analysis_types()[4] == "foreshadowing"@);
        assert(spec_analysis_types()[5] == "style"@);
    }
    if str_eq(analysis_type, "contradiction") {
        Ok(CONTRADICTION_PROMPT)
    } else if str_eq(analysis_type, "character_tone") {
        Ok(CHARACTER_TONE_PROMPT)
    } else if str_eq(analysis_type, "timeline") {
        Ok(TIMELINE_PROMPT)
    } else if str_eq(analysis_type, "setting") {
        Ok(SETTING_PROMPT)
    } else if str_eq(analysis_type, "foreshadowing") {
        Ok(FORESHADOWING_PROMPT)
    } else if str_eq(analysis_type, "style") {
        Ok(STYLE_PROMPT)
    } else {
        assert(!spec_analysis_types().contains(analysis_type@));
        Err(other_with("未対応の分析種別です: ", analysis_type))
    }
}

} // verus!
