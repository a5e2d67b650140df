//! System prompts of the AI writing aids (rewrite, continue, descriptions,
//! dialogue, and the generators of characters, world entries, plots,
//! synopses, titles and whole concepts). The aids only propose text: nothing
//! here writes to the manuscript.
use vstd::prelude::*;
use crate::error::{other_with, AppError};
use crate::text::{str_eq, views};

verus! {

pub const REWRITE_PROMPT: &'static str = "あなたは日本語小説の推敲を支援するアシスタントです。ユーザーが提示する本文を、\
意味を変えずに文章の質を高めてください(冗長な表現の整理、リズムの改善、言葉選びの精緻化)。\
出力は書き直した本文のみとし、説明・前置き・後置きのコメントは一切含めないでください。";

pub const CONTINUE_PROMPT: &'static str = "あなたは日本語小説の続きを提案するアシスタントです。提示された直前の本文に\
自然につながる続きを、地の文として日本語で書いてください。出力は続きの本文のみとし、\
説明文は含めないでください。";

pub const ADD_DESCRIPTION_PROMPT: &'static str = "あなたは日本語小説の描写を豊かにするアシスタントです。提示された本文に、\
情景・五感・心理などの描写を過不足なく加えて書き直してください。出力は書き直した本文の\
みとしてください。";

pub const IMPROVE_DIALOGUE_PROMPT: &'static str = "あなたは日本語小説の会話文を改善するアシスタントです。提示された本文の会話部分を、\
キャラクターらしさや自然さを保ちながら磨いてください。地の文は必要最小限の調整に留めて\
ください。出力は書き直した本文のみとしてください。";

pub const GENERATE_CHARACTER_PROMPT: &'static str = "あなたは小説のキャラクター設定を考案するアシスタントです。ユーザーの追加指示\
(あれば)と提供された作品情報を踏まえ、新しい登場人物を1人提案してください。出力は次の\
形式の行だけで構成し、他の文章を含めないでください(思いつかない項目は省略可):\n\
名前: \n読み: \n年齢: \n性別: \n役割: \n性格: \n目標: \n弱み: \n一人称: \n口癖: \n背景: ";

pub const GENERATE_WORLD_PROMPT: &'static str = "あなたは小説の世界観設定を考案するアシスタントです。ユーザーの追加指示(あれば)と\
提供された作品情報を踏まえ、新しい世界観項目を1つ提案してください。出力は次の形式の行\
だけで構成し、他の文章を含めないでください:\n名前: \n概要: \n詳細: ";

pub const GENERATE_PLOT_PROMPT: &'static str = "あなたは小説のプロットを考案するアシスタントです。ユーザーの追加指示(あれば)と\
提供された作品情報を踏まえ、プロットのアイデアを2〜4件提案してください。出力は1件につき\
次の2行の組で構成し、件と件の間は空行を1行入れてください。他の文章は含めないでください:\n\
タイトル: \n概要: ";

pub const GENERATE_SYNOPSIS_PROMPT: &'static str = "あなたは小説のあらすじを執筆するアシスタントです。提供された作品情報を踏まえ、\
読者の興味を引くあらすじを400字程度の日本語で書いてください。出力はあらすじの本文のみと\
してください。";

pub const GENERATE_TITLES_PROMPT: &'static str = "あなたは小説のタイトルを考案するアシスタントです。提供された作品情報を踏まえ、\
タイトル候補を5件、1行に1件ずつ、番号なしで日本語で提案してください。他の文章は含めない\
でください。";

pub const GENERATE_CONCEPT_PROMPT: &'static str = "あなたは小説の企画・設定作りを支援するアシスタントです。ユーザーが伝える作品の\
アイデアや要望(および提供された既存の作品情報があればそれも踏まえ)をもとに、その作品の\
土台となる設計データを一括で提案してください。出力は必ず次の見出し形式(半角イコール2つで\
囲む行)に従い、見出しの表記・順序を変えず、指定した内容以外の説明文・前置き・後置きの\
コメントは一切含めないでください。\n\n\
==TITLE==\n\
(タイトル候補を1行に1件、3〜5件、番号や記号を付けずに書く)\n\n\
==SYNOPSIS==\n\
(400字程度のあらすじを1つだけ書く)\n\n\
==CHARACTERS==\n\
(主要な登場人物を2〜4人提案する。1人につき次の形式の行の組で書き、人物と人物の間は\
必ず空行を1行入れる:\n\
名前: \n読み: \n年齢: \n性別: \n役割: \n性格: \n目標: \n弱み: \n一人称: \n口癖: \n背景: )\n\n\
==WORLD==\n\
(世界観項目を3〜6件提案する。1件につき次の形式の行の組で書き、件と件の間は必ず空行を\
1行入れる:\n\
名前: \n概要: \n詳細: )\n\n\
==PLOT==\n\
(プロットのアイデアを3〜5件提案する。1件につき次の形式の行の組で書き、件と件の間は\
必ず空行を1行入れる:\n\
タイトル: \n概要: )";

/// The writing aids, in the order offered to the user.
pub open spec fn spec_writing_features() -> Seq<Seq<char>> {
    seq!["rewrite"@, "continue"@, "add_description"@, "improve_dialogue"@, "generate_character"@, "generate_world"@, "generate_plot"@, "generate_synopsis"@, "generate_titles"@, "generate_concept"@]
}

/// The writing aids (`AI_WRITING_FEATURES`).
pub fn ai_writing_features() -> (v: Vec<String>)
    ensures
        views(v@) == spec_writing_features(),
{
    let mut v: Vec<String> = Vec::new();
    v.push(String::from_str("rewrite"));
    v.push(String::from_str("continue"));
    v.push(String::from_str("add_description"));
    v.push(String::from_str("improve_dialogue"));
    v.push(String::from_str("generate_character"));
    v.push(String::from_str("generate_world"));
    v.push(String::from_str("generate_plot"));
    v.push(String::from_str("generate_synopsis"));
    v.push(String::from_str("generate_titles"));
    v.push(String::from_str("generate_concept"));
    assert(views(v@) =~= spec_writing_features());
    v
}

/// The aids that work on a passage of the manuscript (or, for
/// `generate_concept`, on the user's idea) and so need input text.
pub open spec fn spec_requires_input_text(f: Seq<char>) -> bool {
    f == "rewrite"@ || f == "add_description"@ || f == "improve_dialogue"@ || f == "generate_concept"@
}

pub fn requires_input_text(feature: &str) -> (b: bool)
    ensures
        b == spec_requires_input_text(feature@),
{
    str_eq(feature, "rewrite") || str_eq(feature, "add_description") || str_eq(feature, "improve_dialogue")
        || str_eq(feature, "generate_concept")
}

/// The system prompt of each writing aid.
pub open spec fn feature_prompt(f: Seq<char>) -> Seq<char> {
    if f == "rewrite"@ {
        REWRITE_PROMPT@
    } else if f == "continue"@ {
        CONTINUE_PROMPT@
    } else if f == "add_description"@ {
        ADD_DESCRIPTION_PROMPT@
    } else if f == "improve_dialogue"@ {
        IMPROVE_DIALOGUE_PROMPT@
    } else if f == "generate_character"@ {
        GENERATE_CHARACTER_PROMPT@
    } else if f == "generate_world"@ {
        GENERATE_WORLD_PROMPT@
    } else if f == "generate_plot"@ {
        GENERATE_PLOT_PROMPT@
    } else if f == "generate_synopsis"@ {
        GENERATE_SYNOPSIS_PROMPT@
    } else if f == "generate_titles"@ {
        GENERATE_TITLES_PROMPT@
    } else {
        GENERATE_CONCEPT_PROMPT@
    }
}

/// The system prompt for `feature`; an error names any feature that is not
/// one of `spec_writing_features()`.
pub fn system_prompt(feature: &str) -> (r: Result<&'static str, AppError>)
    ensures
        spec_writing_features().contains(feature@) ==> (r matches Ok(p) && p@ == feature_prompt(feature@)),
        !spec_writing_features().contains(feature@) ==> (r matches Err(AppError::Other(m)) && m@
            == "未対応のAI執筆支援機能です: "@ + feature@),
{
    proof {
        assert(spec_writing_features()[0] == "rewrite"@);
        assert(spec_writing_features()[1] == "continue"@);
        assert(spec_writing_features()[2] == "add_description"@);
        assert(spec_writing_features()[3] == "improve_dialogue"@);
        assert(spec_writing_features()[4] == "generate_character"@);
        assert(spec_writing_features()[5] == "generate_world"@);
        assert(spec_writing_features()[6] == "generate_plot"@);
        assert(spec_writing_features()[7] == "generate_synopsis"@);
        assert(spec_writing_features()[8] == "generate_titles"@);
        assert(spec_writing_features()[9] == "generate_concept"@);
    }
    if str_eq(feature, "rewrite") {
        Ok(REWRITE_PROMPT)
    } else if str_eq(feature, "continue") {
        Ok(CONTINUE_PROMPT)
    } else if str_eq(feature, "add_description") {
        Ok(ADD_DESCRIPTION_PROMPT)
    } else if str_eq(feature, "improve_dialogue") {
        Ok(IMPROVE_DIALOGUE_PROMPT)
    } else if str_eq(feature, "generate_character") {
        Ok(GENERATE_CHARACTER_PROMPT)
    } else if str_eq(feature, "generate_world") {
        Ok(GENERATE_WORLD_PROMPT)
    } else if str_eq(feature, "generate_plot") {
        Ok(GENERATE_PLOT_PROMPT)
    } else if str_eq(feature, "generate_synopsis") {
        Ok(GENERATE_SYNOPSIS_PROMPT)
    } else if str_eq(feature, "generate_titles") {
        Ok(GENERATE_TITLES_PROMPT)
    } else if str_eq(feature, "generate_concept") {
        Ok(GENERATE_CONCEPT_PROMPT)
    } else {
        assert(!spec_writing_features().contains(feature@));
        Err(other_with("未対応のAI執筆支援機能です: ", feature))
    }
}

} // verus!
