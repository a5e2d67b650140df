use novel_studio_ai::ai::requests::{
    analysis_usage_feature, check_analysis, history_turns, label_list, prepare_analysis, prepare_chat,
    prepare_writing_feature, CHAT_PREAMBLE, NO_INSTRUCTION,
};
use novel_studio_ai::ai::analysis::system_prompt as analysis_prompt;
use novel_studio_ai::ai::features::system_prompt as feature_prompt;
use novel_studio_ai::models::{AiChatMessage, ContextBlock};

fn block(label: &str, content: &str) -> ContextBlock {
    ContextBlock {
        label: label.into(),
        content: content.into(),
        char_count: content.chars().count() as i64,
        included_by_default: true,
    }
}

#[test]
fn chat_without_selection_sends_no_system_prompt() {
    let plan = prepare_chat("anthropic", "相談です", &[]).unwrap();
    assert!(plan.context_summary.is_none());
    assert!(plan.system.is_none());
}

#[test]
fn chat_system_prompt_holds_exactly_the_selected_blocks() {
    let blocks = vec![block("作品概要", "あらすじ"), block("現在の章", "タイトル: 一")];
    let plan = prepare_chat("gemini", "次は?", &blocks).unwrap();
    assert_eq!(plan.context_summary.as_deref(), Some("作品概要, 現在の章"));
    assert_eq!(
        plan.system.unwrap(),
        format!("{CHAT_PREAMBLE}\n\n## 作品概要\nあらすじ\n\n## 現在の章\nタイトル: 一")
    );
    assert_eq!(label_list(&[]), "");
}

#[test]
fn chat_refusals() {
    let e = prepare_chat("nope", "x", &[]).err().unwrap();
    assert_eq!(e.message(), "エラー: 未対応のAIプロバイダーです: nope");
    let e = prepare_chat("openai", " \n\t", &[]).err().unwrap();
    assert_eq!(e.message(), "エラー: メッセージが空です。");
}

#[test]
fn history_becomes_turns() {
    let m = AiChatMessage {
        id: "1".into(),
        project_id: "p".into(),
        role: "assistant".into(),
        content: "はい".into(),
        context_summary: None,
        provider: None,
        model: None,
        created_at: "t".into(),
    };
    let t = history_turns(&[m]);
    assert_eq!((t[0].role.as_str(), t[0].content.as_str()), ("assistant", "はい"));
}

#[test]
fn writing_features_check_their_input() {
    let e = prepare_writing_feature("anthropic", "rewrite", &[], Some("  ")).err().unwrap();
    assert_eq!(e.message(), "エラー: 対象の本文が空です。");
    let e = prepare_writing_feature("anthropic", "nope", &[], None).err().unwrap();
    assert_eq!(e.message(), "エラー: 未対応のAI執筆支援機能です: nope");
    let plan = prepare_writing_feature("anthropic", "continue", &[block("直前本文", "本文")], None).unwrap();
    assert_eq!(plan.user_content, NO_INSTRUCTION);
    assert_eq!(plan.system, format!("{}\n\n## 直前本文\n本文", feature_prompt("continue").unwrap()));
    let plan = prepare_writing_feature("openai", "rewrite", &[], Some("直す文")).unwrap();
    assert_eq!(plan.user_content, "直す文");
    assert_eq!(plan.system, feature_prompt("rewrite").unwrap());
}

#[test]
fn analyses_check_their_target_and_selection() {
    let e = check_analysis("openai", "character_tone", None).err().unwrap();
    assert_eq!(e.message(), "エラー: 対象キャラクターを選択してください。");
    let e = check_analysis("x", "character_tone", Some("c")).err().unwrap();
    assert_eq!(e.message(), "エラー: 未対応のAIプロバイダーです: x");
    let e = check_analysis("openai", "mood", None).err().unwrap();
    assert_eq!(e.message(), "エラー: 未対応の分析種別です: mood");
    let prompt = check_analysis("openai", "style", None).unwrap();
    assert_eq!(prompt, analysis_prompt("style").unwrap());
    let e = prepare_analysis(prompt, &[]).err().unwrap();
    assert_eq!(e.message(), "エラー: 分析対象の情報が選択されていません。");
    let plan = prepare_analysis("P", &[block("作品全文", "本文")]).unwrap();
    assert_eq!(plan.system, "P\n\n## 作品全文\n本文");
    assert_eq!(plan.context_summary, "作品全文");
    assert_eq!(plan.user_content, "上記の情報をもとに分析結果を日本語で述べてください。");
    assert_eq!(analysis_usage_feature("style"), "analysis_style");
}
