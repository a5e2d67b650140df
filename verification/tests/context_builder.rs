use novel_studio_ai::ai::context_builder::{
    build_analysis_context, build_context, char_count, context_document_owner, excerpt_tail, full_manuscript_text,
};
use novel_studio_ai::export::{ExportChapter, ExportScene};
use novel_studio_ai::models::{Chapter, Character, Document, Foreshadowing, Project, TimelineEvent, WorldEntry};

fn project(title: &str, synopsis: Option<&str>) -> Project {
    Project {
        id: "p1".into(),
        title: title.into(),
        subtitle: None,
        author_name: None,
        pen_name: None,
        genre: None,
        target_audience: None,
        target_length: None,
        deadline: None,
        synopsis: synopsis.map(|s| s.to_string()),
        theme: None,
        concept: None,
        style_memo: None,
        pov_policy: None,
        tense: None,
        ai_policy: None,
        is_sample: false,
        created_at: "2026-01-01T00:00:00Z".into(),
        updated_at: "2026-01-01T00:00:00Z".into(),
    }
}

fn chapter(title: &str) -> Chapter {
    Chapter {
        id: "c1".into(),
        project_id: "p1".into(),
        part_id: None,
        title: title.into(),
        subtitle: None,
        synopsis: None,
        memo: None,
        pov: None,
        status: "writing".into(),
        start_at: None,
        end_at: None,
        location: None,
        order_index: 0,
        char_count: 0,
    }
}

fn document(owner_type: &str, body: &str) -> Document {
    Document {
        id: "d1".into(),
        owner_type: owner_type.into(),
        owner_id: "c1".into(),
        body: body.into(),
        char_count: body.chars().count() as i64,
        updated_at: "2026-01-01T00:00:00Z".into(),
    }
}

fn labels(blocks: &[novel_studio_ai::models::ContextBlock]) -> Vec<&str> {
    blocks.iter().map(|b| b.label.as_str()).collect()
}

#[test]
fn builds_blocks_from_project_and_chapter() {
    let p = project("P", Some("主人公が謎を追う"));
    let c = chapter("第一章");
    assert_eq!(context_document_owner(Some("c1"), None), Some(("chapter".to_string(), "c1".to_string())));
    let d = document("chapter", "その夜、時計が止まった。");
    let blocks = build_context(Some(&p), Some(&c), None, Some(&d), &[], &[], &[], Some("この後どう展開すべき?"));
    let labels = labels(&blocks);
    assert!(labels.contains(&"作品概要"));
    assert!(labels.contains(&"現在の章"));
    assert!(labels.contains(&"直前本文"));
    assert!(labels.contains(&"ユーザーの質問"));
}

#[test]
fn full_manuscript_text_concatenates_chapter_and_scene_bodies() {
    let chapters = vec![ExportChapter {
        title: "第一章".into(),
        chapter_body: Some("章直下の本文。".into()),
        scenes: vec![ExportScene { title: "シーン1".into(), body: "シーンの本文。".into() }],
    }];
    let text = full_manuscript_text(&chapters);
    assert!(text.contains("第一章"));
    assert!(text.contains("章直下の本文。"));
    assert!(text.contains("シーン1"));
    assert!(text.contains("シーンの本文。"));
}

#[test]
fn build_analysis_context_includes_manuscript_and_type_specific_blocks() {
    let p = project("P", None);
    let chapters = vec![ExportChapter {
        title: "第一章".into(),
        chapter_body: Some("その夜、時計が止まった。".into()),
        scenes: vec![],
    }];
    let manuscript = full_manuscript_text(&chapters);

    let blocks = build_analysis_context(Some(&p), "contradiction", None, &[], &[], &[], &[], "", &manuscript);
    assert!(labels(&blocks).contains(&"作品全文"));

    let style_blocks =
        build_analysis_context(Some(&p), "style", None, &[], &[], &[], &[], "総文字数: 12字", &manuscript);
    assert!(labels(&style_blocks).contains(&"文体統計"));
}

#[test]
fn chat_context_blocks_in_order_with_exact_content() {
    let mut p = project("P", Some("あらすじ本文"));
    p.theme = Some("".into());
    p.pov_policy = Some("一人称".into());
    let mut c = chapter("第一章");
    c.synopsis = Some("出会い".into());
    let d = document("chapter", "本文");
    let hero = Character { name: "ユキ".into(), role: Some("主人公".into()), ..Default::default() };
    let world = WorldEntry { name: "王都".into(), summary: Some("北の都".into()), ..Default::default() };
    let open = Foreshadowing { title: "鍵".into(), status: "planted".into(), ..Default::default() };
    let done = Foreshadowing { title: "手紙".into(), status: "resolved".into(), ..Default::default() };
    let blocks = build_context(Some(&p), Some(&c), None, Some(&d), &[hero], &[world], &[open, done], Some(""));
    assert_eq!(labels(&blocks), vec!["作品概要", "現在の章", "直前本文", "登場人物", "世界観設定", "未回収の伏線"]);
    assert_eq!(blocks[0].content, "あらすじ: あらすじ本文\n視点方針: 一人称");
    assert_eq!(blocks[1].content, "タイトル: 第一章\n概要: 出会い");
    assert_eq!(blocks[2].content, "本文");
    assert_eq!(blocks[3].content, "- ユキ(主人公): ");
    assert!(!blocks[3].included_by_default);
    assert_eq!(blocks[4].content, "- 王都: 北の都");
    assert_eq!(blocks[5].content, "- 鍵(planted): ");
    for b in &blocks {
        assert_eq!(b.char_count, b.content.chars().count() as i64);
    }
}

#[test]
fn preceding_text_is_the_last_1200_characters() {
    let body = "あ".repeat(1000) + &"い".repeat(500);
    let tail = excerpt_tail(&body);
    assert_eq!(tail.chars().count(), 1200);
    assert!(tail.starts_with(&"あ".repeat(700)));
    assert_eq!(excerpt_tail("短い"), "短い");
    assert_eq!(char_count("漢字かな"), 4);
}

#[test]
fn scene_text_is_preferred_over_the_chapter() {
    assert_eq!(context_document_owner(Some("c1"), Some("s1")), Some(("scene".to_string(), "s1".to_string())));
    assert_eq!(context_document_owner(None, None), None);
}

#[test]
fn character_tone_analysis_profiles_the_target() {
    let p = project("P", Some("概要"));
    let target = Character {
        name: "ユキ".into(),
        personality: Some("冷静".into()),
        first_person: Some("私".into()),
        speech_suffix: Some("".into()),
        catchphrase: Some("まあね".into()),
        ..Default::default()
    };
    let other = Character { name: "ハル".into(), ..Default::default() };
    let ev = TimelineEvent { title: "出発".into(), event_date: Some("1日目".into()), ..Default::default() };
    let blocks = build_analysis_context(
        Some(&p),
        "character_tone",
        Some(&target),
        &[other],
        &[],
        &[ev],
        &[],
        "",
        "",
    );
    assert_eq!(labels(&blocks), vec!["作品概要", "対象キャラクター設定", "登場人物"]);
    assert_eq!(blocks[1].content, "名前: ユキ\n性格: 冷静\n一人称: 私\n口癖: まあね");
    assert!(!blocks[2].included_by_default);
}

#[test]
fn contradiction_analysis_lists_every_record() {
    let e = WorldEntry { name: "魔法".into(), summary: Some("禁術".into()), detail: Some("代償あり".into()), ..Default::default() };
    let ev = TimelineEvent { title: "出発".into(), event_date: Some("1日目".into()), ..Default::default() };
    let f = Foreshadowing { title: "手紙".into(), status: "resolved".into(), ..Default::default() };
    let blocks = build_analysis_context(None, "contradiction", None, &[], &[e], &[ev], &[f], "", "本文");
    assert_eq!(labels(&blocks), vec!["世界観設定", "時系列", "伏線一覧", "作品全文"]);
    assert_eq!(blocks[0].content, "- 魔法: 禁術 / 代償あり");
    assert_eq!(blocks[1].content, "- [1日目] 出発: ");
    assert_eq!(blocks[2].content, "- 手紙(resolved): ");
}
