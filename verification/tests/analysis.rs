use novel_studio_ai::ai::analysis::{ai_analysis_types, requires_character, system_prompt};

#[test]
fn every_declared_type_has_a_prompt() {
    for t in ai_analysis_types() {
        let prompt = system_prompt(&t).unwrap();
        assert!(!prompt.is_empty());
    }
}

#[test]
fn unknown_type_is_rejected() {
    assert!(system_prompt("not_a_type").is_err());
}

#[test]
fn only_character_tone_requires_character() {
    assert!(requires_character("character_tone"));
    assert!(!requires_character("contradiction"));
    assert!(!requires_character("style"));
}

#[test]
fn analysis_types_are_listed_in_order() {
    assert_eq!(
        ai_analysis_types(),
        vec!["contradiction", "character_tone", "timeline", "setting", "foreshadowing", "style"]
    );
}

#[test]
fn unknown_type_error_names_the_type() {
    let e = system_prompt("not_a_type").unwrap_err();
    assert_eq!(e.message(), "エラー: 未対応の分析種別です: not_a_type");
}
