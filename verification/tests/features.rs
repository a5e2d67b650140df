use novel_studio_ai::ai::features::{ai_writing_features, requires_input_text, system_prompt};

#[test]
fn every_declared_feature_has_a_prompt() {
    for feature in ai_writing_features() {
        let prompt = system_prompt(&feature).unwrap();
        assert!(!prompt.is_empty());
    }
}

#[test]
fn unknown_feature_is_rejected() {
    assert!(system_prompt("not_a_feature").is_err());
}

#[test]
fn only_text_editing_features_require_input() {
    assert!(requires_input_text("rewrite"));
    assert!(requires_input_text("add_description"));
    assert!(requires_input_text("improve_dialogue"));
    assert!(requires_input_text("generate_concept"));
    assert!(!requires_input_text("continue"));
    assert!(!requires_input_text("generate_titles"));
}

#[test]
fn generate_concept_prompt_specifies_all_section_markers() {
    let prompt = system_prompt("generate_concept").unwrap();
    for marker in ["==TITLE==", "==SYNOPSIS==", "==CHARACTERS==", "==WORLD==", "==PLOT=="] {
        assert!(prompt.contains(marker), "missing marker: {marker}");
    }
}

#[test]
fn unknown_feature_error_names_the_feature() {
    let e = system_prompt("not_a_feature").unwrap_err();
    assert_eq!(e.message(), "エラー: 未対応のAI執筆支援機能です: not_a_feature");
}
