use novel_studio_ai::readability::{compute, dialogue_char_count, is_hiragana, is_kanji, is_katakana, split_sentences};

fn ratio(part: usize, total: usize) -> f64 {
    if total == 0 {
        0.0
    } else {
        part as f64 / total as f64
    }
}

#[test]
fn empty_text_yields_zeroed_stats() {
    let stats = compute("");
    assert_eq!(stats.total_chars, 0);
    assert_eq!(stats.sentence_count, 0);
}

#[test]
fn counts_sentences_dialogue_and_char_kinds() {
    let text = "「おはよう」と彼女は言った。空はとても青かった。";
    let stats = compute(text);
    assert_eq!(stats.sentence_count, 2);
    assert!(stats.total_chars > 0);
    assert!(ratio(stats.dialogue_chars, stats.total_chars) > 0.0);
    assert!(ratio(stats.kanji_chars, stats.total_chars) > 0.0);
    assert!(ratio(stats.hiragana_chars, stats.total_chars) > 0.0);
}

#[test]
fn flags_long_sentences() {
    let long = "あ".repeat(150) + "。";
    let stats = compute(&long);
    assert_eq!(stats.sentence_count, 1);
    assert_eq!(stats.long_sentence_count, 1);
    assert_eq!(stats.max_sentence_length, 151);
}

#[test]
fn exact_counts_of_a_short_text() {
    let text = "「おはよう」と彼女は言った。空はとても青かった。";
    let stats = compute(text);
    assert_eq!(stats.total_chars, 24);
    assert_eq!(stats.dialogue_chars, 4);
    assert_eq!(stats.total_sentence_chars, 24);
    assert_eq!(stats.max_sentence_length, 14);
    assert_eq!(stats.long_sentence_count, 0);
    assert_eq!(stats.kanji_chars, 5);
    assert_eq!(stats.katakana_chars, 0);
    assert_eq!(stats.total_touten, 0);
}

#[test]
fn counts_never_exceed_the_text() {
    for text in ["", "  ", "あ。い？う！", "「「入れ子」」の会話。", "カタカナ、ひらがな、漢字。残り"] {
        let s = compute(text);
        assert!(s.sentence_count <= s.total_sentence_chars);
        assert!(s.total_sentence_chars <= s.total_chars);
        assert!(s.max_sentence_length <= s.total_sentence_chars);
        assert!(s.long_sentence_count <= s.sentence_count);
        assert!(s.total_touten <= s.total_sentence_chars);
        assert!(s.dialogue_chars <= s.total_chars);
        assert!(s.kanji_chars + s.hiragana_chars + s.katakana_chars <= s.total_chars);
    }
}

#[test]
fn sentences_split_after_terminators_and_keep_the_rest() {
    let parts = split_sentences("一つ目。二つ目！三つ目?  \n 残り");
    assert_eq!(parts, vec!["一つ目。", "二つ目！", "三つ目?", "  \n 残り"]);
    assert!(split_sentences("   ").is_empty());
}

#[test]
fn dialogue_counts_only_inside_brackets() {
    assert_eq!(dialogue_char_count("「はい」と言う『いいえ』"), 5);
    assert_eq!(dialogue_char_count("」閉じだけ"), 0);
}

#[test]
fn script_tests() {
    assert!(is_kanji('漢'));
    assert!(!is_kanji('か'));
    assert!(is_hiragana('か'));
    assert!(is_katakana('カ'));
    assert!(!is_katakana('a'));
}
