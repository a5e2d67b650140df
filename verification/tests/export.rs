use novel_studio_ai::export::docx::{body_paragraphs, escape_xml, heading_paragraph};
use novel_studio_ai::export::epub::{build_from_random, NO_RANDOMNESS};
use novel_studio_ai::export::escape::{escape, Markup};
use novel_studio_ai::export::html::{body_to_html, escape_html};
use novel_studio_ai::export::markdown::paragraphs_to_markdown;
use novel_studio_ai::export::{diagnostics_archive, diagnostics_archive_at, export, export_formats, gather, gather_chapter, sanitize_filename, ExportChapter};
use novel_studio_ai::models::Project;

fn project(title: &str) -> Project {
    Project {
        id: "p1".into(),
        title: title.into(),
        subtitle: None,
        author_name: Some("作者".into()),
        pen_name: None,
        genre: None,
        target_audience: None,
        target_length: None,
        deadline: None,
        synopsis: None,
        theme: None,
        concept: None,
        style_memo: None,
        pov_policy: None,
        tense: None,
        ai_policy: None,
        is_sample: false,
        created_at: "2026-01-01T00:00:00Z".into(),
        updated_at: "2026-01-01T00:00:00Z".into(),
    }
}

fn sample_chapters() -> Vec<ExportChapter> {
    vec![gather_chapter(
        "第一章 出会い".to_string(),
        None,
        vec![("冒頭".to_string(), Some("その日、空はとても青かった。\n\n彼女はゆっくりと歩き出した。".to_string()))],
    )]
}

/// Bytes standing for the PDF that the renderer outside the library makes.
fn rendered_pdf() -> Vec<u8> {
    b"%PDF-1.7\n%%EOF\n".to_vec()
}

#[test]
fn gather_builds_chapter_scene_tree() {
    let project = project("テスト小説");
    let chapters = gather(vec![(
        "第一章 出会い".to_string(),
        None,
        vec![("冒頭".to_string(), Some("その日、空はとても青かった。\n\n彼女はゆっくりと歩き出した。".to_string()))],
    )]);
    assert_eq!(project.title, "テスト小説");
    assert_eq!(chapters.len(), 1);
    assert_eq!(chapters[0].scenes.len(), 1);
    assert!(chapters[0].scenes[0].body.contains("空はとても青かった"));
}

#[test]
fn gather_keeps_every_chapter_in_order() {
    let chapters = gather(vec![
        ("一".to_string(), Some("序".to_string()), vec![]),
        ("二".to_string(), None, vec![("場".to_string(), None)]),
        ("三".to_string(), Some(String::new()), vec![("a".to_string(), Some("本文".to_string()))]),
    ]);
    assert_eq!(chapters.len(), 3);
    assert_eq!(chapters[0].title, "一");
    assert_eq!(chapters[0].chapter_body, Some("序".to_string()));
    assert_eq!(chapters[1].title, "二");
    assert!(chapters[1].scenes.is_empty());
    assert_eq!(chapters[2].chapter_body, None);
    assert_eq!(chapters[2].scenes.len(), 1);
    assert_eq!(chapters[2].scenes[0].body, "本文");
}

#[test]
fn export_rejects_unknown_format() {
    let e = export(&project("テスト小説"), &sample_chapters(), "not_a_format", Vec::new()).unwrap_err();
    assert_eq!(e.message(), "エラー: 未対応のExport形式です: not_a_format");
}

#[test]
fn export_produces_nonempty_bytes_for_every_format() {
    let project = project("テスト小説");
    let chapters = sample_chapters();
    for format in export_formats() {
        let output = export(&project, &chapters, &format, rendered_pdf()).unwrap();
        assert!(!output.bytes.is_empty(), "{format} produced empty output");
        assert!(output.filename.ends_with(&format!(".{}", if format == "markdown" { "md" } else { &format })));
    }
}

#[test]
fn containers_are_zip_archives() {
    let project = project("テスト小説");
    let chapters = sample_chapters();
    for format in ["docx", "epub"] {
        let output = export(&project, &chapters, format, Vec::new()).unwrap();
        assert_eq!(&output.bytes[..2], b"PK");
    }
    let txt = export(&project, &chapters, "txt", Vec::new()).unwrap();
    assert_eq!(txt.mime_type, "text/plain");
    assert_eq!(txt.filename, "テスト小説.txt");
    let pdf = export(&project, &chapters, "pdf", rendered_pdf()).unwrap();
    assert_eq!(pdf.bytes, rendered_pdf());
}

#[test]
fn gather_leaves_out_empty_bodies() {
    let c = gather_chapter(
        "章".to_string(),
        Some(String::new()),
        vec![("空".to_string(), Some(String::new())), ("無".to_string(), None), ("有".to_string(), Some("本文".into()))],
    );
    assert_eq!(c.chapter_body, None);
    assert_eq!(c.scenes.len(), 1);
    assert_eq!(c.scenes[0].title, "有");
}

#[test]
fn file_names_are_sanitized() {
    assert_eq!(sanitize_filename("a/b:c*d?e\"f<g>h|i\\j"), "a_b_c_d_e_f_g_h_i_j");
    assert_eq!(sanitize_filename("  題名  "), "題名");
    assert_eq!(sanitize_filename("   "), "無題の作品");
}

#[test]
fn markup_is_escaped() {
    assert_eq!(escape_html("<a href=\"x\">&</a>"), "&lt;a href=&quot;x&quot;&gt;&amp;&lt;/a&gt;");
    assert_eq!(body_to_html("一行目\n二行目\n\n  \n\n<次>"), "<p>一行目<br>二行目</p>\n<p>&lt;次&gt;</p>");
    assert_eq!(
        heading_paragraph("Heading1", "A'B"),
        "<w:p><w:pPr><w:pStyle w:val=\"Heading1\"/></w:pPr><w:r><w:t xml:space=\"preserve\">A&apos;B</w:t></w:r></w:p>"
    );
    assert_eq!(
        body_paragraphs("x\ny"),
        "<w:p><w:r><w:t xml:space=\"preserve\">x</w:t></w:r></w:p>\n<w:p><w:r><w:t xml:space=\"preserve\">y</w:t></w:r></w:p>"
    );
}

#[test]
fn markdown_keeps_single_line_breaks() {
    assert_eq!(paragraphs_to_markdown("一行目\n二行目\n\n三行目"), "一行目  \n二行目  \n\n三行目  ");
}

#[test]
fn diagnostics_need_a_log() {
    let e = diagnostics_archive(&Vec::new()).unwrap_err();
    assert_eq!(e.message(), "エラー: 書き出せるログファイルが見つかりませんでした。");
    let out = diagnostics_archive(&vec![("app.log".to_string(), b"line\n".to_vec())]).unwrap();
    assert!(out.filename.starts_with("novel-studio-ai-diagnostics-"));
    assert!(out.filename.ends_with("Z.zip"));
    assert_eq!(out.mime_type, "application/zip");
    assert_eq!(&out.bytes[..2], b"PK");
}

#[test]
fn escaped_text_has_no_markup_characters() {
    let nasty = "<script>alert(\"x\")</script> & 'quote' >";
    for out in [escape_html(nasty), escape_xml(nasty), escape(nasty, Markup::Xhtml)] {
        assert!(!out.contains('<') && !out.contains('>') && !out.contains('"'), "{out}");
    }
    assert_eq!(escape("a\nb", Markup::XhtmlBreaks), "a<br/>b");
}

#[test]
fn diagnostics_are_named_after_the_stamp() {
    let logs = vec![("a.log".to_string(), b"x".to_vec()), ("b.log".to_string(), Vec::new())];
    let out = diagnostics_archive_at(&logs, "20260102T030405Z").unwrap();
    assert_eq!(out.filename, "novel-studio-ai-diagnostics-20260102T030405Z.zip");
    assert_eq!(&out.bytes[..2], b"PK");
    let dup = vec![("a.log".to_string(), b"x".to_vec()), ("a.log".to_string(), b"y".to_vec())];
    let e = diagnostics_archive_at(&dup, "s").unwrap_err();
    assert!(e.message().starts_with("エラー: ZIP作成に失敗しました(a.log): "));
    let long = vec![("n".repeat(70000), Vec::new())];
    let e = diagnostics_archive_at(&long, "s").unwrap_err();
    assert!(e.message().ends_with("): ファイル名が長すぎます"));
}

#[test]
fn html_outline_counts_headings() {
    let chapters = gather(vec![
        ("一<h2>".to_string(), Some("本文<h3>".to_string()), vec![("".to_string(), Some("無題".to_string()))]),
        ("二".to_string(), None, vec![("場A".to_string(), Some("a".to_string())), ("場B".to_string(), Some("b".to_string()))]),
    ]);
    let page = novel_studio_ai::export::html::build(&project("題<h1>"), &chapters);
    assert_eq!(page.matches("<h2>").count(), 2);
    assert_eq!(page.matches("<h3>").count(), 2);
    assert_eq!(page.matches("<p class=\"author\">").count(), 1);
    assert!(page.contains("<h1>題&lt;h1&gt;</h1>"));
    let mut anonymous = project("無名");
    anonymous.author_name = None;
    let page = novel_studio_ai::export::html::build(&anonymous, &chapters);
    assert_eq!(page.matches("<p class=\"author\">").count(), 0);
}

#[test]
fn epub_identifier_comes_from_the_random_bytes() {
    let bytes = build_from_random(&project("テスト小説"), &sample_chapters(), Some([0u8; 16])).unwrap();
    assert_eq!(&bytes[..2], b"PK");
    let id = b"urn:uuid:00000000-0000-4000-8000-000000000000";
    assert!(bytes.windows(id.len()).any(|w| w == id));
    let e = build_from_random(&project("テスト小説"), &sample_chapters(), None).unwrap_err();
    assert_eq!(e.message(), format!("エラー: {NO_RANDOMNESS}"));
}
