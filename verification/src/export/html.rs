//! HTML export: one self-contained page of plain horizontal text (vertical
//! writing and ruby are left to the manuscript view's print preview).
use vstd::prelude::*;
use super::escape::{body_paragraphs, escape, escaped, render_body, Markup};
use super::{author_of, author_text, ExportChapter, ExportScene};
use crate::models::Project;
use crate::text::{concat_map, lemma_concat_map_step, lemma_take_all};

verus! {

/// The page up to the title.
pub const HTML_HEAD: &'static str = "<!DOCTYPE html>\n<html lang=\"ja\">\n<head>\n<meta charset=\"UTF-8\">\n<title>";

/// The page from after the title (style sheet included) up to the body.
pub const HTML_STYLE: &'static str = "</title>\n<style>\n  body { font-family: \"Noto Serif JP\", \"Hiragino Mincho ProN\", serif; line-height: 2; max-width: 720px; margin: 40px auto; padding: 0 16px; color: #222; }\n  h1 { font-size: 1.8em; border-bottom: 2px solid #333; padding-bottom: 8px; }\n  h2 { font-size: 1.4em; margin-top: 2.5em; }\n  h3 { font-size: 1.1em; color: #555; }\n  p.author { color: #666; margin-top: -0.5em; }\n  p { margin: 0 0 1em; text-indent: 1em; }\n</style>\n</head>\n<body>\n";

/// The page after the body.
pub const HTML_TAIL: &'static str = "\n</body>\n</html>\n";

/// `escape_html`.
pub fn escape_html(s: &str) -> (r: String)
    ensures
        r@ == escaped(Markup::Html, s@),
{
    escape(s, Markup::Html)
}

/// `body_to_html`.
pub fn body_to_html(body: &str) -> (r: String)
    ensures
        r@ == body_paragraphs(Markup::HtmlBreaks, body@),
{
    render_body(body, Markup::HtmlBreaks)
}

pub open spec fn html_scene(s: ExportScene) -> Seq<char> {
    (if s.title@.len() > 0 {
        "<h3>"@ + escaped(Markup::Html, s.title@) + "</h3>\n"@
    } else {
        Seq::empty()
    }) + body_paragraphs(Markup::HtmlBreaks, s.body@) + "\n"@
}

pub open spec fn html_chapter(c: ExportChapter) -> Seq<char> {
    "<h2>"@ + escaped(Markup::Html, c.title@) + "</h2>\n"@ + match c.chapter_body {
        Some(b) => body_paragraphs(Markup::HtmlBreaks, b@) + "\n"@,
        None => Seq::empty(),
    } + concat_map(c.scenes@, |s: ExportScene| html_scene(s))
}

/// The page's body: the title as `<h1>`, the author, then the chapters.
pub open spec fn html_body(p: Project, cs: Seq<ExportChapter>) -> Seq<char> {
    "<h1>"@ + escaped(Markup::Html, p.title@) + "</h1>\n"@ + (if author_of(p).len() > 0 {
        "<p class=\"author\">"@ + escaped(Markup::Html, author_of(p)) + "</p>\n"@
    } else {
        Seq::empty()
    }) + concat_map(cs, |c: ExportChapter| html_chapter(c))
}

/// The HTML export: the page template around the escaped title and the
/// body.
pub open spec fn html_document(p: Project, cs: Seq<ExportChapter>) -> Seq<char> {
    HTML_HEAD@ + escaped(Markup::Html, p.title@) + HTML_STYLE@ + html_body(p, cs) + HTML_TAIL@
}

fn append_scene(out: &mut String, s: &ExportScene)
    ensures
        final(out)@ == old(out)@ + html_scene(*s),
{
    let ghost start = out@;
    if !s.title.as_str().is_empty() {
        out.append("<h3>");
        let t = escape_html(s.title.as_str());
        out.append(t.as_str());
        out.append("</h3>\n");
    }
    let b = body_to_html(s.body.as_str());
    out.append(b.as_str());
    out.append("\n");
    assert(out@ =~= start + html_scene(*s));
}

fn append_chapter(out: &mut String, c: &ExportChapter)
    ensures
        final(out)@ == old(out)@ + html_chapter(*c),
{
    let ghost start = out@;
    out.append("<h2>");
    let t = escape_html(c.title.as_str());
    out.append(t.as_str());
    out.append("</h2>\n");
    if let Some(body) = &c.chapter_body {
        let b = body_to_html(body.as_str());
        out.append(b.as_str());
        out.append("\n");
    }
    let ghost head = out@;
    let ghost f = |s: ExportScene| html_scene(s);
    let mut i: usize = 0;
    while i < c.scenes.len()
        invariant
            0 <= i <= c.scenes@.len(),
            out@ == head + concat_map(c.scenes@.take(i as int), f),
            f == (|s: ExportScene| html_scene(s)),
        decreases c.scenes.len() - i,
    {
        proof {
            lemma_concat_map_step(c.scenes@, i as int, f);
        }
        append_scene(out, &c.scenes[i]);
        assert(out@ =~= head + concat_map(c.scenes@.take(i + 1), f));
        i += 1;
    }
    proof {
        lemma_take_all(c.scenes@);
    }
    assert(out@ =~= start + html_chapter(*c));
}

/// The HTML export of the work.
pub fn build(project: &Project, chapters: &[ExportChapter]) -> (r: String)
    ensures
        r@ == html_document(*project, chapters@),
{
    let mut body = String::new();
    body.append("<h1>");
    let t = escape_html(project.title.as_str());
    body.append(t.as_str());
    body.append("</h1>\n");
    let author = author_text(project);
    if !author.as_str().is_empty() {
        body.append("<p class=\"author\">");
        let a = escape_html(author.as_str());
        body.append(a.as_str());
        body.append("</p>\n");
    }
    let ghost head = body@;
    let ghost f = |c: ExportChapter| html_chapter(c);
    let mut i: usize = 0;
    while i < chapters.len()
        invariant
            0 <= i <= chapters@.len(),
            body@ == head + concat_map(chapters@.take(i as int), f),
            f == (|c: ExportChapter| html_chapter(c)),
        decreases chapters.len() - i,
    {
        proof {
            lemma_concat_map_step(chapters@, i as int, f);
        }
        append_chapter(&mut body, &chapters[i]);
        assert(body@ =~= head + concat_map(chapters@.take(i + 1), f));
        i += 1;
    }
    proof {
        lemma_take_all(chapters@);
    }
    assert(body@ =~= html_body(*project, chapters@));
    let mut out = String::from_str(HTML_HEAD);
    out.append(t.as_str());
    out.append(HTML_STYLE);
    out.append(body.as_str());
    out.append(HTML_TAIL);
    out
}

} // verus!
