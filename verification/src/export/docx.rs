//! DOCX (Word) export: a minimal WordprocessingML document in a ZIP
//! container. Fonts are left to Word, so nothing is embedded.
use vstd::prelude::*;
use super::container::{
    build_zip, fits_zip32, lemma_name_bytes_bound, member_views, name_bytes, stored_zip_bytes, zip_ready, MAX_NAME_BYTES,
};
use super::escape::{escape, escaped, is_markup_char, law_escaped_text_is_inert, Markup};
use super::outline::{
    joins_cleanly, lemma_clean_after, lemma_clean_before, lemma_occurrences_concat, lemma_occurrences_self,
    lemma_occurrences_short, lemma_window_count, no_triple, occurrences, titled, titled_scenes, triple_at,
};
use super::{author_of, author_text, ExportChapter, ExportScene};
use crate::error::AppError;
use crate::models::Project;
use crate::text::{
    concat_map, has_infix, join, join_strings, lemma_concat_map_step, lemma_infix_concat_map, lemma_infix_left,
    lemma_infix_right, lemma_infix_self, lemma_take_all, lines, split_lines, views,
};

verus! {

pub const CONTENT_TYPES_XML: &'static str = "<?xml version=\"1.0\" encoding=\"UTF-8\" standalone=\"yes\"?>\n<Types xmlns=\"http://schemas.openxmlformats.org/package/2006/content-types\">\n<Default Extension=\"rels\" ContentType=\"application/vnd.openxmlformats-package.relationships+xml\"/>\n<Default Extension=\"xml\" ContentType=\"application/xml\"/>\n<Override PartName=\"/word/document.xml\" ContentType=\"application/vnd.openxmlformats-officedocument.wordprocessingml.document.main+xml\"/>\n<Override PartName=\"/word/styles.xml\" ContentType=\"application/vnd.openxmlformats-officedocument.wordprocessingml.styles+xml\"/>\n</Types>";

pub const ROOT_RELS_XML: &'static str = "<?xml version=\"1.0\" encoding=\"UTF-8\" standalone=\"yes\"?>\n<Relationships xmlns=\"http://schemas.openxmlformats.org/package/2006/relationships\">\n<Relationship Id=\"rId1\" Type=\"http://schemas.openxmlformats.org/officeDocument/2006/relationships/officeDocument\" Target=\"word/document.xml\"/>\n</Relationships>";

pub const DOCUMENT_RELS_XML: &'static str = "<?xml version=\"1.0\" encoding=\"UTF-8\" standalone=\"yes\"?>\n<Relationships xmlns=\"http://schemas.openxmlformats.org/package/2006/relationships\">\n<Relationship Id=\"rId1\" Type=\"http://schemas.openxmlformats.org/officeDocument/2006/relationships/styles\" Target=\"styles.xml\"/>\n</Relationships>";

pub const STYLES_XML: &'static str = "<?xml version=\"1.0\" encoding=\"UTF-8\" standalone=\"yes\"?>\n<w:styles xmlns:w=\"http://schemas.openxmlformats.org/wordprocessingml/2006/main\">\n<w:style w:type=\"paragraph\" w:default=\"1\" w:styleId=\"Normal\"><w:name w:val=\"Normal\"/><w:rPr><w:sz w:val=\"22\"/></w:rPr></w:style>\n<w:style w:type=\"paragraph\" w:styleId=\"Title\"><w:name w:val=\"Title\"/><w:basedOn w:val=\"Normal\"/><w:rPr><w:b/><w:sz w:val=\"40\"/></w:rPr></w:style>\n<w:style w:type=\"paragraph\" w:styleId=\"Heading1\"><w:name w:val=\"heading 1\"/><w:basedOn w:val=\"Normal\"/><w:pPr><w:outlineLvl w:val=\"0\"/></w:pPr><w:rPr><w:b/><w:sz w:val=\"32\"/></w:rPr></w:style>\n<w:style w:type=\"paragraph\" w:styleId=\"Heading2\"><w:name w:val=\"heading 2\"/><w:basedOn w:val=\"Normal\"/><w:pPr><w:outlineLvl w:val=\"1\"/></w:pPr><w:rPr><w:b/><w:sz w:val=\"26\"/></w:rPr></w:style>\n</w:styles>";

/// `document.xml` up to the body.
pub const DOCUMENT_HEAD: &'static str = "<?xml version=\"1.0\" encoding=\"UTF-8\" standalone=\"yes\"?>\n<w:document xmlns:w=\"http://schemas.openxmlformats.org/wordprocessingml/2006/main\">\n<w:body>\n";

/// `document.xml` after the body (page size and margins).
pub const DOCUMENT_TAIL: &'static str = "\n<w:sectPr><w:pgSz w:w=\"11906\" w:h=\"16838\"/><w:pgMar w:top=\"1417\" w:right=\"1417\" w:bottom=\"1417\" w:left=\"1417\"/></w:sectPr>\n</w:body>\n</w:document>";

/// A paragraph of the style `style` holding one run of `text`.
pub open spec fn heading_xml(style: Seq<char>, text: Seq<char>) -> Seq<char> {
    "<w:p><w:pPr><w:pStyle w:val=\""@ + style + "\"/></w:pPr><w:r><w:t xml:space=\"preserve\">"@
        + escaped(Markup::Wordml, text) + "</w:t></w:r></w:p>"@
}

/// A plain paragraph holding one run of `text`.
pub open spec fn plain_xml(text: Seq<char>) -> Seq<char> {
    "<w:p><w:r><w:t xml:space=\"preserve\">"@ + escaped(Markup::Wordml, text) + "</w:t></w:r></w:p>"@
}

/// `escape_xml` of the DOCX export (`& < > " '`).
pub fn escape_xml(s: &str) -> (r: String)
    ensures
        r@ == escaped(Markup::Wordml, s@),
{
    escape(s, Markup::Wordml)
}

pub fn heading_paragraph(style: &str, text: &str) -> (r: String)
    ensures
        r@ == heading_xml(style@, text@),
{
    let mut r = String::from_str("<w:p><w:pPr><w:pStyle w:val=\"");
    r.append(style);
    r.append("\"/></w:pPr><w:r><w:t xml:space=\"preserve\">");
    let t = escape_xml(text);
    r.append(t.as_str());
    r.append("</w:t></w:r></w:p>");
    r
}

fn plain_paragraph(text: &str) -> (r: String)
    ensures
        r@ == plain_xml(text@),
{
    let mut r = String::from_str("<w:p><w:r><w:t xml:space=\"preserve\">");
    let t = escape_xml(text);
    r.append(t.as_str());
    r.append("</w:t></w:r></w:p>");
    r
}

/// Each line of a body as a plain paragraph, joined with `\n`.
pub open spec fn body_xml(b: Seq<char>) -> Seq<char> {
    join(lines(b).map_values(|l: Seq<char>| plain_xml(l)), "\n"@)
}

pub fn body_paragraphs(body: &str) -> (r: String)
    ensures
        r@ == body_xml(body@),
{
    let ls = split_lines(body);
    let mut out: Vec<String> = Vec::new();
    let mut i: usize = 0;
    while i < ls.len()
        invariant
            views(ls@) == lines(body@),
            0 <= i <= ls@.len(),
            views(out@) == lines(body@).take(i as int).map_values(|l: Seq<char>| plain_xml(l)),
        decreases ls.len() - i,
    {
        let ghost before = out@;
        let p = plain_paragraph(ls[i].as_str());
        out.push(p);
        proof {
            let item = plain_xml(ls@[i as int]@);
            assert(lines(body@)[i as int] == ls@[i as int]@);
            assert(views(out@) =~= views(before).push(item));
            assert(lines(body@).take(i + 1).map_values(|l: Seq<char>| plain_xml(l)) =~= lines(body@).take(
                i as int,
            ).map_values(|l: Seq<char>| plain_xml(l)).push(item));
        }
        i += 1;
    }
    assert(lines(body@).take(lines(body@).len() as int) =~= lines(body@));
    join_strings(&out, "\n")
}

pub open spec fn docx_scene(s: ExportScene) -> Seq<char> {
    (if s.title@.len() > 0 {
        heading_xml("Heading2"@, s.title@)
    } else {
        Seq::empty()
    }) + body_xml(s.body@)
}

pub open spec fn docx_chapter(c: ExportChapter) -> Seq<char> {
    heading_xml("Heading1"@, c.title@) + match c.chapter_body {
        Some(b) => body_xml(b@),
        None => Seq::empty(),
    } + concat_map(c.scenes@, |s: ExportScene| docx_scene(s))
}

/// `document.xml`: the title (style `Title`), the author, then each chapter
/// (`Heading1`) with its own body and its scenes (`Heading2` when titled).
pub open spec fn document_xml_text(p: Project, cs: Seq<ExportChapter>) -> Seq<char> {
    DOCUMENT_HEAD@ + heading_xml("Title"@, p.title@) + (if author_of(p).len() > 0 {
        plain_xml(author_of(p))
    } else {
        Seq::empty()
    }) + concat_map(cs, |c: ExportChapter| docx_chapter(c)) + DOCUMENT_TAIL@
}

fn append_scene(out: &mut String, s: &ExportScene)
    ensures
        final(out)@ == old(out)@ + docx_scene(*s),
{
    let ghost start = out@;
    if !s.title.as_str().is_empty() {
        let h = heading_paragraph("Heading2", s.title.as_str());
        out.append(h.as_str());
    }
    let b = body_paragraphs(s.body.as_str());
    out.append(b.as_str());
    assert(out@ =~= start + docx_scene(*s));
}

fn append_chapter(out: &mut String, c: &ExportChapter)
    ensures
        final(out)@ == old(out)@ + docx_chapter(*c),
{
    let ghost start = out@;
    let h = heading_paragraph("Heading1", c.title.as_str());
    out.append(h.as_str());
    if let Some(body) = &c.chapter_body {
        let b = body_paragraphs(body.as_str());
        out.append(b.as_str());
    }
    let ghost head = out@;
    let ghost f = |s: ExportScene| docx_scene(s);
    let mut i: usize = 0;
    while i < c.scenes.len()
        invariant
            0 <= i <= c.scenes@.len(),
            out@ == head + concat_map(c.scenes@.take(i as int), f),
            f == (|s: ExportScene| docx_scene(s)),
        decreases c.scenes.len() - i,
    {
        proof {
            lemma_concat_map_step(c.scenes@, i as int, f);
        }
        append_scene(out, &c.scenes[i]);
        assert(out@ =~= head + concat_map(c.scenes@.take(i + 1), f));
        i += 1;
    }
    proof {
        lemma_take_all(c.scenes@);
    }
    assert(out@ =~= start + docx_chapter(*c));
}

/// The text of `word/document.xml`.
pub fn document_xml(project: &Project, chapters: &[ExportChapter]) -> (r: String)
    ensures
        r@ == document_xml_text(*project, chapters@),
{
    let mut out = String::from_str(DOCUMENT_HEAD);
    let h = heading_paragraph("Title", project.title.as_str());
    out.append(h.as_str());
    let author = author_text(project);
    if !author.as_str().is_empty() {
        let a = plain_paragraph(author.as_str());
        out.append(a.as_str());
    }
    let ghost head = out@;
    let ghost f = |c: ExportChapter| docx_chapter(c);
    let mut i: usize = 0;
    while i < chapters.len()
        invariant
            0 <= i <= chapters@.len(),
            out@ == head + concat_map(chapters@.take(i as int), f),
            f == (|c: ExportChapter| docx_chapter(c)),
        decreases chapters.len() - i,
    {
        proof {
            lemma_concat_map_step(chapters@, i as int, f);
        }
        append_chapter(&mut out, &chapters[i]);
        assert(out@ =~= head + concat_map(chapters@.take(i + 1), f));
        i += 1;
    }
    proof {
        lemma_take_all(chapters@);
    }
    out.append(DOCUMENT_TAIL);
    assert(out@ =~= document_xml_text(*project, chapters@));
    out
}

/// The members of the DOCX archive, in order.
pub open spec fn docx_members(p: Project, cs: Seq<ExportChapter>) -> Seq<(Seq<char>, Seq<u8>)> {
    seq![
        ("[Content_Types].xml"@, vstd::utf8::encode_utf8(CONTENT_TYPES_XML@)),
        ("_rels/.rels"@, vstd::utf8::encode_utf8(ROOT_RELS_XML@)),
        ("word/document.xml"@, vstd::utf8::encode_utf8(document_xml_text(p, cs))),
        ("word/_rels/document.xml.rels"@, vstd::utf8::encode_utf8(DOCUMENT_RELS_XML@)),
        ("word/styles.xml"@, vstd::utf8::encode_utf8(STYLES_XML@)),
    ]
}

/// The five member names are distinct and short, so the archive is
/// written whenever it fits the classic ZIP format.
proof fn lemma_docx_ready(p: Project, cs: Seq<ExportChapter>)
    requires
        fits_zip32(docx_members(p, cs)),
    ensures
        zip_ready(docx_members(p, cs)),
{
    reveal_strlit("[Content_Types].xml");
    reveal_strlit("_rels/.rels");
    reveal_strlit("word/document.xml");
    reveal_strlit("word/_rels/document.xml.rels");
    reveal_strlit("word/styles.xml");
    let ms = docx_members(p, cs);
    assert forall|i: int| 0 <= i < ms.len() implies name_bytes((#[trigger] ms[i]).0) <= MAX_NAME_BYTES by {
        lemma_name_bytes_bound(ms[i].0);
    }
    assert forall|i: int, j: int| 0 <= i < j < ms.len() implies (#[trigger] ms[i]).0 != (#[trigger] ms[j]).0 by {
        assert(ms[i].0.len() != ms[j].0.len());
    }
}

/// The DOCX export: the stored ZIP archive of `docx_members`, always
/// written when it fits the classic ZIP format (under 4 GiB).
pub fn build(project: &Project, chapters: &[ExportChapter]) -> (r: Result<Vec<u8>, AppError>)
    ensures
        r matches Ok(b) ==> b@ == stored_zip_bytes(docx_members(*project, chapters@)),
        r matches Err(e) ==> crate::export::container::is_zip_failure(e),
        fits_zip32(docx_members(*project, chapters@)) ==> r is Ok,
{
    proof {
        if fits_zip32(docx_members(*project, chapters@)) {
            lemma_docx_ready(*project, chapters@);
        }
    }
    let document = document_xml(project, chapters);
    let mut entries: Vec<(String, Vec<u8>)> = Vec::new();
    entries.push((String::from_str("[Content_Types].xml"), CONTENT_TYPES_XML.as_bytes_vec()));
    entries.push((String::from_str("_rels/.rels"), ROOT_RELS_XML.as_bytes_vec()));
    entries.push((String::from_str("word/document.xml"), document.as_str().as_bytes_vec()));
    entries.push((String::from_str("word/_rels/document.xml.rels"), DOCUMENT_RELS_XML.as_bytes_vec()));
    entries.push((String::from_str("word/styles.xml"), STYLES_XML.as_bytes_vec()));
    assert(member_views(entries@) =~= docx_members(*project, chapters@));
    build_zip(&entries)
}

/// The text is empty or ends a tag (`>`).
pub open spec fn ends_a_tag(x: Seq<char>) -> bool {
    x.len() == 0 || x.last() == '>'
}

proof fn lemma_heading2_facts(p: Seq<char>)
    requires
        p == "\"Heading2\""@,
    ensures
        p.len() == 10,
        p[7] == 'g' && p[8] == '2' && p[9] == '"',
        forall|k: int| 0 <= k < p.len() - 1 ==> #[trigger] p[k] != '>' && p[k] != '\n' && p[k] != '=',
        forall|k: int| 1 <= k < p.len() ==> #[trigger] p[k] != '<' && p[k] != '/' && p[k] != '\n',
{
    reveal_strlit("\"Heading2\"");
}

/// Gluing after a text that ends a tag never completes `"Heading2"`
/// across the seam, and the whole still ends a tag when both parts do.
proof fn lemma_after_tag(a: Seq<char>, b: Seq<char>, p: Seq<char>)
    requires
        p == "\"Heading2\""@,
        ends_a_tag(a),
    ensures
        p.len() > 0,
        joins_cleanly(a, b, p),
        ends_a_tag(b) ==> ends_a_tag(a + b),
{
    lemma_heading2_facts(p);
    lemma_clean_after(a, b, p);
    if b.len() == 0 {
        assert(a + b =~= a);
    }
}

proof fn lemma_escaped_no_heading2(text: Seq<char>, p: Seq<char>)
    requires
        p == "\"Heading2\""@,
    ensures
        occurrences(escaped(Markup::Wordml, text), p) == 0,
{
    lemma_heading2_facts(p);
    law_escaped_text_is_inert(Markup::Wordml, text);
    let e = escaped(Markup::Wordml, text);
    let t = p.subrange(7, 10);
    assert forall|i: int| 0 <= i < e.len() - 2 implies !#[trigger] triple_at(e, t, i) by {
        assert(!is_markup_char(e[i + 2]));
    }
    lemma_window_count(e, t, p, 7);
}

proof fn lemma_literal_no_heading2(x: Seq<char>, p: Seq<char>)
    requires
        p == "\"Heading2\""@,
        forall|i: int| 0 <= i < x.len() - 2 ==> !(#[trigger] x[i] == 'g' && x[i + 1] == '2' && x[i + 2] == '"'),
    ensures
        occurrences(x, p) == 0,
{
    lemma_heading2_facts(p);
    let t = p.subrange(7, 10);
    assert forall|i: int| 0 <= i < x.len() - 2 implies !#[trigger] triple_at(x, t, i) by {
        assert(!(x[i] == 'g' && x[i + 1] == '2' && x[i + 2] == '"'));
    }
    lemma_window_count(x, t, p, 7);
}

/// A paragraph of style `Title`, `Heading1` or `Heading2` holds
/// `"Heading2"` once when its style is `Heading2`, else never.
#[verifier::spinoff_prover]
proof fn lemma_heading_count(style: Seq<char>, text: Seq<char>, p: Seq<char>)
    requires
        p == "\"Heading2\""@,
        style == "Title"@ || style == "Heading1"@ || style == "Heading2"@,
    ensures
        occurrences(heading_xml(style, text), p) == (if style == "Heading2"@ { 1nat } else { 0nat }),
        heading_xml(style, text).len() > 0,
        ends_a_tag(heading_xml(style, text)),
{
    lemma_heading2_facts(p);
    reveal_strlit("<w:p><w:pPr><w:pStyle w:val=\"");
    reveal_strlit("\"/></w:pPr><w:r><w:t xml:space=\"preserve\">");
    reveal_strlit("</w:t></w:r></w:p>");
    reveal_strlit("<w:p><w:pPr><w:pStyle w:val=");
    reveal_strlit("/></w:pPr><w:r><w:t xml:space=\"preserve\">");
    reveal_strlit("\"");
    reveal_strlit("\"Heading2\"");
    reveal_strlit("Title");
    reveal_strlit("Heading1");
    reveal_strlit("Heading2");
    let a = "<w:p><w:pPr><w:pStyle w:val="@;
    let b = "/></w:pPr><w:r><w:t xml:space=\"preserve\">"@;
    let close = "</w:t></w:r></w:p>"@;
    let m = "\""@ + style + "\""@;
    let e = escaped(Markup::Wordml, text);
    assert("<w:p><w:pPr><w:pStyle w:val=\""@ =~= a + "\""@);
    assert("\"/></w:pPr><w:r><w:t xml:space=\"preserve\">"@ =~= "\""@ + b);
    assert(heading_xml(style, text) =~= a + m + b + e + close);
    lemma_literal_no_heading2(a, p);
    lemma_literal_no_heading2(b, p);
    lemma_literal_no_heading2(close, p);
    lemma_escaped_no_heading2(text, p);
    if style == "Heading2"@ {
        assert(m =~= p);
        lemma_occurrences_self(p);
    } else {
        lemma_literal_no_heading2(m, p);
    }
    lemma_clean_after(a, m, p);
    lemma_occurrences_concat(a, m, p);
    lemma_clean_before(a + m, b, p);
    lemma_occurrences_concat(a + m, b, p);
    lemma_clean_after(a + m + b, e, p);
    lemma_occurrences_concat(a + m + b, e, p);
    lemma_clean_before(a + m + b + e, close, p);
    lemma_occurrences_concat(a + m + b + e, close, p);
}

proof fn lemma_plain_count(text: Seq<char>, p: Seq<char>)
    requires
        p == "\"Heading2\""@,
    ensures
        occurrences(plain_xml(text), p) == 0,
        plain_xml(text).len() > 0,
        plain_xml(text).last() == '>',
{
    lemma_heading2_facts(p);
    reveal_strlit("<w:p><w:r><w:t xml:space=\"preserve\">");
    reveal_strlit("</w:t></w:r></w:p>");
    let open = "<w:p><w:r><w:t xml:space=\"preserve\">"@;
    let close = "</w:t></w:r></w:p>"@;
    let e = escaped(Markup::Wordml, text);
    lemma_literal_no_heading2(open, p);
    lemma_literal_no_heading2(close, p);
    lemma_escaped_no_heading2(text, p);
    lemma_clean_after(open, e, p);
    lemma_occurrences_concat(open, e, p);
    lemma_clean_before(open + e, close, p);
    lemma_occurrences_concat(open + e, close, p);
}

proof fn lemma_join_plain_count(parts: Seq<Seq<char>>, p: Seq<char>)
    requires
        p == "\"Heading2\""@,
        forall|i: int|
            0 <= i < parts.len() ==> occurrences(#[trigger] parts[i], p) == 0 && parts[i].len() > 0 && parts[i].last()
                == '>',
    ensures
        occurrences(join(parts, "\n"@), p) == 0,
        ends_a_tag(join(parts, "\n"@)),
    decreases parts.len(),
{
    reveal_strlit("\n");
    lemma_heading2_facts(p);
    if parts.len() == 0 {
    } else if parts.len() == 1 {
        assert(occurrences(parts[0], p) == 0);
    } else {
        let rest = parts.drop_last();
        assert forall|i: int| 0 <= i < rest.len() implies occurrences(#[trigger] rest[i], p) == 0 && rest[i].len() > 0
            && rest[i].last() == '>' by {
            assert(rest[i] == parts[i]);
        }
        lemma_join_plain_count(rest, p);
        assert(occurrences(parts.last(), p) == 0);
        let j = join(rest, "\n"@);
        lemma_occurrences_short("\n"@, p);
        lemma_clean_before(j, "\n"@, p);
        lemma_occurrences_concat(j, "\n"@, p);
        lemma_clean_after(j + "\n"@, parts.last(), p);
        lemma_occurrences_concat(j + "\n"@, parts.last(), p);
    }
}

proof fn lemma_body_count(b: Seq<char>, p: Seq<char>)
    requires
        p == "\"Heading2\""@,
    ensures
        occurrences(body_xml(b), p) == 0,
        ends_a_tag(body_xml(b)),
{
    let parts = lines(b).map_values(|l: Seq<char>| plain_xml(l));
    assert forall|i: int| 0 <= i < parts.len() implies occurrences(#[trigger] parts[i], p) == 0 && parts[i].len() > 0
        && parts[i].last() == '>' by {
        lemma_plain_count(lines(b)[i], p);
    }
    lemma_join_plain_count(parts, p);
}

proof fn lemma_scene_count(s: ExportScene, p: Seq<char>)
    requires
        p == "\"Heading2\""@,
    ensures
        occurrences(docx_scene(s), p) == (if s.title@.len() > 0 { 1nat } else { 0nat }),
        ends_a_tag(docx_scene(s)),
{
    reveal_strlit("Heading2");
    let head = if s.title@.len() > 0 {
        heading_xml("Heading2"@, s.title@)
    } else {
        Seq::empty()
    };
    if s.title@.len() > 0 {
        lemma_heading_count("Heading2"@, s.title@, p);
    }
    lemma_body_count(s.body@, p);
    lemma_after_tag(head, body_xml(s.body@), p);
    lemma_occurrences_concat(head, body_xml(s.body@), p);
}

proof fn lemma_scenes_count(ss: Seq<ExportScene>, p: Seq<char>)
    requires
        p == "\"Heading2\""@,
    ensures
        occurrences(concat_map(ss, |s: ExportScene| docx_scene(s)), p) == titled(ss),
        ends_a_tag(concat_map(ss, |s: ExportScene| docx_scene(s))),
    decreases ss.len(),
{
    if ss.len() > 0 {
        let f = |s: ExportScene| docx_scene(s);
        lemma_scenes_count(ss.drop_last(), p);
        lemma_scene_count(ss.last(), p);
        let prev = concat_map(ss.drop_last(), f);
        lemma_after_tag(prev, docx_scene(ss.last()), p);
        lemma_occurrences_concat(prev, docx_scene(ss.last()), p);
        assert(concat_map(ss, f) == prev + docx_scene(ss.last()));
    }
}

#[verifier::spinoff_prover]
proof fn lemma_chapter_count(c: ExportChapter, p: Seq<char>)
    requires
        p == "\"Heading2\""@,
    ensures
        occurrences(docx_chapter(c), p) == titled(c.scenes@),
        ends_a_tag(docx_chapter(c)),
{
    reveal_strlit("Heading1");
    reveal_strlit("Heading2");
    let head = heading_xml("Heading1"@, c.title@);
    assert("Heading1"@[7] != "Heading2"@[7]);
    lemma_heading_count("Heading1"@, c.title@, p);
    let own = match c.chapter_body {
        Some(b) => body_xml(b@),
        None => Seq::empty(),
    };
    if let Some(b) = c.chapter_body {
        lemma_body_count(b@, p);
    }
    lemma_after_tag(head, own, p);
    lemma_occurrences_concat(head, own, p);
    let sc = concat_map(c.scenes@, |s: ExportScene| docx_scene(s));
    lemma_scenes_count(c.scenes@, p);
    lemma_after_tag(head + own, sc, p);
    lemma_occurrences_concat(head + own, sc, p);
    assert(docx_chapter(c) == head + own + sc);
}

proof fn lemma_chapters_count(cs: Seq<ExportChapter>, p: Seq<char>)
    requires
        p == "\"Heading2\""@,
    ensures
        occurrences(concat_map(cs, |c: ExportChapter| docx_chapter(c)), p) == titled_scenes(cs),
        ends_a_tag(concat_map(cs, |c: ExportChapter| docx_chapter(c))),
    decreases cs.len(),
{
    if cs.len() > 0 {
        let f = |c: ExportChapter| docx_chapter(c);
        lemma_chapters_count(cs.drop_last(), p);
        lemma_chapter_count(cs.last(), p);
        let prev = concat_map(cs.drop_last(), f);
        lemma_after_tag(prev, docx_chapter(cs.last()), p);
        lemma_occurrences_concat(prev, docx_chapter(cs.last()), p);
        assert(concat_map(cs, f) == prev + docx_chapter(cs.last()));
    }
}

/// The DOCX document holds exactly one `Heading2` paragraph (its style
/// `"Heading2"`) per scene with a title, over all the chapters: no titled
/// scene loses its heading and no other paragraph takes that style.
#[verifier::spinoff_prover]
pub proof fn law_docx_scene_headings(project: Project, chapters: Seq<ExportChapter>)
    ensures
        occurrences(document_xml_text(project, chapters), "\"Heading2\""@) == titled_scenes(chapters),
{
    let p = "\"Heading2\""@;
    lemma_heading2_facts(p);
    reveal_strlit("<?xml version=\"1.0\" encoding=\"UTF-8\" standalone=\"yes\"?>\n<w:document xmlns:w=\"http://schemas.openxmlformats.org/wordprocessingml/2006/main\">\n<w:body>\n");
    reveal_strlit("\n<w:sectPr><w:pgSz w:w=\"11906\" w:h=\"16838\"/><w:pgMar w:top=\"1417\" w:right=\"1417\" w:bottom=\"1417\" w:left=\"1417\"/></w:sectPr>\n</w:body>\n</w:document>");
    reveal_strlit("Title");
    reveal_strlit("Heading2");
    let head = DOCUMENT_HEAD@;
    let tail = DOCUMENT_TAIL@;
    lemma_literal_no_heading2(head, p);
    lemma_literal_no_heading2(tail, p);
    let title = heading_xml("Title"@, project.title@);
    lemma_heading_count("Title"@, project.title@, p);
    let author = if author_of(project).len() > 0 {
        plain_xml(author_of(project))
    } else {
        Seq::empty()
    };
    if author_of(project).len() > 0 {
        lemma_plain_count(author_of(project), p);
    }
    let chs = concat_map(chapters, |c: ExportChapter| docx_chapter(c));
    lemma_chapters_count(chapters, p);
    lemma_clean_after(head, title, p);
    lemma_occurrences_concat(head, title, p);
    lemma_after_tag(head + title, author, p);
    lemma_occurrences_concat(head + title, author, p);
    lemma_after_tag(head + title + author, chs, p);
    lemma_occurrences_concat(head + title + author, chs, p);
    lemma_clean_before(head + title + author + chs, tail, p);
    lemma_occurrences_concat(head + title + author + chs, tail, p);
}

/// The DOCX document holds every scene: its title as a `Heading2`
/// paragraph when it has one, followed right away by its body's
/// paragraphs.
pub proof fn law_docx_keeps_every_scene(project: Project, chapters: Seq<ExportChapter>, i: int, j: int)
    requires
        0 <= i < chapters.len(),
        0 <= j < chapters[i].scenes@.len(),
    ensures
        has_infix(
            document_xml_text(project, chapters),
            (if chapters[i].scenes@[j].title@.len() > 0 {
                "<w:p><w:pPr><w:pStyle w:val=\"Heading2\"/></w:pPr><w:r><w:t xml:space=\"preserve\">"@ + escaped(
                    Markup::Wordml,
                    chapters[i].scenes@[j].title@,
                ) + "</w:t></w:r></w:p>"@
            } else {
                Seq::empty()
            }) + body_xml(chapters[i].scenes@[j].body@),
        ),
{
    let c = chapters[i];
    let sc = c.scenes@[j];
    reveal_strlit("<w:p><w:pPr><w:pStyle w:val=\"");
    reveal_strlit("\"/></w:pPr><w:r><w:t xml:space=\"preserve\">");
    reveal_strlit("<w:p><w:pPr><w:pStyle w:val=\"Heading2\"/></w:pPr><w:r><w:t xml:space=\"preserve\">");
    reveal_strlit("Heading2");
    let opening = "<w:p><w:pPr><w:pStyle w:val=\"Heading2\"/></w:pPr><w:r><w:t xml:space=\"preserve\">"@;
    assert(opening =~= "<w:p><w:pPr><w:pStyle w:val=\""@ + "Heading2"@ + "\"/></w:pPr><w:r><w:t xml:space=\"preserve\">"@);
    let x = (if sc.title@.len() > 0 {
        opening + escaped(Markup::Wordml, sc.title@) + "</w:t></w:r></w:p>"@
    } else {
        Seq::empty()
    }) + body_xml(sc.body@);
    assert(docx_scene(sc) =~= x);
    lemma_infix_self(x);
    lemma_infix_concat_map(c.scenes@, |s: ExportScene| docx_scene(s), j, x);
    let head = heading_xml("Heading1"@, c.title@) + match c.chapter_body {
        Some(b) => body_xml(b@),
        None => Seq::empty(),
    };
    lemma_infix_right(head, concat_map(c.scenes@, |s: ExportScene| docx_scene(s)), x);
    assert(docx_chapter(c) == head + concat_map(c.scenes@, |s: ExportScene| docx_scene(s)));
    lemma_infix_concat_map(chapters, |c: ExportChapter| docx_chapter(c), i, x);
    let front = DOCUMENT_HEAD@ + heading_xml("Title"@, project.title@) + (if author_of(project).len() > 0 {
        plain_xml(author_of(project))
    } else {
        Seq::empty()
    });
    let chs = concat_map(chapters, |c: ExportChapter| docx_chapter(c));
    lemma_infix_right(front, chs, x);
    lemma_infix_left(front + chs, DOCUMENT_TAIL@, x);
}

/// The DOCX document holds every chapter: its title as a `Heading1`
/// paragraph, followed right away by its own body's paragraphs when it
/// has one.
pub proof fn law_docx_keeps_every_chapter(project: Project, chapters: Seq<ExportChapter>, i: int)
    requires
        0 <= i < chapters.len(),
    ensures
        has_infix(
            document_xml_text(project, chapters),
            "<w:p><w:pPr><w:pStyle w:val=\"Heading1\"/></w:pPr><w:r><w:t xml:space=\"preserve\">"@ + escaped(
                Markup::Wordml,
                chapters[i].title@,
            ) + "</w:t></w:r></w:p>"@ + match chapters[i].chapter_body {
                Some(b) => body_xml(b@),
                None => Seq::empty(),
            },
        ),
{
    let c = chapters[i];
    reveal_strlit("<w:p><w:pPr><w:pStyle w:val=\"");
    reveal_strlit("\"/></w:pPr><w:r><w:t xml:space=\"preserve\">");
    reveal_strlit("<w:p><w:pPr><w:pStyle w:val=\"Heading1\"/></w:pPr><w:r><w:t xml:space=\"preserve\">");
    reveal_strlit("Heading1");
    let opening = "<w:p><w:pPr><w:pStyle w:val=\"Heading1\"/></w:pPr><w:r><w:t xml:space=\"preserve\">"@;
    assert(opening =~= "<w:p><w:pPr><w:pStyle w:val=\""@ + "Heading1"@ + "\"/></w:pPr><w:r><w:t xml:space=\"preserve\">"@);
    let x = opening + escaped(Markup::Wordml, c.title@) + "</w:t></w:r></w:p>"@ + match c.chapter_body {
        Some(b) => body_xml(b@),
        None => Seq::empty(),
    };
    let sc = concat_map(c.scenes@, |s: ExportScene| docx_scene(s));
    assert(docx_chapter(c) =~= x + sc);
    lemma_infix_self(x);
    lemma_infix_left(x, sc, x);
    lemma_infix_concat_map(chapters, |c: ExportChapter| docx_chapter(c), i, x);
    let front = DOCUMENT_HEAD@ + heading_xml("Title"@, project.title@) + (if author_of(project).len() > 0 {
        plain_xml(author_of(project))
    } else {
        Seq::empty()
    });
    let chs = concat_map(chapters, |c: ExportChapter| docx_chapter(c));
    lemma_infix_right(front, chs, x);
    lemma_infix_left(front + chs, DOCUMENT_TAIL@, x);
}

} // verus!
