//! EPUB 3 export: one XHTML file per chapter (scenes as `<section>`s), a
//! navigation document, a package document and a style sheet, in a ZIP
//! container. Fonts are left to the reader application.
use vstd::prelude::*;
use super::container::{
    build_zip, fits_zip32, lemma_name_bytes_bound, member_views, name_bytes, stored_zip_bytes, zip_ready, MAX_NAME_BYTES,
};
use super::escape::{body_paragraphs, escape, escaped, render_body, Markup};
use super::{author_of, author_text, ExportChapter, ExportScene};
use crate::error::AppError;
use crate::models::Project;
use crate::text::{
    append_decimal, concat_map, decimal, digits_value, has_infix, lemma_concat_map_step, lemma_decimal_digits,
    lemma_decimal_len, lemma_infix_concat_map, lemma_infix_left, lemma_infix_right, lemma_infix_self, lemma_take_all,
    pow10,
};

verus! {

/// A chapter file up to its title.
pub const CHAPTER_HEAD: &'static str = "<?xml version=\"1.0\" encoding=\"UTF-8\"?>\n<!DOCTYPE html>\n<html xmlns=\"http://www.w3.org/1999/xhtml\" xml:lang=\"ja\">\n<head><meta charset=\"UTF-8\"/><title>";

/// A chapter file from after its title up to its content.
pub const CHAPTER_BODY: &'static str = "</title><link rel=\"stylesheet\" type=\"text/css\" href=\"style.css\"/></head>\n<body>\n";

/// A chapter file after its content.
pub const CHAPTER_TAIL: &'static str = "\n</body>\n</html>";

/// `content.opf` up to the book identifier.
pub const OPF_HEAD: &'static str = "<?xml version=\"1.0\" encoding=\"UTF-8\"?>\n<package xmlns=\"http://www.idpf.org/2007/opf\" version=\"3.0\" unique-identifier=\"bookid\" xml:lang=\"ja\">\n<metadata xmlns:dc=\"http://purl.org/dc/elements/1.1/\">\n<dc:identifier id=\"bookid\">";

/// `content.opf` between the identifier and the title.
pub const OPF_TITLE: &'static str = "</dc:identifier>\n<dc:title>";

/// `content.opf` between the title and the author.
pub const OPF_CREATOR: &'static str = "</dc:title>\n<dc:language>ja</dc:language>\n<dc:creator>";

/// `content.opf` between the author and the chapter items of the manifest.
pub const OPF_MANIFEST: &'static str = "</dc:creator>\n</metadata>\n<manifest>\n<item id=\"nav\" href=\"nav.xhtml\" media-type=\"application/xhtml+xml\" properties=\"nav\"/>\n<item id=\"css\" href=\"style.css\" media-type=\"text/css\"/>\n";

/// `content.opf` between the manifest and the spine items.
pub const OPF_SPINE: &'static str = "\n</manifest>\n<spine>\n";

/// `content.opf` after the spine items.
pub const OPF_TAIL: &'static str = "\n</spine>\n</package>";

/// `nav.xhtml` up to the table of contents entries.
pub const NAV_HEAD: &'static str = "<?xml version=\"1.0\" encoding=\"UTF-8\"?>\n<!DOCTYPE html>\n<html xmlns=\"http://www.w3.org/1999/xhtml\" xmlns:epub=\"http://www.idpf.org/2007/ops\" xml:lang=\"ja\">\n<head><meta charset=\"UTF-8\"/><title>目次</title></head>\n<body>\n<nav epub:type=\"toc\" id=\"toc\"><h1>目次</h1><ol>\n";

/// `nav.xhtml` after the entries.
pub const NAV_TAIL: &'static str = "\n</ol></nav>\n</body>\n</html>";

/// `META-INF/container.xml`.
pub const CONTAINER_XML: &'static str = "<?xml version=\"1.0\" encoding=\"UTF-8\"?>\n<container version=\"1.0\" xmlns=\"urn:oasis:names:tc:opendocument:xmlns:container\">\n<rootfiles>\n<rootfile full-path=\"OEBPS/content.opf\" media-type=\"application/oebps-package+xml\"/>\n</rootfiles>\n</container>";

/// `OEBPS/style.css`.
pub const STYLE_CSS: &'static str = "body { font-family: serif; line-height: 1.9; margin: 1em; }\nh1 { font-size: 1.6em; border-bottom: 1px solid #999; padding-bottom: 0.3em; }\nh2 { font-size: 1.2em; color: #444; }\np { margin: 0 0 1em; text-indent: 1em; }";

/// `escape_xml` of the EPUB export (`& < > "`).
pub fn escape_xml(s: &str) -> (r: String)
    ensures
        r@ == escaped(Markup::Xhtml, s@),
{
    escape(s, Markup::Xhtml)
}

/// `body_to_xhtml`.
pub fn body_to_xhtml(body: &str) -> (r: String)
    ensures
        r@ == body_paragraphs(Markup::XhtmlBreaks, body@),
{
    render_body(body, Markup::XhtmlBreaks)
}

pub open spec fn xhtml_scene(s: ExportScene) -> Seq<char> {
    "<section>\n"@ + (if s.title@.len() > 0 {
        "<h2>"@ + escaped(Markup::Xhtml, s.title@) + "</h2>\n"@
    } else {
        Seq::empty()
    }) + body_paragraphs(Markup::XhtmlBreaks, s.body@) + "\n</section>\n"@
}

/// The content of a chapter file: the title as `<h1>`, the chapter's own
/// body, then each scene as a `<section>`.
pub open spec fn xhtml_content(title: Seq<char>, c: ExportChapter) -> Seq<char> {
    "<h1>"@ + escaped(Markup::Xhtml, title) + "</h1>\n"@ + match c.chapter_body {
        Some(b) => body_paragraphs(Markup::XhtmlBreaks, b@) + "\n"@,
        None => Seq::empty(),
    } + concat_map(c.scenes@, |s: ExportScene| xhtml_scene(s))
}

pub open spec fn chapter_xhtml_text(title: Seq<char>, c: ExportChapter) -> Seq<char> {
    CHAPTER_HEAD@ + escaped(Markup::Xhtml, title) + CHAPTER_BODY@ + xhtml_content(title, c)
        + CHAPTER_TAIL@
}

fn append_scene(out: &mut String, s: &ExportScene)
    ensures
        final(out)@ == old(out)@ + xhtml_scene(*s),
{
    let ghost start = out@;
    out.append("<section>\n");
    if !s.title.as_str().is_empty() {
        out.append("<h2>");
        let t = escape_xml(s.title.as_str());
        out.append(t.as_str());
        out.append("</h2>\n");
    }
    let b = body_to_xhtml(s.body.as_str());
    out.append(b.as_str());
    out.append("\n</section>\n");
    assert(out@ =~= start + xhtml_scene(*s));
}

/// The XHTML file of a chapter.
pub fn chapter_xhtml(title: &str, chapter: &ExportChapter) -> (r: String)
    ensures
        r@ == chapter_xhtml_text(title@, *chapter),
{
    let t = escape_xml(title);
    let mut content = String::from_str("<h1>");
    content.append(t.as_str());
    content.append("</h1>\n");
    if let Some(body) = &chapter.chapter_body {
        let b = body_to_xhtml(body.as_str());
        content.append(b.as_str());
        content.append("\n");
    }
    let ghost head = content@;
    let ghost f = |s: ExportScene| xhtml_scene(s);
    let mut i: usize = 0;
    while i < chapter.scenes.len()
        invariant
            0 <= i <= chapter.scenes@.len(),
            content@ == head + concat_map(chapter.scenes@.take(i as int), f),
            f == (|s: ExportScene| xhtml_scene(s)),
        decreases chapter.scenes.len() - i,
    {
        proof {
            lemma_concat_map_step(chapter.scenes@, i as int, f);
        }
        append_scene(&mut content, &chapter.scenes[i]);
        assert(content@ =~= head + concat_map(chapter.scenes@.take(i + 1), f));
        i += 1;
    }
    proof {
        lemma_take_all(chapter.scenes@);
    }
    assert(content@ =~= xhtml_content(title@, *chapter));
    let mut out = String::from_str(CHAPTER_HEAD);
    out.append(t.as_str());
    out.append(CHAPTER_BODY);
    out.append(content.as_str());
    out.append(CHAPTER_TAIL);
    out
}

/// The file name of the `n`-th chapter (from 1).
pub open spec fn chapter_file(n: nat) -> Seq<char> {
    "chapter-"@ + decimal(n) + ".xhtml"@
}

/// The id of the `n`-th chapter (from 1).
pub open spec fn chapter_id(n: nat) -> Seq<char> {
    "ch"@ + decimal(n)
}

pub open spec fn manifest_item(n: nat) -> Seq<char> {
    "<item id=\""@ + chapter_id(n) + "\" href=\""@ + chapter_file(n)
        + "\" media-type=\"application/xhtml+xml\"/>"@
}

pub open spec fn spine_item(n: nat) -> Seq<char> {
    "<itemref idref=\""@ + chapter_id(n) + "\"/>"@
}

pub open spec fn nav_item(n: nat, title: Seq<char>) -> Seq<char> {
    "<li><a href=\""@ + chapter_file(n) + "\">"@ + escaped(Markup::Xhtml, title) + "</a></li>"@
}

/// Manifest items, spine items and table-of-contents entries of the
/// chapters, chapter `k` (from 1) named `chapter-k.xhtml` with id `chk`.
pub open spec fn chapter_lists(cs: Seq<ExportChapter>) -> (Seq<char>, Seq<char>, Seq<char>)
    decreases cs.len(),
{
    if cs.len() == 0 {
        (Seq::empty(), Seq::empty(), Seq::empty())
    } else {
        let (m, s, n) = chapter_lists(cs.drop_last());
        let k = cs.len();
        (m + manifest_item(k), s + spine_item(k), n + nav_item(k, cs.last().title@))
    }
}

/// The chapter members of the archive: `OEBPS/chapter-k.xhtml` for the
/// `k`-th chapter (from 1).
pub open spec fn chapter_members(cs: Seq<ExportChapter>) -> Seq<(Seq<char>, Seq<u8>)>
    decreases cs.len(),
{
    if cs.len() == 0 {
        Seq::empty()
    } else {
        chapter_members(cs.drop_last()).push(
            (
                "OEBPS/"@ + chapter_file(cs.len()),
                vstd::utf8::encode_utf8(chapter_xhtml_text(cs.last().title@, cs.last())),
            ),
        )
    }
}

pub open spec fn content_opf_text(p: Project, cs: Seq<ExportChapter>, book_id: Seq<char>) -> Seq<
    char,
> {
    OPF_HEAD@ + book_id + OPF_TITLE@ + escaped(Markup::Xhtml, p.title@) + OPF_CREATOR@ + escaped(
        Markup::Xhtml,
        author_of(p),
    ) + OPF_MANIFEST@ + chapter_lists(cs).0 + OPF_SPINE@ + chapter_lists(cs).1 + OPF_TAIL@
}

pub open spec fn nav_text(cs: Seq<ExportChapter>) -> Seq<char> {
    NAV_HEAD@ + chapter_lists(cs).2 + NAV_TAIL@
}

/// The members of the EPUB archive, in order: `mimetype`, the container,
/// the package document, the navigation document, the style sheet, then the
/// chapters.
pub open spec fn epub_members(p: Project, cs: Seq<ExportChapter>, book_id: Seq<char>) -> Seq<
    (Seq<char>, Seq<u8>),
> {
    seq![
        ("mimetype"@, vstd::utf8::encode_utf8("application/epub+zip"@)),
        ("META-INF/container.xml"@, vstd::utf8::encode_utf8(CONTAINER_XML@)),
        ("OEBPS/content.opf"@, vstd::utf8::encode_utf8(content_opf_text(p, cs, book_id))),
        ("OEBPS/nav.xhtml"@, vstd::utf8::encode_utf8(nav_text(cs))),
        ("OEBPS/style.css"@, vstd::utf8::encode_utf8(STYLE_CSS@)),
    ] + chapter_members(cs)
}

/// `getrandom::fill` on 16 bytes: bytes from the system's random source,
/// or nothing when that source fails. Which bytes come is chance, so
/// nothing is said of them.
#[verifier::external_body]
fn random_bytes() -> (r: Option<[u8; 16]>) {
    let mut bytes = [0u8; 16];
    match getrandom::fill(&mut bytes) {
        Ok(()) => Some(bytes),
        Err(_) => None,
    }
}

/// The hyphenated lowercase text of the version-4 UUID made from 16
/// random bytes.
pub uninterp spec fn uuid_v4_text_of(bytes: Seq<u8>) -> Seq<char>;

/// `uuid::Builder::from_random_bytes`, then the UUID's `Display`: the
/// bytes with the version (4) and variant (RFC 4122) bits set, written as
/// 8-4-4-4-12 lowercase hexadecimal digits.
#[verifier::external_body]
fn uuid_v4_text(bytes: [u8; 16]) -> (r: String)
    ensures
        r@ == uuid_v4_text_of(bytes@),
        is_v4_uuid_text(r@),
{
    uuid::Builder::from_random_bytes(bytes).into_uuid().to_string()
}

pub open spec fn is_lower_hex(c: char) -> bool {
    ('0' <= c && c <= '9') || ('a' <= c && c <= 'f')
}

/// `s` is a version-4 UUID written as 8-4-4-4-12 lowercase hexadecimal
/// digits: the version digit is `4`, the variant digit one of `89ab`.
pub open spec fn is_v4_uuid_text(s: Seq<char>) -> bool {
    &&& s.len() == 36
    &&& forall|i: int|
        0 <= i < 36 ==> if i == 8 || i == 13 || i == 18 || i == 23 {
            s[i] == '-'
        } else {
            is_lower_hex(#[trigger] s[i])
        }
    &&& s[14] == '4'
    &&& (s[19] == '8' || s[19] == '9' || s[19] == 'a' || s[19] == 'b')
}

proof fn lemma_chapter_members(cs: Seq<ExportChapter>)
    ensures
        chapter_members(cs).len() == cs.len(),
        forall|k: int| 0 <= k < cs.len() ==> (#[trigger] chapter_members(cs)[k]).0 == "OEBPS/"@ + chapter_file(
            (k + 1) as nat,
        ),
    decreases cs.len(),
{
    if cs.len() > 0 {
        lemma_chapter_members(cs.drop_last());
        assert forall|k: int| 0 <= k < cs.len() implies (#[trigger] chapter_members(cs)[k]).0 == "OEBPS/"@
            + chapter_file((k + 1) as nat) by {
            if k < cs.len() - 1 {
                assert(chapter_members(cs)[k] == chapter_members(cs.drop_last())[k]);
            }
        }
    }
}

/// The name of the `n`-th chapter's member, and what it tells.
proof fn lemma_chapter_name(n: nat)
    requires
        1 <= n < 100000,
    ensures
        ("OEBPS/"@ + chapter_file(n)).len() <= 25,
        ("OEBPS/"@ + chapter_file(n))[0] == 'O',
        ("OEBPS/"@ + chapter_file(n))[6] == 'c',
        ("OEBPS/"@ + chapter_file(n))[7] == 'h',
        ("OEBPS/"@ + chapter_file(n)).subrange(14, ("OEBPS/"@ + chapter_file(n)).len() - 6) == decimal(n),
{
    reveal_strlit("OEBPS/");
    reveal_strlit("chapter-");
    reveal_strlit(".xhtml");
    assert(pow10(5) == 100000) by {
        assert(pow10(0) == 1);
        assert(pow10(1) == 10);
        assert(pow10(2) == 100);
        assert(pow10(3) == 1000);
        assert(pow10(4) == 10000);
    }
    lemma_decimal_len(n, 5);
    let name = "OEBPS/"@ + chapter_file(n);
    assert(name =~= "OEBPS/chapter-"@ + decimal(n) + ".xhtml"@) by {
        reveal_strlit("OEBPS/chapter-");
    }
    reveal_strlit("OEBPS/chapter-");
    assert(name.subrange(14, name.len() - 6) =~= decimal(n));
}

/// The member names are distinct and short, so the archive is written
/// whenever it fits the classic ZIP format.
proof fn lemma_epub_ready(p: Project, cs: Seq<ExportChapter>, book_id: Seq<char>)
    requires
        fits_zip32(epub_members(p, cs, book_id)),
    ensures
        zip_ready(epub_members(p, cs, book_id)),
{
    reveal_strlit("mimetype");
    reveal_strlit("META-INF/container.xml");
    reveal_strlit("OEBPS/content.opf");
    reveal_strlit("OEBPS/nav.xhtml");
    reveal_strlit("OEBPS/style.css");
    let ms = epub_members(p, cs, book_id);
    lemma_chapter_members(cs);
    assert(ms.len() == 5 + cs.len());
    assert forall|i: int| 5 <= i < ms.len() implies (#[trigger] ms[i]).0 == "OEBPS/"@ + chapter_file((i - 4) as nat)
        && 1 <= i - 4 < 100000 by {
        assert(ms[i] == chapter_members(cs)[i - 5]);
    }
    assert forall|i: int| 0 <= i < ms.len() implies name_bytes((#[trigger] ms[i]).0) <= MAX_NAME_BYTES by {
        lemma_name_bytes_bound(ms[i].0);
        if i >= 5 {
            lemma_chapter_name((i - 4) as nat);
        }
    }
    assert forall|i: int, j: int| 0 <= i < j < ms.len() implies (#[trigger] ms[i]).0 != (#[trigger] ms[j]).0 by {
        if j >= 5 {
            lemma_chapter_name((j - 4) as nat);
            if i >= 5 {
                lemma_chapter_name((i - 4) as nat);
                if ms[i].0 == ms[j].0 {
                    lemma_decimal_digits((i - 4) as nat);
                    lemma_decimal_digits((j - 4) as nat);
                }
            } else if i == 0 {
                assert(ms[i].0[0] != ms[j].0[0]);
            } else if i == 1 {
                assert(ms[i].0[0] != ms[j].0[0]);
            } else if i == 2 {
                assert(ms[i].0[7] != ms[j].0[7]);
            } else {
                assert(ms[i].0[6] != ms[j].0[6]);
            }
        } else if i == 3 && j == 4 {
            assert(ms[i].0[6] != ms[j].0[6]);
        } else {
            assert(ms[i].0.len() != ms[j].0.len());
        }
    }
}

/// The EPUB export with the given book identifier.
pub fn build_with_id(project: &Project, chapters: &[ExportChapter], book_id: &str) -> (r: Result<
    Vec<u8>,
    AppError,
>)
    ensures
        r matches Ok(b) ==> b@ == stored_zip_bytes(epub_members(*project, chapters@, book_id@)),
        r matches Err(e) ==> crate::export::container::is_zip_failure(e),
        fits_zip32(epub_members(*project, chapters@, book_id@)) ==> r is Ok,
{
    proof {
        if fits_zip32(epub_members(*project, chapters@, book_id@)) {
            lemma_epub_ready(*project, chapters@, book_id@);
        }
    }
    let mut manifest_items = String::new();
    let mut spine_items = String::new();
    let mut nav_items = String::new();
    let mut chapter_files: Vec<(String, Vec<u8>)> = Vec::new();
    let mut i: usize = 0;
    while i < chapters.len()
        invariant
            0 <= i <= chapters@.len(),
            (manifest_items@, spine_items@, nav_items@) == chapter_lists(chapters@.take(i as int)),
            member_views(chapter_files@) == chapter_members(chapters@.take(i as int)),
        decreases chapters.len() - i,
    {
        let n = i + 1;
        let mut file_name = String::from_str("chapter-");
        append_decimal(&mut file_name, n as u64);
        file_name.append(".xhtml");
        let mut id = String::from_str("ch");
        append_decimal(&mut id, n as u64);
        manifest_items.append("<item id=\"");
        manifest_items.append(id.as_str());
        manifest_items.append("\" href=\"");
        manifest_items.append(file_name.as_str());
        manifest_items.append("\" media-type=\"application/xhtml+xml\"/>");
        spine_items.append("<itemref idref=\"");
        spine_items.append(id.as_str());
        spine_items.append("\"/>");
        nav_items.append("<li><a href=\"");
        nav_items.append(file_name.as_str());
        nav_items.append("\">");
        let t = escape_xml(chapters[i].title.as_str());
        nav_items.append(t.as_str());
        nav_items.append("</a></li>");
        let mut path = String::from_str("OEBPS/");
        path.append(file_name.as_str());
        let x = chapter_xhtml(chapters[i].title.as_str(), &chapters[i]);
        let ghost before = chapter_files@;
        chapter_files.push((path, x.as_str().as_bytes_vec()));
        proof {
            let pre = chapters@.take(i as int);
            let post = chapters@.take(i + 1);
            assert(post.drop_last() =~= pre);
            assert(post.last() == chapters@[i as int]);
            assert(member_views(chapter_files@) =~= member_views(before).push(
                (path@, vstd::utf8::encode_utf8(x@)),
            ));
            assert(manifest_items@ =~= chapter_lists(post).0);
            assert(spine_items@ =~= chapter_lists(post).1);
            assert(nav_items@ =~= chapter_lists(post).2);
        }
        i += 1;
    }
    proof {
        lemma_take_all(chapters@);
    }
    let author = author_text(project);
    let mut content_opf = String::from_str(OPF_HEAD);
    content_opf.append(book_id);
    content_opf.append(OPF_TITLE);
    let t = escape_xml(project.title.as_str());
    content_opf.append(t.as_str());
    content_opf.append(OPF_CREATOR);
    let a = escape_xml(author.as_str());
    content_opf.append(a.as_str());
    content_opf.append(OPF_MANIFEST);
    content_opf.append(manifest_items.as_str());
    content_opf.append(OPF_SPINE);
    content_opf.append(spine_items.as_str());
    content_opf.append(OPF_TAIL);
    let mut nav_xhtml = String::from_str(NAV_HEAD);
    nav_xhtml.append(nav_items.as_str());
    nav_xhtml.append(NAV_TAIL);
    let mut entries: Vec<(String, Vec<u8>)> = Vec::new();
    entries.push((String::from_str("mimetype"), "application/epub+zip".as_bytes_vec()));
    entries.push((String::from_str("META-INF/container.xml"), CONTAINER_XML.as_bytes_vec()));
    entries.push((String::from_str("OEBPS/content.opf"), content_opf.as_str().as_bytes_vec()));
    entries.push((String::from_str("OEBPS/nav.xhtml"), nav_xhtml.as_str().as_bytes_vec()));
    entries.push((String::from_str("OEBPS/style.css"), STYLE_CSS.as_bytes_vec()));
    let ghost head = entries@;
    let ghost files = chapter_files@;
    entries.append(&mut chapter_files);
    proof {
        assert(entries@ == head + files);
        assert(member_views(entries@) =~= member_views(head) + member_views(files));
        assert(content_opf@ =~= content_opf_text(*project, chapters@, book_id@));
        assert(nav_xhtml@ =~= nav_text(chapters@));
        assert(member_views(head) =~= seq![
            ("mimetype"@, vstd::utf8::encode_utf8("application/epub+zip"@)),
            ("META-INF/container.xml"@, vstd::utf8::encode_utf8(CONTAINER_XML@)),
            ("OEBPS/content.opf"@, vstd::utf8::encode_utf8(content_opf_text(*project, chapters@, book_id@))),
            ("OEBPS/nav.xhtml"@, vstd::utf8::encode_utf8(nav_text(chapters@))),
            ("OEBPS/style.css"@, vstd::utf8::encode_utf8(STYLE_CSS@)),
        ]);
        assert(member_views(entries@) =~= epub_members(*project, chapters@, book_id@));
    }
    build_zip(&entries)
}

/// The error when no random identifier can be drawn.
pub const NO_RANDOMNESS: &'static str = "EPUBの識別子に使う乱数を取得できませんでした。";

/// The EPUB of the work, identified by the version 4 UUID made from
/// `random`, the sixteen bytes that the random source gave; with none,
/// the error `NO_RANDOMNESS`.
pub fn build_from_random(project: &Project, chapters: &[ExportChapter], random: Option<[u8; 16]>) -> (r: Result<
    Vec<u8>,
    AppError,
>)
    ensures
        random is None ==> (r matches Err(AppError::Other(m)) && m@ == NO_RANDOMNESS@),
        random matches Some(b) ==> is_v4_uuid_text(uuid_v4_text_of(b@)),
        random matches Some(b) ==> (r matches Ok(bytes) ==> bytes@ == stored_zip_bytes(
            epub_members(*project, chapters@, "urn:uuid:"@ + uuid_v4_text_of(b@)),
        )),
        random matches Some(b) ==> (r matches Err(e) ==> crate::export::container::is_zip_failure(e)),
        random matches Some(b) ==> (fits_zip32(
            epub_members(*project, chapters@, "urn:uuid:"@ + uuid_v4_text_of(b@)),
        ) ==> r is Ok),
{
    let bytes = match random {
        Some(b) => b,
        None => {
            return Err(AppError::Other(String::from_str(NO_RANDOMNESS)));
        },
    };
    let uuid = uuid_v4_text(bytes);
    let mut book_id = String::from_str("urn:uuid:");
    book_id.append(uuid.as_str());
    build_with_id(project, chapters, book_id.as_str())
}

/// The EPUB of the work under a fresh random identifier (`urn:uuid:` and
/// a version 4 UUID). When the system's random source fails, the error
/// `NO_RANDOMNESS`; which identifier comes is chance.
pub fn build(project: &Project, chapters: &[ExportChapter]) -> (r: Result<Vec<u8>, AppError>)
    ensures
        r matches Ok(b) ==> exists|id: Seq<char>|
            is_v4_uuid_text(id) && b@ == stored_zip_bytes(
                epub_members(*project, chapters@, "urn:uuid:"@ + id),
            ),
        r matches Err(e) ==> crate::export::container::is_zip_failure(e) || (e matches AppError::Other(m)
            && m@ == NO_RANDOMNESS@),
{
    let random = random_bytes();
    let r = build_from_random(project, chapters, random);
    r
}

/// A chapter file holds the chapter's title as its `<h1>`, followed right
/// away by the chapter's own body as paragraphs when it has one: no text
/// of the chapter's own is dropped.
pub proof fn law_epub_chapter_keeps_its_body(title: Seq<char>, c: ExportChapter)
    ensures
        has_infix(
            chapter_xhtml_text(title, c),
            "<h1>"@ + escaped(Markup::Xhtml, title) + "</h1>\n"@ + match c.chapter_body {
                Some(b) => body_paragraphs(Markup::XhtmlBreaks, b@) + "\n"@,
                None => Seq::empty(),
            },
        ),
{
    let x = "<h1>"@ + escaped(Markup::Xhtml, title) + "</h1>\n"@ + match c.chapter_body {
        Some(b) => body_paragraphs(Markup::XhtmlBreaks, b@) + "\n"@,
        None => Seq::empty(),
    };
    let rest = concat_map(c.scenes@, |s: ExportScene| xhtml_scene(s));
    lemma_infix_self(x);
    lemma_infix_left(x, rest, x);
    assert(xhtml_content(title, c) == x + rest);
    let front = CHAPTER_HEAD@ + escaped(Markup::Xhtml, title) + CHAPTER_BODY@;
    lemma_infix_right(front, xhtml_content(title, c), x);
    lemma_infix_left(front + xhtml_content(title, c), CHAPTER_TAIL@, x);
}

/// A chapter file holds each of the chapter's scenes as a `<section>`:
/// its title as `<h2>` when it has one, then its body as paragraphs.
pub proof fn law_epub_chapter_keeps_every_scene(title: Seq<char>, c: ExportChapter, j: int)
    requires
        0 <= j < c.scenes@.len(),
    ensures
        has_infix(
            chapter_xhtml_text(title, c),
            "<section>\n"@ + (if c.scenes@[j].title@.len() > 0 {
                "<h2>"@ + escaped(Markup::Xhtml, c.scenes@[j].title@) + "</h2>\n"@
            } else {
                Seq::empty()
            }) + body_paragraphs(Markup::XhtmlBreaks, c.scenes@[j].body@) + "\n</section>\n"@,
        ),
{
    let sc = c.scenes@[j];
    let x = "<section>\n"@ + (if sc.title@.len() > 0 {
        "<h2>"@ + escaped(Markup::Xhtml, sc.title@) + "</h2>\n"@
    } else {
        Seq::empty()
    }) + body_paragraphs(Markup::XhtmlBreaks, sc.body@) + "\n</section>\n"@;
    lemma_infix_self(x);
    assert(xhtml_scene(sc) == x);
    lemma_infix_concat_map(c.scenes@, |s: ExportScene| xhtml_scene(s), j, x);
    let head = "<h1>"@ + escaped(Markup::Xhtml, title) + "</h1>\n"@ + match c.chapter_body {
        Some(b) => body_paragraphs(Markup::XhtmlBreaks, b@) + "\n"@,
        None => Seq::empty(),
    };
    let rest = concat_map(c.scenes@, |s: ExportScene| xhtml_scene(s));
    lemma_infix_right(head, rest, x);
    assert(xhtml_content(title, c) == head + rest);
    let front = CHAPTER_HEAD@ + escaped(Markup::Xhtml, title) + CHAPTER_BODY@;
    lemma_infix_right(front, xhtml_content(title, c), x);
    lemma_infix_left(front + xhtml_content(title, c), CHAPTER_TAIL@, x);
}

/// The EPUB archive holds, after its five fixed members, one file per
/// chapter in order: `OEBPS/chapter-{n}.xhtml` for the `n`-th chapter
/// (from 1), holding that chapter's file text under its own title.
pub proof fn law_epub_has_every_chapter_file(p: Project, cs: Seq<ExportChapter>, book_id: Seq<char>, i: int)
    requires
        0 <= i < cs.len(),
    ensures
        epub_members(p, cs, book_id).len() == 5 + cs.len(),
        epub_members(p, cs, book_id)[5 + i] == (
            "OEBPS/chapter-"@ + decimal((i + 1) as nat) + ".xhtml"@,
            vstd::utf8::encode_utf8(chapter_xhtml_text(cs[i].title@, cs[i])),
        ),
{
    lemma_chapter_member_at(cs, i);
    reveal_strlit("OEBPS/");
    reveal_strlit("chapter-");
    reveal_strlit("OEBPS/chapter-");
    assert("OEBPS/"@ + chapter_file((i + 1) as nat) =~= "OEBPS/chapter-"@ + decimal((i + 1) as nat) + ".xhtml"@);
}

proof fn lemma_chapter_member_at(cs: Seq<ExportChapter>, i: int)
    requires
        0 <= i < cs.len(),
    ensures
        chapter_members(cs).len() == cs.len(),
        chapter_members(cs)[i] == (
            "OEBPS/"@ + chapter_file((i + 1) as nat),
            vstd::utf8::encode_utf8(chapter_xhtml_text(cs[i].title@, cs[i])),
        ),
    decreases cs.len(),
{
    if i < cs.len() - 1 {
        lemma_chapter_member_at(cs.drop_last(), i);
        assert(cs.drop_last()[i] == cs[i]);
    } else if cs.len() > 1 {
        lemma_chapter_member_at(cs.drop_last(), 0);
    } else {
        assert(cs.drop_last().len() == 0);
        assert(chapter_members(cs.drop_last()).len() == 0);
    }
}

} // verus!
