//! Export of a whole work to TXT, Markdown, HTML, DOCX, PDF and EPUB. Every
//! format starts from the same shape of the work (chapters, each with an
//! optional body of its own and its scenes) and yields bytes.
use vstd::prelude::*;
use crate::error::AppError;
use crate::models::Project;
use crate::text::{str_eq, to_chars, trim, trim_bounds, views};

pub mod container;
pub mod docx;
pub mod epub;
pub mod escape;
pub mod html;
pub mod markdown;
pub mod outline;
pub mod txt;

verus! {

#[derive(Debug)]
pub struct ExportScene {
    pub title: String,
    pub body: String,
}

#[derive(Debug)]
pub struct ExportChapter {
    pub title: String,
    /// The chapter's own body (when it does not use scenes); `None` when
    /// empty.
    pub chapter_body: Option<String>,
    pub scenes: Vec<ExportScene>,
}

#[derive(Debug)]
pub struct ExportOutput {
    pub filename: String,
    pub mime_type: String,
    pub bytes: Vec<u8>,
}

/// The author shown under the title: the pen name when there is one (even
/// an empty one), else the author's name, else nothing.
pub open spec fn author_of(p: Project) -> Seq<char> {
    match p.pen_name {
        Some(a) => a@,
        None => match p.author_name {
            Some(a) => a@,
            None => Seq::empty(),
        },
    }
}

pub fn author_text(project: &Project) -> (r: String)
    ensures
        r@ == author_of(*project),
{
    match &project.pen_name {
        Some(a) => a.clone(),
        None => match &project.author_name {
            Some(a) => a.clone(),
            None => String::new(),
        },
    }
}

/// The export formats, in the order offered to the user.
pub open spec fn spec_export_formats() -> Seq<Seq<char>> {
    seq!["txt"@, "markdown"@, "html"@, "docx"@, "pdf"@, "epub"@]
}

/// The export formats (`EXPORT_FORMATS`).
pub fn export_formats() -> (v: Vec<String>)
    ensures
        views(v@) == spec_export_formats(),
{
    let mut v: Vec<String> = Vec::new();
    v.push(String::from_str("txt"));
    v.push(String::from_str("markdown"));
    v.push(String::from_str("html"));
    v.push(String::from_str("docx"));
    v.push(String::from_str("pdf"));
    v.push(String::from_str("epub"));
    assert(views(v@) =~= spec_export_formats());
    v
}

/// Characters that file systems refuse in a file name.
pub open spec fn is_unsafe_filename_char(c: char) -> bool {
    c == '\\' || c == '/' || c == ':' || c == '*' || c == '?' || c == '"' || c == '<' || c == '>'
        || c == '|'
}

/// `title` with each unsafe character replaced by `_`, trimmed; a title
/// that ends up empty becomes "無題の作品" (untitled work).
pub open spec fn safe_filename(title: Seq<char>) -> Seq<char> {
    let cleaned = title.map_values(|c: char| if is_unsafe_filename_char(c) { '_' } else { c });
    if trim(cleaned).len() == 0 {
        "無題の作品"@
    } else {
        trim(cleaned)
    }
}

/// A base file name for the work titled `title` (see `safe_filename`).
pub fn sanitize_filename(title: &str) -> (r: String)
    ensures
        r@ == safe_filename(title@),
{
    let v = to_chars(title);
    let mut cleaned: Vec<char> = Vec::new();
    let mut i: usize = 0;
    while i < v.len()
        invariant
            v@ == title@,
            0 <= i <= v@.len(),
            cleaned@ == v@.take(i as int).map_values(
                |c: char| if is_unsafe_filename_char(c) { '_' } else { c },
            ),
        decreases v.len() - i,
    {
        let c = v[i];
        let d = if c == '\\' || c == '/' || c == ':' || c == '*' || c == '?' || c == '"' || c == '<'
            || c == '>' || c == '|' {
            '_'
        } else {
            c
        };
        cleaned.push(d);
        assert(cleaned@ =~= v@.take(i + 1).map_values(
            |c: char| if is_unsafe_filename_char(c) { '_' } else { c },
        ));
        i += 1;
    }
    assert(v@.take(v@.len() as int) =~= v@);
    let (a, b) = trim_bounds(&cleaned, 0, cleaned.len());
    assert(cleaned@.subrange(0, cleaned@.len() as int) =~= cleaned@);
    if a == b {
        String::from_str("無題の作品")
    } else {
        crate::text::string_of_range(&cleaned, a, b)
    }
}

/// The file extension of each format.
pub open spec fn export_extension(f: Seq<char>) -> Seq<char> {
    if f == "markdown"@ {
        "md"@
    } else {
        f
    }
}

/// The MIME type of each format.
pub open spec fn export_mime(f: Seq<char>) -> Seq<char> {
    if f == "txt"@ {
        "text/plain"@
    } else if f == "markdown"@ {
        "text/markdown"@
    } else if f == "html"@ {
        "text/html"@
    } else if f == "docx"@ {
        "application/vnd.openxmlformats-officedocument.wordprocessingml.document"@
    } else if f == "pdf"@ {
        "application/pdf"@
    } else {
        "application/epub+zip"@
    }
}

proof fn lemma_formats_distinct()
    ensures
        forall|i: int, j: int|
            0 <= i < 6 && 0 <= j < 6 && i != j ==> spec_export_formats()[i] != spec_export_formats()[j],
{
    reveal_strlit("txt");
    reveal_strlit("markdown");
    reveal_strlit("html");
    reveal_strlit("docx");
    reveal_strlit("pdf");
    reveal_strlit("epub");
    let f = spec_export_formats();
    assert(f[0][0] == 't' && f[1][0] == 'm' && f[2][0] == 'h' && f[3][0] == 'd' && f[4][0] == 'p'
        && f[5][0] == 'e');
    assert forall|i: int, j: int|
        0 <= i < 6 && 0 <= j < 6 && i != j implies f[i] != f[j] by {
        assert(f[i][0] != f[j][0]);
    }
}

/// The export file name of a work titled `title` in format `f`.
pub open spec fn export_filename(title: Seq<char>, f: Seq<char>) -> Seq<char> {
    safe_filename(title) + "."@ + export_extension(f)
}

fn output(project: &Project, extension: &str, mime_type: &str, bytes: Vec<u8>) -> (o: ExportOutput)
    ensures
        o.filename@ == safe_filename(project.title@) + "."@ + extension@,
        o.mime_type@ == mime_type@,
        o.bytes == bytes,
{
    let mut filename = sanitize_filename(project.title.as_str());
    filename.append(".");
    filename.append(extension);
    ExportOutput { filename, mime_type: String::from_str(mime_type), bytes }
}

/// Exports the work in `format`. The PDF renderer lays out text with
/// floating-point metrics and runs outside this library: for `"pdf"` the
/// bytes it produced are handed in as `pdf` (any other format ignores
/// them). An unknown format is refused; DOCX and EPUB fail only where their
/// ZIP container cannot be written.
pub fn export(project: &Project, chapters: &[ExportChapter], format: &str, pdf: Vec<u8>) -> (r: Result<
    ExportOutput,
    AppError,
>)
    ensures
        !spec_export_formats().contains(format@) ==> (r matches Err(AppError::Other(m)) && m@
            == "未対応のExport形式です: "@ + format@),
        spec_export_formats().contains(format@) ==> (r matches Ok(o) ==> o.filename@ == export_filename(
            project.title@,
            format@,
        ) && o.mime_type@ == export_mime(format@)),
        format@ == "txt"@ ==> (r matches Ok(o) && o.bytes@ == vstd::utf8::encode_utf8(
            txt::txt_document(*project, chapters@),
        )),
        format@ == "markdown"@ ==> (r matches Ok(o) && o.bytes@ == vstd::utf8::encode_utf8(
            markdown::md_document(*project, chapters@),
        )),
        format@ == "html"@ ==> (r matches Ok(o) && o.bytes@ == vstd::utf8::encode_utf8(
            html::html_document(*project, chapters@),
        )),
        format@ == "pdf"@ ==> (r matches Ok(o) && o.bytes == pdf),
        format@ == "docx"@ ==> (r matches Ok(o) ==> o.bytes@ == container::stored_zip_bytes(
            docx::docx_members(*project, chapters@),
        )),
        format@ == "docx"@ && container::fits_zip32(docx::docx_members(*project, chapters@)) ==> r is Ok,
        format@ == "docx"@ ==> (r matches Err(e) ==> container::is_zip_failure(e)),
        format@ == "epub"@ ==> (r matches Err(e) ==> container::is_zip_failure(e) || (e matches AppError::Other(
            m,
        ) && m@ == epub::NO_RANDOMNESS@)),
        format@ == "epub"@ ==> (r matches Ok(o) ==> exists|id: Seq<char>|
            epub::is_v4_uuid_text(id) && o.bytes@ == container::stored_zip_bytes(
                epub::epub_members(*project, chapters@, "urn:uuid:"@ + id),
            )),
{
    proof {
        reveal_strlit("txt");
        reveal_strlit("markdown");
        reveal_strlit("html");
        reveal_strlit("docx");
        reveal_strlit("pdf");
        reveal_strlit("epub");
        reveal_strlit("md");
        assert(spec_export_formats()[0] == "txt"@);
        assert(spec_export_formats()[1] == "markdown"@);
        assert(spec_export_formats()[2] == "html"@);
        assert(spec_export_formats()[3] == "docx"@);
        assert(spec_export_formats()[4] == "pdf"@);
        assert(spec_export_formats()[5] == "epub"@);
        lemma_formats_distinct();
    }
    if str_eq(format, "txt") {
        let text = txt::build(project, chapters);
        Ok(output(project, "txt", "text/plain", text.as_str().as_bytes_vec()))
    } else if str_eq(format, "markdown") {
        let text = markdown::build(project, chapters);
        Ok(output(project, "md", "text/markdown", text.as_str().as_bytes_vec()))
    } else if str_eq(format, "html") {
        let text = html::build(project, chapters);
        Ok(output(project, "html", "text/html", text.as_str().as_bytes_vec()))
    } else if str_eq(format, "docx") {
        let bytes = docx::build(project, chapters)?;
        Ok(
            output(
                project,
                "docx",
                "application/vnd.openxmlformats-officedocument.wordprocessingml.document",
                bytes,
            ),
        )
    } else if str_eq(format, "pdf") {
        let o = output(project, "pdf", "application/pdf", pdf);
        assert(o.bytes == pdf);
        Ok(o)
    } else if str_eq(format, "epub") {
        let bytes = epub::build(project, chapters)?;
        Ok(output(project, "epub", "application/epub+zip", bytes))
    } else {
        assert(!spec_export_formats().contains(format@));
        Err(crate::error::other_with("未対応のExport形式です: ", format))
    }
}

/// A chapter's own body as exported: the document's body when there is a
/// document and its body is not empty.
pub open spec fn exported_body(doc_body: Option<String>) -> Option<Seq<char>> {
    match doc_body {
        Some(b) => if b@.len() > 0 {
            Some(b@)
        } else {
            None
        },
        None => None,
    }
}

/// The scenes as exported: those whose document exists and has a non-empty
/// body, in order, each with its title and body.
pub open spec fn exported_scenes(scenes: Seq<(String, Option<String>)>) -> Seq<(Seq<char>, Seq<char>)>
    decreases scenes.len(),
{
    if scenes.len() == 0 {
        Seq::empty()
    } else {
        let rest = exported_scenes(scenes.drop_last());
        match scenes.last().1 {
            Some(b) => if b@.len() > 0 {
                rest.push((scenes.last().0@, b@))
            } else {
                rest
            },
            None => rest,
        }
    }
}

pub open spec fn scene_views(scenes: Seq<ExportScene>) -> Seq<(Seq<char>, Seq<char>)> {
    scenes.map_values(|s: ExportScene| (s.title@, s.body@))
}

/// One chapter of the export tree, from the chapter's title, the body of its
/// own document (if it has one) and each scene's title with the body of the
/// scene's document (if it has one). Empty bodies are left out; a chapter
/// without any body keeps its title.
pub fn gather_chapter(title: String, doc_body: Option<String>, scenes: Vec<(String, Option<String>)>) -> (c:
    ExportChapter)
    ensures
        c.title == title,
        match c.chapter_body {
            Some(b) => exported_body(doc_body) == Some(b@),
            None => exported_body(doc_body) is None,
        },
        scene_views(c.scenes@) == exported_scenes(scenes@),
{
    let chapter_body = match doc_body {
        Some(b) => if b.as_str().is_empty() {
            None
        } else {
            Some(b)
        },
        None => None,
    };
    let mut out: Vec<ExportScene> = Vec::new();
    let mut i: usize = 0;
    while i < scenes.len()
        invariant
            0 <= i <= scenes@.len(),
            scene_views(out@) == exported_scenes(scenes@.take(i as int)),
        decreases scenes.len() - i,
    {
        proof {
            assert(scenes@.take(i + 1).drop_last() =~= scenes@.take(i as int));
            assert(scenes@.take(i + 1).last() == scenes@[i as int]);
        }
        match &scenes[i].1 {
            Some(body) => {
                if !body.as_str().is_empty() {
                    let ghost before = out@;
                    out.push(ExportScene { title: scenes[i].0.clone(), body: body.clone() });
                    assert(scene_views(out@) =~= scene_views(before).push((scenes@[i as int].0@, body@)));
                }
            },
            None => {},
        }
        i += 1;
    }
    assert(scenes@.take(scenes@.len() as int) =~= scenes@);
    ExportChapter { title, chapter_body, scenes: out }
}

/// A chapter of the export tree is what `gather_chapter` makes of its
/// title, own body and scenes.
pub open spec fn gathered_as(
    c: ExportChapter,
    source: (String, Option<String>, Vec<(String, Option<String>)>),
) -> bool {
    &&& c.title == source.0
    &&& match c.chapter_body {
        Some(b) => exported_body(source.1) == Some(b@),
        None => exported_body(source.1) is None,
    }
    &&& scene_views(c.scenes@) == exported_scenes(source.2@)
}

/// The export tree of a work from its chapters in order, each given as
/// its title, the body of its own document (if it has one) and each
/// scene's title with the body of the scene's document (if it has one):
/// one chapter per entry, in order, chapters without any text included.
pub fn gather(chapters: Vec<(String, Option<String>, Vec<(String, Option<String>)>)>) -> (r: Vec<ExportChapter>)
    ensures
        r@.len() == chapters@.len(),
        forall|k: int| 0 <= k < chapters@.len() ==> gathered_as(#[trigger] r@[k], chapters@[k]),
{
    let ghost orig = chapters@;
    let mut rest = chapters;
    let mut out: Vec<ExportChapter> = Vec::new();
    while rest.len() > 0
        invariant
            out@.len() + rest@.len() == orig.len(),
            rest@ == orig.skip(out@.len() as int),
            forall|k: int| 0 <= k < out@.len() ==> gathered_as(#[trigger] out@[k], orig[k]),
        decreases rest.len(),
    {
        let ghost n = out@.len();
        let (title, body, scenes) = rest.remove(0);
        assert(orig[n as int] == (title, body, scenes));
        let c = gather_chapter(title, body, scenes);
        out.push(c);
        assert(rest@ =~= orig.skip(out@.len() as int));
    }
    out
}

pub const NO_LOGS: &'static str = "書き出せるログファイルが見つかりませんでした。";

/// `novel-studio-ai-diagnostics-{stamp}.zip`.
pub open spec fn diagnostics_name(stamp: Seq<char>) -> Seq<char> {
    "novel-studio-ai-diagnostics-"@ + stamp + ".zip"@
}

/// The diagnostics archive stamped `stamp`: the log files (name, bytes)
/// in a ZIP named `diagnostics_name(stamp)`. An error when there is no log
/// file; always written when there is one and the logs are `zip_ready`.
pub fn diagnostics_archive_at(logs: &Vec<(String, Vec<u8>)>, stamp: &str) -> (r: Result<ExportOutput, AppError>)
    ensures
        logs@.len() == 0 ==> (r matches Err(AppError::Other(m)) && m@ == NO_LOGS@),
        r matches Ok(o) ==> {
            &&& o.bytes@ == container::stored_zip_bytes(container::member_views(logs@))
            &&& o.mime_type@ == "application/zip"@
            &&& o.filename@ == diagnostics_name(stamp@)
        },
        r matches Err(e) ==> logs@.len() == 0 || container::is_zip_failure(e),
        logs@.len() > 0 && container::zip_ready(container::member_views(logs@)) ==> r is Ok,
{
    if logs.len() == 0 {
        return Err(AppError::Other(String::from_str(NO_LOGS)));
    }
    let bytes = container::build_zip(logs)?;
    let mut filename = String::from_str("novel-studio-ai-diagnostics-");
    filename.append(stamp);
    filename.append(".zip");
    Ok(ExportOutput { filename, mime_type: String::from_str("application/zip"), bytes })
}

pub const NO_CLOCK: &'static str = "現在時刻を取得できませんでした。";

/// The diagnostics archive the user may share, stamped with the current
/// UTC time (see `diagnostics_archive_at`). Nothing is sent anywhere. An
/// error when there is no log file, or when the clock cannot be read as a
/// UTC time.
pub fn diagnostics_archive(logs: &Vec<(String, Vec<u8>)>) -> (r: Result<ExportOutput, AppError>)
    ensures
        logs@.len() == 0 ==> (r matches Err(AppError::Other(m)) && m@ == NO_LOGS@),
        r matches Ok(o) ==> {
            &&& o.bytes@ == container::stored_zip_bytes(container::member_views(logs@))
            &&& o.mime_type@ == "application/zip"@
            &&& exists|stamp: Seq<char>|
                #![trigger diagnostics_name(stamp)]
                crate::backup::is_stamp_text(stamp) && o.filename@ == diagnostics_name(stamp) && exists|secs: i64|
                    #[trigger] crate::backup::utc_stamp_of(secs) == Some(stamp)
        },
        r matches Err(e) ==> logs@.len() == 0 || container::is_zip_failure(e) || (e matches AppError::Other(m)
            && m@ == NO_CLOCK@),
{
    if logs.len() == 0 {
        return Err(AppError::Other(String::from_str(NO_LOGS)));
    }
    let stamp = match crate::backup::utc_stamp_now() {
        Some(s) => s,
        None => {
            return Err(AppError::Other(String::from_str(NO_CLOCK)));
        },
    };
    let r = diagnostics_archive_at(logs, stamp.as_str());
    proof {
        if r is Ok {
            assert(r->Ok_0.filename@ == diagnostics_name(stamp@));
        }
    }
    r
}

/// Whatever the title, the base file name of an export is not empty and
/// holds no character a file system refuses.
pub proof fn law_safe_filename(title: Seq<char>)
    ensures
        safe_filename(title).len() > 0,
        forall|i: int| 0 <= i < safe_filename(title).len() ==> !is_unsafe_filename_char(#[trigger] safe_filename(title)[i]),
{
    let cleaned = title.map_values(|c: char| if is_unsafe_filename_char(c) { '_' } else { c });
    reveal_strlit("無題の作品");
    if trim(cleaned).len() > 0 {
        crate::text::lemma_trim_chars(cleaned);
        assert forall|i: int| 0 <= i < trim(cleaned).len() implies !is_unsafe_filename_char(#[trigger] trim(cleaned)[i]) by {
            assert(cleaned.contains(trim(cleaned)[i]));
            let j = choose|j: int| 0 <= j < cleaned.len() && cleaned[j] == trim(cleaned)[i];
            assert(cleaned[j] == (if is_unsafe_filename_char(title[j]) { '_' } else { title[j] }));
        }
    }
}

} // verus!
