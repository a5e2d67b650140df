//! Markdown export: the work's title as `#`, chapters as `##`, scenes as
//! `###`. Characters with a meaning in Markdown are left unescaped.
use vstd::prelude::*;
use super::{author_of, author_text, ExportChapter, ExportScene};
use crate::models::Project;
use crate::text::{
    all_ws, concat_map, is_blank, join, join_strings, lemma_concat_map_step, lemma_take_all, lines,
    split_lines, views,
};

verus! {

/// A line as Markdown: blank lines become empty, other lines get a hard
/// line break (two trailing spaces).
pub open spec fn md_line(l: Seq<char>) -> Seq<char> {
    if all_ws(l) {
        Seq::empty()
    } else {
        l + "  "@
    }
}

pub open spec fn md_body(b: Seq<char>) -> Seq<char> {
    join(lines(b).map_values(|l: Seq<char>| md_line(l)), "\n"@)
}

/// The lines of `body`, each as `md_line`, joined with `\n`.
pub fn paragraphs_to_markdown(body: &str) -> (r: String)
    ensures
        r@ == md_body(body@),
{
    let ls = split_lines(body);
    let mut out: Vec<String> = Vec::new();
    let mut i: usize = 0;
    while i < ls.len()
        invariant
            views(ls@) == lines(body@),
            0 <= i <= ls@.len(),
            views(out@) == lines(body@).take(i as int).map_values(|l: Seq<char>| md_line(l)),
        decreases ls.len() - i,
    {
        let line = &ls[i];
        let ghost before = out@;
        if is_blank(line.as_str()) {
            out.push(String::new());
        } else {
            let mut m = line.clone();
            m.append("  ");
            out.push(m);
        }
        proof {
            let item = md_line(ls@[i as int]@);
            assert(lines(body@)[i as int] == ls@[i as int]@);
            assert(out@.last()@ == item);
            assert(views(out@) =~= views(before).push(item));
            assert(lines(body@).take(i + 1).map_values(|l: Seq<char>| md_line(l)) =~= lines(body@).take(
                i as int,
            ).map_values(|l: Seq<char>| md_line(l)).push(item));
        }
        i += 1;
    }
    assert(lines(body@).take(lines(body@).len() as int) =~= lines(body@));
    join_strings(&out, "\n")
}

pub open spec fn md_scene(s: ExportScene) -> Seq<char> {
    (if s.title@.len() > 0 {
        "### "@ + s.title@ + "\n\n"@
    } else {
        Seq::empty()
    }) + md_body(s.body@) + "\n\n"@
}

pub open spec fn md_chapter(c: ExportChapter) -> Seq<char> {
    "## "@ + c.title@ + "\n\n"@ + match c.chapter_body {
        Some(b) => md_body(b@) + "\n\n"@,
        None => Seq::empty(),
    } + concat_map(c.scenes@, |s: ExportScene| md_scene(s))
}

/// The Markdown export: `# title`, the author in italics when there is one,
/// then the chapters.
pub open spec fn md_document(p: Project, cs: Seq<ExportChapter>) -> Seq<char> {
    "# "@ + p.title@ + "\n\n"@ + (if author_of(p).len() > 0 {
        "*"@ + author_of(p) + "*\n\n"@
    } else {
        Seq::empty()
    }) + concat_map(cs, |c: ExportChapter| md_chapter(c))
}

fn append_scene(out: &mut String, s: &ExportScene)
    ensures
        final(out)@ == old(out)@ + md_scene(*s),
{
    let ghost start = out@;
    if !s.title.as_str().is_empty() {
        out.append("### ");
        out.append(s.title.as_str());
        out.append("\n\n");
    }
    let b = paragraphs_to_markdown(s.body.as_str());
    out.append(b.as_str());
    out.append("\n\n");
    assert(out@ =~= start + md_scene(*s));
}

fn append_chapter(out: &mut String, c: &ExportChapter)
    ensures
        final(out)@ == old(out)@ + md_chapter(*c),
{
    let ghost start = out@;
    out.append("## ");
    out.append(c.title.as_str());
    out.append("\n\n");
    if let Some(body) = &c.chapter_body {
        let b = paragraphs_to_markdown(body.as_str());
        out.append(b.as_str());
        out.append("\n\n");
    }
    let ghost head = out@;
    let ghost f = |s: ExportScene| md_scene(s);
    let mut i: usize = 0;
    while i < c.scenes.len()
        invariant
            0 <= i <= c.scenes@.len(),
            out@ == head + concat_map(c.scenes@.take(i as int), f),
            f == (|s: ExportScene| md_scene(s)),
        decreases c.scenes.len() - i,
    {
        proof {
            lemma_concat_map_step(c.scenes@, i as int, f);
        }
        append_scene(out, &c.scenes[i]);
        assert(out@ =~= head + concat_map(c.scenes@.take(i + 1), f));
        i += 1;
    }
    proof {
        lemma_take_all(c.scenes@);
    }
    assert(out@ =~= start + md_chapter(*c));
}

/// The Markdown export of the work.
pub fn build(project: &Project, chapters: &[ExportChapter]) -> (r: String)
    ensures
        r@ == md_document(*project, chapters@),
{
    let mut out = String::new();
    out.append("# ");
    out.append(project.title.as_str());
    out.append("\n\n");
    let author = author_text(project);
    if !author.as_str().is_empty() {
        out.append("*");
        out.append(author.as_str());
        out.append("*\n\n");
    }
    let ghost head = out@;
    let ghost f = |c: ExportChapter| md_chapter(c);
    let mut i: usize = 0;
    while i < chapters.len()
        invariant
            0 <= i <= chapters@.len(),
            out@ == head + concat_map(chapters@.take(i as int), f),
            f == (|c: ExportChapter| md_chapter(c)),
        decreases chapters.len() - i,
    {
        proof {
            lemma_concat_map_step(chapters@, i as int, f);
        }
        append_chapter(&mut out, &chapters[i]);
        assert(out@ =~= head + concat_map(chapters@.take(i + 1), f));
        i += 1;
    }
    proof {
        lemma_take_all(chapters@);
    }
    assert(out@ =~= md_document(*project, chapters@));
    out
}

} // verus!
