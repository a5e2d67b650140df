//! Plain-text export: the manuscript as written, ruby and emphasis markup
//! left as it is.
use vstd::prelude::*;
use super::{author_of, author_text, ExportChapter, ExportScene};
use crate::models::Project;
use crate::text::{
    concat_map, has_infix, has_prefix, lemma_concat_map_step, lemma_infix_concat_map, lemma_infix_left, lemma_infix_right,
    lemma_infix_self, lemma_take_all,
};

verus! {

pub open spec fn txt_scene(s: ExportScene) -> Seq<char> {
    (if s.title@.len() > 0 {
        s.title@ + "\n\n"@
    } else {
        Seq::empty()
    }) + s.body@ + "\n\n"@
}

pub open spec fn txt_chapter(c: ExportChapter) -> Seq<char> {
    c.title@ + "\n\n"@ + match c.chapter_body {
        Some(b) => b@ + "\n\n"@,
        None => Seq::empty(),
    } + concat_map(c.scenes@, |s: ExportScene| txt_scene(s))
}

/// The text export: title, author line (when there is an author), a blank
/// line, then each chapter: its title, a blank line, its own body, and each
/// scene (titled ones with their title), every part followed by a blank
/// line.
pub open spec fn txt_document(p: Project, cs: Seq<ExportChapter>) -> Seq<char> {
    p.title@ + "\n"@ + (if author_of(p).len() > 0 {
        author_of(p) + "\n"@
    } else {
        Seq::empty()
    }) + "\n"@ + concat_map(cs, |c: ExportChapter| txt_chapter(c))
}

fn append_scene(out: &mut String, s: &ExportScene)
    ensures
        final(out)@ == old(out)@ + txt_scene(*s),
{
    let ghost start = out@;
    if !s.title.as_str().is_empty() {
        out.append(s.title.as_str());
        out.append("\n\n");
    }
    out.append(s.body.as_str());
    out.append("\n\n");
    assert(out@ =~= start + txt_scene(*s));
}

fn append_chapter(out: &mut String, c: &ExportChapter)
    ensures
        final(out)@ == old(out)@ + txt_chapter(*c),
{
    let ghost start = out@;
    out.append(c.title.as_str());
    out.append("\n\n");
    if let Some(body) = &c.chapter_body {
        out.append(body.as_str());
        out.append("\n\n");
    }
    let ghost head = out@;
    let ghost f = |s: ExportScene| txt_scene(s);
    let mut i: usize = 0;
    while i < c.scenes.len()
        invariant
            0 <= i <= c.scenes@.len(),
            out@ == head + concat_map(c.scenes@.take(i as int), f),
            f == (|s: ExportScene| txt_scene(s)),
        decreases c.scenes.len() - i,
    {
        proof {
            lemma_concat_map_step(c.scenes@, i as int, f);
        }
        append_scene(out, &c.scenes[i]);
        assert(out@ =~= head + concat_map(c.scenes@.take(i + 1), f));
        i += 1;
    }
    proof {
        lemma_take_all(c.scenes@);
    }
    assert(out@ =~= start + txt_chapter(*c));
}

/// The text export of the work.
pub fn build(project: &Project, chapters: &[ExportChapter]) -> (r: String)
    ensures
        r@ == txt_document(*project, chapters@),
{
    let mut out = String::new();
    out.append(project.title.as_str());
    out.append("\n");
    let author = author_text(project);
    if !author.as_str().is_empty() {
        out.append(author.as_str());
        out.append("\n");
    }
    out.append("\n");
    let ghost head = out@;
    let ghost f = |c: ExportChapter| txt_chapter(c);
    let mut i: usize = 0;
    while i < chapters.len()
        invariant
            0 <= i <= chapters@.len(),
            out@ == head + concat_map(chapters@.take(i as int), f),
            f == (|c: ExportChapter| txt_chapter(c)),
        decreases chapters.len() - i,
    {
        proof {
            lemma_concat_map_step(chapters@, i as int, f);
        }
        append_chapter(&mut out, &chapters[i]);
        assert(out@ =~= head + concat_map(chapters@.take(i + 1), f));
        i += 1;
    }
    proof {
        lemma_take_all(chapters@);
    }
    assert(out@ =~= txt_document(*project, chapters@));
    out
}

/// The text export holds every scene: its body followed by a blank line,
/// with the scene's title and a blank line right before it when the scene
/// has a title.
pub proof fn law_txt_keeps_every_scene(p: Project, cs: Seq<ExportChapter>, i: int, j: int)
    requires
        0 <= i < cs.len(),
        0 <= j < cs[i].scenes@.len(),
    ensures
        has_infix(
            txt_document(p, cs),
            (if cs[i].scenes@[j].title@.len() > 0 {
                cs[i].scenes@[j].title@ + "\n\n"@
            } else {
                Seq::empty()
            }) + cs[i].scenes@[j].body@ + "\n\n"@,
        ),
{
    let c = cs[i];
    let sc = c.scenes@[j];
    let x = (if sc.title@.len() > 0 {
        sc.title@ + "\n\n"@
    } else {
        Seq::empty()
    }) + sc.body@ + "\n\n"@;
    lemma_infix_self(x);
    assert(txt_scene(sc) == x);
    lemma_infix_concat_map(c.scenes@, |s: ExportScene| txt_scene(s), j, x);
    let head = c.title@ + "\n\n"@ + match c.chapter_body {
        Some(b) => b@ + "\n\n"@,
        None => Seq::empty(),
    };
    lemma_infix_right(head, concat_map(c.scenes@, |s: ExportScene| txt_scene(s)), x);
    assert(txt_chapter(c) == head + concat_map(c.scenes@, |s: ExportScene| txt_scene(s)));
    lemma_infix_concat_map(cs, |c: ExportChapter| txt_chapter(c), i, x);
    let front = p.title@ + "\n"@ + (if author_of(p).len() > 0 {
        author_of(p) + "\n"@
    } else {
        Seq::empty()
    }) + "\n"@;
    lemma_infix_right(front, concat_map(cs, |c: ExportChapter| txt_chapter(c)), x);
}

/// The text export begins with the work's title on its own line, and holds
/// every chapter's title followed by a blank line and then the chapter's
/// own body (when it has one) followed by a blank line.
pub proof fn law_txt_keeps_every_chapter(p: Project, cs: Seq<ExportChapter>, i: int)
    requires
        0 <= i < cs.len(),
    ensures
        has_prefix(txt_document(p, cs), p.title@ + "\n"@),
        has_infix(
            txt_document(p, cs),
            cs[i].title@ + "\n\n"@ + match cs[i].chapter_body {
                Some(b) => b@ + "\n\n"@,
                None => Seq::empty(),
            },
        ),
{
    let c = cs[i];
    let x = c.title@ + "\n\n"@ + match c.chapter_body {
        Some(b) => b@ + "\n\n"@,
        None => Seq::empty(),
    };
    lemma_infix_self(x);
    lemma_infix_left(x, concat_map(c.scenes@, |s: ExportScene| txt_scene(s)), x);
    assert(txt_chapter(c) == x + concat_map(c.scenes@, |s: ExportScene| txt_scene(s)));
    lemma_infix_concat_map(cs, |c: ExportChapter| txt_chapter(c), i, x);
    let front = p.title@ + "\n"@ + (if author_of(p).len() > 0 {
        author_of(p) + "\n"@
    } else {
        Seq::empty()
    }) + "\n"@;
    lemma_infix_right(front, concat_map(cs, |c: ExportChapter| txt_chapter(c)), x);
    let d = txt_document(p, cs);
    let t = p.title@ + "\n"@;
    assert(d.subrange(0, t.len() as int) =~= t);
}

/// The text export begins with the title line, then the author's line
/// when there is an author (the pen name, else the author's name), then a
/// blank line.
pub proof fn law_txt_front_matter(p: Project, cs: Seq<ExportChapter>)
    ensures
        has_prefix(
            txt_document(p, cs),
            p.title@ + "\n"@ + match p.pen_name {
                Some(a) => if a@.len() > 0 {
                    a@ + "\n"@
                } else {
                    Seq::empty()
                },
                None => match p.author_name {
                    Some(a) => if a@.len() > 0 {
                        a@ + "\n"@
                    } else {
                        Seq::empty()
                    },
                    None => Seq::empty(),
                },
            } + "\n"@,
        ),
{
    let d = txt_document(p, cs);
    let front = p.title@ + "\n"@ + (if author_of(p).len() > 0 {
        author_of(p) + "\n"@
    } else {
        Seq::empty()
    }) + "\n"@;
    assert(d.subrange(0, front.len() as int) =~= front);
}

} // verus!
