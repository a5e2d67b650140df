//! Context builder: assembles the candidate blocks of information that may
//! be sent to an AI provider. It only proposes them; the user reviews and
//! selects blocks before anything is sent. The records it reads are fetched
//! by the caller and handed in.
use vstd::prelude::*;
use crate::export::{ExportChapter, ExportScene};
use crate::models::{Chapter, Character, ContextBlock, Document, Foreshadowing, Project, Scene, TimelineEvent, WorldEntry};
use crate::text::{
    char_len, concat_map, join, join_strings, lemma_concat_map_step, lemma_take_all, str_eq, string_of_range,
    to_chars, views,
};

verus! {

/// How many characters of the current text the "直前本文" block holds.
pub const PRECEDING_TEXT_CHARS: usize = 1200;

/// A length as a block's `char_count` (no string reaches `i64::MAX`
/// characters; the count is capped there).
pub open spec fn count_of(n: nat) -> i64 {
    if n <= i64::MAX {
        n as i64
    } else {
        i64::MAX
    }
}

/// `s.chars().count() as i64`.
pub fn char_count(s: &str) -> (n: i64)
    ensures
        n == count_of(s@.len()),
{
    let len = char_len(s);
    let wide: u64 = len as u64;
    if wide <= 0x7fff_ffff_ffff_ffffu64 {
        wide as i64
    } else {
        0x7fff_ffff_ffff_ffffi64
    }
}

/// A block as (label, content, included by default).
pub open spec fn block_view(b: ContextBlock) -> (Seq<char>, Seq<char>, bool) {
    (b.label@, b.content@, b.included_by_default)
}

pub open spec fn block_views(bs: Seq<ContextBlock>) -> Seq<(Seq<char>, Seq<char>, bool)> {
    bs.map_values(|b: ContextBlock| block_view(b))
}

/// Each block counts the characters of its content.
pub open spec fn counts_match(bs: Seq<ContextBlock>) -> bool {
    forall|i: int| 0 <= i < bs.len() ==> (#[trigger] bs[i]).char_count == count_of(bs[i].content@.len())
}

fn make_block(label: &str, content: String, included: bool) -> (b: ContextBlock)
    ensures
        b.label@ == label@,
        b.content@ == content@,
        b.included_by_default == included,
        b.char_count == count_of(content@.len()),
{
    let n = char_count(content.as_str());
    ContextBlock { label: String::from_str(label), content, char_count: n, included_by_default: included }
}

fn push_block(blocks: &mut Vec<ContextBlock>, label: &str, content: String, included: bool)
    requires
        counts_match(old(blocks)@),
    ensures
        counts_match(final(blocks)@),
        block_views(final(blocks)@) == block_views(old(blocks)@).push((label@, content@, included)),
{
    let b = make_block(label, content, included);
    blocks.push(b);
    assert(block_views(blocks@) =~= block_views(old(blocks)@).push((label@, content@, included)));
    assert forall|i: int| 0 <= i < blocks@.len() implies (#[trigger] blocks@[i]).char_count == count_of(
        blocks@[i].content@.len(),
    ) by {
        if i < old(blocks)@.len() {
            assert(blocks@[i] == old(blocks)@[i]);
        }
    }
}

/// `prefix` followed by `v`, as a one-line list, when `v` is present and not
/// empty; no line otherwise.
pub open spec fn labeled(prefix: Seq<char>, v: Option<String>) -> Seq<Seq<char>> {
    match v {
        Some(s) => if s@.len() > 0 {
            seq![prefix + s@]
        } else {
            Seq::empty()
        },
        None => Seq::empty(),
    }
}

fn push_labeled(lines: &mut Vec<String>, prefix: &str, v: &Option<String>)
    ensures
        views(final(lines)@) == views(old(lines)@) + labeled(prefix@, *v),
{
    match v {
        Some(s) => {
            if !s.as_str().is_empty() {
                let mut l = String::from_str(prefix);
                l.append(s.as_str());
                lines.push(l);
                assert(views(lines@) =~= views(old(lines)@) + labeled(prefix@, *v));
            } else {
                assert(views(lines@) =~= views(old(lines)@) + labeled(prefix@, *v));
            }
        },
        None => {
            assert(views(lines@) =~= views(old(lines)@) + labeled(prefix@, *v));
        },
    }
}

/// The text of an optional field, or nothing.
pub open spec fn or_empty(v: Option<String>) -> Seq<char> {
    match v {
        Some(s) => s@,
        None => Seq::empty(),
    }
}

fn or_empty_text(v: &Option<String>) -> (r: String)
    ensures
        r@ == or_empty(*v),
{
    match v {
        Some(s) => s.clone(),
        None => String::new(),
    }
}

/// A single block, when `content` is present.
pub open spec fn opt_block(label: Seq<char>, content: Option<Seq<char>>, included: bool) -> Seq<
    (Seq<char>, Seq<char>, bool),
> {
    match content {
        Some(c) => seq![(label, c, included)],
        None => Seq::empty(),
    }
}

/// The project overview lines: synopsis, theme, concept and point-of-view
/// policy, each when set.
pub open spec fn project_lines(p: Project) -> Seq<Seq<char>> {
    labeled("あらすじ: "@, p.synopsis) + labeled("テーマ: "@, p.theme) + labeled("コンセプト: "@, p.concept)
        + labeled("視点方針: "@, p.pov_policy)
}

pub open spec fn project_block(project: Option<&Project>) -> Seq<(Seq<char>, Seq<char>, bool)> {
    match project {
        Some(p) => if project_lines(*p).len() > 0 {
            seq![("作品概要"@, join(project_lines(*p), "\n"@), true)]
        } else {
            Seq::empty()
        },
        None => Seq::empty(),
    }
}

pub open spec fn chapter_block(chapter: Option<&Chapter>) -> Seq<(Seq<char>, Seq<char>, bool)> {
    match chapter {
        Some(c) => seq![
            ("現在の章"@, join(
                seq!["タイトル: "@ + c.title@] + labeled("概要: "@, c.synopsis) + labeled("メモ: "@, c.memo),
                "\n"@,
            ), true),
        ],
        None => Seq::empty(),
    }
}

pub open spec fn scene_block(scene: Option<&Scene>) -> Seq<(Seq<char>, Seq<char>, bool)> {
    match scene {
        Some(s) => seq![
            ("現在のシーン"@, join(
                seq!["タイトル: "@ + s.title@] + labeled("概要: "@, s.summary) + labeled("目的: "@, s.purpose)
                    + labeled("葛藤: "@, s.conflict),
                "\n"@,
            ), true),
        ],
        None => Seq::empty(),
    }
}

/// The last `PRECEDING_TEXT_CHARS` characters of `body` (all of it when
/// shorter).
pub open spec fn tail_excerpt(body: Seq<char>) -> Seq<char> {
    if body.len() > PRECEDING_TEXT_CHARS {
        body.subrange(body.len() - PRECEDING_TEXT_CHARS, body.len() as int)
    } else {
        body
    }
}

pub open spec fn text_block(doc: Option<&Document>) -> Seq<(Seq<char>, Seq<char>, bool)> {
    match doc {
        Some(d) => if d.body@.len() > 0 {
            seq![("直前本文"@, tail_excerpt(d.body@), true)]
        } else {
            Seq::empty()
        },
        None => Seq::empty(),
    }
}

pub open spec fn character_line(c: Character) -> Seq<char> {
    "- "@ + c.name@ + "("@ + or_empty(c.role) + "): "@ + or_empty(c.personality)
}

pub open spec fn world_line(e: WorldEntry) -> Seq<char> {
    "- "@ + e.name@ + ": "@ + or_empty(e.summary)
}

pub open spec fn foreshadowing_line(f: Foreshadowing) -> Seq<char> {
    "- "@ + f.title@ + "("@ + f.status@ + "): "@ + or_empty(f.detail)
}

/// A foreshadowing still open: neither resolved nor discarded.
pub open spec fn is_open(f: Foreshadowing) -> bool {
    f.status@ != "resolved"@ && f.status@ != "discarded"@
}

/// The lines of the open foreshadowings, in order.
pub open spec fn open_foreshadowing_lines(fs: Seq<Foreshadowing>) -> Seq<Seq<char>>
    decreases fs.len(),
{
    if fs.len() == 0 {
        Seq::empty()
    } else if is_open(fs.last()) {
        open_foreshadowing_lines(fs.drop_last()).push(foreshadowing_line(fs.last()))
    } else {
        open_foreshadowing_lines(fs.drop_last())
    }
}

/// The open-foreshadowing block lists, in their order, exactly the
/// foreshadowings whose status is neither "resolved" nor "discarded",
/// each as `- title(status): detail`.
pub proof fn law_open_foreshadowings(fs: Seq<Foreshadowing>)
    ensures
        open_foreshadowing_lines(fs) == fs.filter(
            |f: Foreshadowing| f.status@ != "resolved"@ && f.status@ != "discarded"@,
        ).map_values(
            |f: Foreshadowing|
                "- "@ + f.title@ + "("@ + f.status@ + "): "@ + match f.detail {
                    Some(d) => d@,
                    None => Seq::<char>::empty(),
                },
        ),
    decreases fs.len(),
{
    let keep = |f: Foreshadowing| f.status@ != "resolved"@ && f.status@ != "discarded"@;
    let line = |f: Foreshadowing|
        "- "@ + f.title@ + "("@ + f.status@ + "): "@ + match f.detail {
            Some(d) => d@,
            None => Seq::<char>::empty(),
        };
    if fs.len() == 0 {
        assert(fs.filter(keep) =~= Seq::<Foreshadowing>::empty());
        assert(fs.filter(keep).map_values(line) =~= Seq::<Seq<char>>::empty());
    } else {
        let init = fs.drop_last();
        law_open_foreshadowings(init);
        assert(init.push(fs.last()) =~= fs);
        init.lemma_filter_push(fs.last(), keep);
        if keep(fs.last()) {
            assert(init.filter(keep).push(fs.last()).map_values(line) =~= init.filter(keep).map_values(line).push(
                line(fs.last()),
            ));
            assert(line(fs.last()) == foreshadowing_line(fs.last()));
        }
    }
}

/// A block listing `lines`, when there is any line.
pub open spec fn list_block(label: Seq<char>, lines: Seq<Seq<char>>, included: bool) -> Seq<
    (Seq<char>, Seq<char>, bool),
> {
    if lines.len() > 0 {
        seq![(label, join(lines, "\n"@), included)]
    } else {
        Seq::empty()
    }
}

pub open spec fn question_block(q: Option<&str>) -> Seq<(Seq<char>, Seq<char>, bool)> {
    match q {
        Some(s) => if s@.len() > 0 {
            seq![("ユーザーの質問"@, s@, true)]
        } else {
            Seq::empty()
        },
        None => Seq::empty(),
    }
}

/// The candidate blocks for a chat, in this order: the project overview,
/// the current chapter, the current scene, the end of the current text,
/// the characters, the world entries, the open foreshadowings (these three
/// unchecked by default) and the user's question.
pub open spec fn chat_context(
    project: Option<&Project>,
    chapter: Option<&Chapter>,
    scene: Option<&Scene>,
    doc: Option<&Document>,
    characters: Seq<Character>,
    world_entries: Seq<WorldEntry>,
    foreshadowings: Seq<Foreshadowing>,
    question: Option<&str>,
) -> Seq<(Seq<char>, Seq<char>, bool)> {
    project_block(project) + chapter_block(chapter) + scene_block(scene) + text_block(doc) + list_block(
        "登場人物"@,
        characters.map_values(|c: Character| character_line(c)),
        false,
    ) + list_block("世界観設定"@, world_entries.map_values(|e: WorldEntry| world_line(e)), false)
        + list_block("未回収の伏線"@, open_foreshadowing_lines(foreshadowings), false) + question_block(
        question,
    )
}

/// Which document holds the text just before the cursor: the scene's when
/// a scene is selected, else the chapter's, as (owner type, owner id).
pub open spec fn text_owner(chapter_id: Option<&str>, scene_id: Option<&str>) -> Option<(Seq<char>, Seq<char>)> {
    match scene_id {
        Some(s) => Some(("scene"@, s@)),
        None => match chapter_id {
            Some(c) => Some(("chapter"@, c@)),
            None => None,
        },
    }
}

/// The document to read for the "直前本文" block (see `text_owner`).
pub fn context_document_owner(chapter_id: Option<&str>, scene_id: Option<&str>) -> (r: Option<(String, String)>)
    ensures
        match r {
            Some((t, id)) => text_owner(chapter_id, scene_id) == Some((t@, id@)),
            None => text_owner(chapter_id, scene_id) is None,
        },
{
    match scene_id {
        Some(s) => Some((String::from_str("scene"), String::from_str(s))),
        None => match chapter_id {
            Some(c) => Some((String::from_str("chapter"), String::from_str(c))),
            None => None,
        },
    }
}

fn project_content(p: &Project) -> (r: Vec<String>)
    ensures
        views(r@) == project_lines(*p),
{
    let mut lines: Vec<String> = Vec::new();
    push_labeled(&mut lines, "あらすじ: ", &p.synopsis);
    push_labeled(&mut lines, "テーマ: ", &p.theme);
    push_labeled(&mut lines, "コンセプト: ", &p.concept);
    push_labeled(&mut lines, "視点方針: ", &p.pov_policy);
    assert(views(lines@) =~= project_lines(*p));
    lines
}

fn titled_lines(title: &String) -> (r: Vec<String>)
    ensures
        views(r@) == seq!["タイトル: "@ + title@],
{
    let mut lines: Vec<String> = Vec::new();
    let mut l = String::from_str("タイトル: ");
    l.append(title.as_str());
    lines.push(l);
    assert(views(lines@) =~= seq!["タイトル: "@ + title@]);
    lines
}

/// The last `PRECEDING_TEXT_CHARS` characters of `body`.
pub fn excerpt_tail(body: &str) -> (r: String)
    ensures
        r@ == tail_excerpt(body@),
{
    let v = to_chars(body);
    let start = if v.len() > PRECEDING_TEXT_CHARS {
        v.len() - PRECEDING_TEXT_CHARS
    } else {
        0
    };
    let r = string_of_range(&v, start, v.len());
    assert(start == 0 ==> v@.subrange(0, v@.len() as int) =~= v@);
    r
}

fn character_line_text(c: &Character) -> (r: String)
    ensures
        r@ == character_line(*c),
{
    let mut l = String::from_str("- ");
    l.append(c.name.as_str());
    l.append("(");
    let role = or_empty_text(&c.role);
    l.append(role.as_str());
    l.append("): ");
    let personality = or_empty_text(&c.personality);
    l.append(personality.as_str());
    l
}

fn character_lines(cs: &[Character]) -> (r: Vec<String>)
    ensures
        views(r@) == cs@.map_values(|c: Character| character_line(c)),
{
    let mut out: Vec<String> = Vec::new();
    let mut i: usize = 0;
    while i < cs.len()
        invariant
            0 <= i <= cs@.len(),
            views(out@) == cs@.take(i as int).map_values(|c: Character| character_line(c)),
        decreases cs.len() - i,
    {
        let l = character_line_text(&cs[i]);
        let ghost before = out@;
        out.push(l);
        assert(cs@.take(i + 1) =~= cs@.take(i as int).push(cs@[i as int]));
        assert(views(out@) =~= views(before).push(l@));
        assert(views(out@) =~= cs@.take(i + 1).map_values(|c: Character| character_line(c)));
        i += 1;
    }
    assert(cs@.take(cs@.len() as int) =~= cs@);
    out
}

fn world_line_text(e: &WorldEntry) -> (r: String)
    ensures
        r@ == world_line(*e),
{
    let mut l = String::from_str("- ");
    l.append(e.name.as_str());
    l.append(": ");
    let summary = or_empty_text(&e.summary);
    l.append(summary.as_str());
    l
}

fn world_lines(es: &[WorldEntry]) -> (r: Vec<String>)
    ensures
        views(r@) == es@.map_values(|e: WorldEntry| world_line(e)),
{
    let mut out: Vec<String> = Vec::new();
    let mut i: usize = 0;
    while i < es.len()
        invariant
            0 <= i <= es@.len(),
            views(out@) == es@.take(i as int).map_values(|e: WorldEntry| world_line(e)),
        decreases es.len() - i,
    {
        let l = world_line_text(&es[i]);
        let ghost before = out@;
        out.push(l);
        assert(es@.take(i + 1) =~= es@.take(i as int).push(es@[i as int]));
        assert(views(out@) =~= views(before).push(l@));
        assert(views(out@) =~= es@.take(i + 1).map_values(|e: WorldEntry| world_line(e)));
        i += 1;
    }
    assert(es@.take(es@.len() as int) =~= es@);
    out
}

fn foreshadowing_line_text(f: &Foreshadowing) -> (r: String)
    ensures
        r@ == foreshadowing_line(*f),
{
    let mut l = String::from_str("- ");
    l.append(f.title.as_str());
    l.append("(");
    l.append(f.status.as_str());
    l.append("): ");
    let detail = or_empty_text(&f.detail);
    l.append(detail.as_str());
    l
}

fn open_foreshadowings(fs: &[Foreshadowing]) -> (r: Vec<String>)
    ensures
        views(r@) == open_foreshadowing_lines(fs@),
{
    let mut out: Vec<String> = Vec::new();
    let mut i: usize = 0;
    while i < fs.len()
        invariant
            0 <= i <= fs@.len(),
            views(out@) == open_foreshadowing_lines(fs@.take(i as int)),
        decreases fs.len() - i,
    {
        proof {
            assert(fs@.take(i + 1).drop_last() =~= fs@.take(i as int));
            assert(fs@.take(i + 1).last() == fs@[i as int]);
        }
        let f = &fs[i];
        if !str_eq(f.status.as_str(), "resolved") && !str_eq(f.status.as_str(), "discarded") {
            let l = foreshadowing_line_text(f);
            let ghost before = out@;
            out.push(l);
            assert(views(out@) =~= views(before).push(l@));
        }
        i += 1;
    }
    assert(fs@.take(fs@.len() as int) =~= fs@);
    out
}

fn push_list_block(blocks: &mut Vec<ContextBlock>, label: &str, lines: &Vec<String>, included: bool)
    requires
        counts_match(old(blocks)@),
    ensures
        counts_match(final(blocks)@),
        block_views(final(blocks)@) == block_views(old(blocks)@) + list_block(label@, views(lines@), included),
{
    if lines.len() > 0 {
        let content = join_strings(lines, "\n");
        push_block(blocks, label, content, included);
        assert(block_views(blocks@) =~= block_views(old(blocks)@) + list_block(label@, views(lines@), included));
    } else {
        assert(block_views(blocks@) =~= block_views(old(blocks)@) + list_block(label@, views(lines@), included));
    }
}

/// Builds the chat context from the records the caller fetched: the
/// project, the selected chapter and scene (when selected and found), the
/// document named by `context_document_owner` (when found), the project's
/// characters, world entries and foreshadowings, and the user's question.
pub fn build_context(
    project: Option<&Project>,
    chapter: Option<&Chapter>,
    scene: Option<&Scene>,
    doc: Option<&Document>,
    characters: &[Character],
    world_entries: &[WorldEntry],
    foreshadowings: &[Foreshadowing],
    user_question: Option<&str>,
) -> (r: Vec<ContextBlock>)
    ensures
        block_views(r@) == chat_context(
            project,
            chapter,
            scene,
            doc,
            characters@,
            world_entries@,
            foreshadowings@,
            user_question,
        ),
        counts_match(r@),
{
    let mut blocks: Vec<ContextBlock> = Vec::new();
    if let Some(p) = project {
        let lines = project_content(p);
        if lines.len() > 0 {
            let content = join_strings(&lines, "\n");
            push_block(&mut blocks, "作品概要", content, true);
        }
    }
    assert(block_views(blocks@) =~= project_block(project));
    let ghost b1 = block_views(blocks@);
    if let Some(c) = chapter {
        let mut lines = titled_lines(&c.title);
        push_labeled(&mut lines, "概要: ", &c.synopsis);
        push_labeled(&mut lines, "メモ: ", &c.memo);
        let content = join_strings(&lines, "\n");
        push_block(&mut blocks, "現在の章", content, true);
    }
    assert(block_views(blocks@) =~= b1 + chapter_block(chapter));
    let ghost b2 = block_views(blocks@);
    if let Some(s) = scene {
        let mut lines = titled_lines(&s.title);
        push_labeled(&mut lines, "概要: ", &s.summary);
        push_labeled(&mut lines, "目的: ", &s.purpose);
        push_labeled(&mut lines, "葛藤: ", &s.conflict);
        let content = join_strings(&lines, "\n");
        push_block(&mut blocks, "現在のシーン", content, true);
    }
    assert(block_views(blocks@) =~= b2 + scene_block(scene));
    let ghost b3 = block_views(blocks@);
    if let Some(d) = doc {
        if !d.body.as_str().is_empty() {
            let excerpt = excerpt_tail(d.body.as_str());
            push_block(&mut blocks, "直前本文", excerpt, true);
        }
    }
    assert(block_views(blocks@) =~= b3 + text_block(doc));
    let cl = character_lines(characters);
    push_list_block(&mut blocks, "登場人物", &cl, false);
    let wl = world_lines(world_entries);
    push_list_block(&mut blocks, "世界観設定", &wl, false);
    let fl = open_foreshadowings(foreshadowings);
    push_list_block(&mut blocks, "未回収の伏線", &fl, false);
    let ghost b4 = block_views(blocks@);
    if let Some(q) = user_question {
        if !q.is_empty() {
            push_block(&mut blocks, "ユーザーの質問", String::from_str(q), true);
        }
    }
    assert(block_views(blocks@) =~= b4 + question_block(user_question));
    assert(block_views(blocks@) =~= chat_context(
        project,
        chapter,
        scene,
        doc,
        characters@,
        world_entries@,
        foreshadowings@,
        user_question,
    ));
    blocks
}

pub open spec fn manuscript_scene(s: ExportScene) -> Seq<char> {
    if s.body@.len() > 0 {
        "#### "@ + s.title@ + "\n"@ + s.body@ + "\n"@
    } else {
        Seq::empty()
    }
}

/// A chapter of the whole manuscript: `### title`, the chapter's own body
/// and each scene with a body (`#### title` and the body), every body
/// followed by a newline; a chapter without any body is left out.
pub open spec fn manuscript_chapter(c: ExportChapter) -> Seq<char> {
    let own = match c.chapter_body {
        Some(b) => if b@.len() > 0 {
            b@ + "\n"@
        } else {
            Seq::empty()
        },
        None => Seq::empty(),
    };
    let rest = own + concat_map(c.scenes@, |s: ExportScene| manuscript_scene(s));
    if rest.len() > 0 {
        "### "@ + c.title@ + "\n"@ + rest
    } else {
        Seq::empty()
    }
}

pub open spec fn manuscript(cs: Seq<ExportChapter>) -> Seq<char> {
    concat_map(cs, |c: ExportChapter| manuscript_chapter(c))
}

fn append_manuscript_chapter(out: &mut String, c: &ExportChapter)
    ensures
        final(out)@ == old(out)@ + manuscript_chapter(*c),
{
    let mut section = String::new();
    if let Some(b) = &c.chapter_body {
        if !b.as_str().is_empty() {
            section.append(b.as_str());
            section.append("\n");
        }
    }
    let ghost own = section@;
    let ghost f = |s: ExportScene| manuscript_scene(s);
    let mut i: usize = 0;
    while i < c.scenes.len()
        invariant
            0 <= i <= c.scenes@.len(),
            section@ == own + concat_map(c.scenes@.take(i as int), f),
            f == (|s: ExportScene| manuscript_scene(s)),
        decreases c.scenes.len() - i,
    {
        proof {
            lemma_concat_map_step(c.scenes@, i as int, f);
        }
        let s = &c.scenes[i];
        if !s.body.as_str().is_empty() {
            section.append("#### ");
            section.append(s.title.as_str());
            section.append("\n");
            section.append(s.body.as_str());
            section.append("\n");
        }
        assert(section@ =~= own + concat_map(c.scenes@.take(i + 1), f));
        i += 1;
    }
    proof {
        lemma_take_all(c.scenes@);
    }
    if !section.as_str().is_empty() {
        out.append("### ");
        out.append(c.title.as_str());
        out.append("\n");
        out.append(section.as_str());
    }
    assert(out@ =~= old(out)@ + manuscript_chapter(*c));
}

/// The whole manuscript with chapter and scene headings (for the AI
/// analyses): see `manuscript_chapter`.
pub fn full_manuscript_text(chapters: &[ExportChapter]) -> (r: String)
    ensures
        r@ == manuscript(chapters@),
{
    let mut out = String::new();
    let ghost f = |c: ExportChapter| manuscript_chapter(c);
    let mut i: usize = 0;
    while i < chapters.len()
        invariant
            0 <= i <= chapters@.len(),
            out@ == concat_map(chapters@.take(i as int), f),
            f == (|c: ExportChapter| manuscript_chapter(c)),
        decreases chapters.len() - i,
    {
        proof {
            lemma_concat_map_step(chapters@, i as int, f);
        }
        append_manuscript_chapter(&mut out, &chapters[i]);
        i += 1;
    }
    proof {
        lemma_take_all(chapters@);
    }
    out
}


/// The analysis types that list the characters.
pub open spec fn lists_characters(ty: Seq<char>) -> bool {
    ty == "contradiction"@ || ty == "character_tone"@ || ty == "setting"@
}

/// The analysis types that list the world entries.
pub open spec fn lists_world(ty: Seq<char>) -> bool {
    ty == "contradiction"@ || ty == "setting"@
}

/// The analysis types that list the timeline.
pub open spec fn lists_timeline(ty: Seq<char>) -> bool {
    ty == "contradiction"@ || ty == "timeline"@
}

/// The analysis types that list the foreshadowings.
pub open spec fn lists_foreshadowing(ty: Seq<char>) -> bool {
    ty == "contradiction"@ || ty == "foreshadowing"@
}

pub open spec fn synopsis_block(project: Option<&Project>) -> Seq<(Seq<char>, Seq<char>, bool)> {
    match project {
        Some(p) => match p.synopsis {
            Some(v) => if v@.len() > 0 {
                seq![("作品概要"@, v@, true)]
            } else {
                Seq::empty()
            },
            None => Seq::empty(),
        },
        None => Seq::empty(),
    }
}

/// The speech profile of a character: name, personality, first and second
/// person, sentence ending, catchphrase and politeness, each when set.
pub open spec fn tone_lines(c: Character) -> Seq<Seq<char>> {
    seq!["名前: "@ + c.name@] + labeled("性格: "@, c.personality) + labeled("一人称: "@, c.first_person)
        + labeled("二人称: "@, c.second_person) + labeled("語尾: "@, c.speech_suffix) + labeled(
        "口癖: "@,
        c.catchphrase,
    ) + labeled("敬語レベル: "@, c.honorific_level)
}

pub open spec fn tone_block(ty: Seq<char>, character: Option<&Character>) -> Seq<(Seq<char>, Seq<char>, bool)> {
    match character {
        Some(c) => if ty == "character_tone"@ {
            seq![("対象キャラクター設定"@, join(tone_lines(*c), "\n"@), true)]
        } else {
            Seq::empty()
        },
        None => Seq::empty(),
    }
}

pub open spec fn world_detail_line(e: WorldEntry) -> Seq<char> {
    "- "@ + e.name@ + ": "@ + or_empty(e.summary) + " / "@ + or_empty(e.detail)
}

pub open spec fn event_line(e: TimelineEvent) -> Seq<char> {
    "- ["@ + or_empty(e.event_date) + "] "@ + e.title@ + ": "@ + or_empty(e.description)
}

/// `block` when `cond` holds, nothing otherwise.
pub open spec fn when(cond: bool, block: Seq<(Seq<char>, Seq<char>, bool)>) -> Seq<(Seq<char>, Seq<char>, bool)> {
    if cond {
        block
    } else {
        Seq::empty()
    }
}

/// The candidate blocks of an analysis of type `ty`, in this order: the
/// synopsis; for "character_tone", the target character's speech profile;
/// the characters (contradiction, character_tone, setting; unchecked for
/// character_tone); the world entries (contradiction, setting); the timeline
/// (contradiction, timeline); every foreshadowing (contradiction,
/// foreshadowing); for "style", the style statistics; and the whole
/// manuscript when it is not empty.
pub open spec fn analysis_context(
    project: Option<&Project>,
    ty: Seq<char>,
    character: Option<&Character>,
    characters: Seq<Character>,
    world_entries: Seq<WorldEntry>,
    events: Seq<TimelineEvent>,
    foreshadowings: Seq<Foreshadowing>,
    style_summary: Seq<char>,
    manuscript: Seq<char>,
) -> Seq<(Seq<char>, Seq<char>, bool)> {
    synopsis_block(project) + tone_block(ty, character) + record_lists(
        ty,
        characters,
        world_entries,
        events,
        foreshadowings,
    ) + when(ty == "style"@, seq![("文体統計"@, style_summary, true)]) + when(
        manuscript.len() > 0,
        seq![("作品全文"@, manuscript, true)],
    )
}

fn tone_content(c: &Character) -> (r: Vec<String>)
    ensures
        views(r@) == tone_lines(*c),
{
    let mut lines: Vec<String> = Vec::new();
    let mut l = String::from_str("名前: ");
    l.append(c.name.as_str());
    lines.push(l);
    push_labeled(&mut lines, "性格: ", &c.personality);
    push_labeled(&mut lines, "一人称: ", &c.first_person);
    push_labeled(&mut lines, "二人称: ", &c.second_person);
    push_labeled(&mut lines, "語尾: ", &c.speech_suffix);
    push_labeled(&mut lines, "口癖: ", &c.catchphrase);
    push_labeled(&mut lines, "敬語レベル: ", &c.honorific_level);
    assert(views(lines@) =~= tone_lines(*c));
    lines
}

fn world_detail_line_text(e: &WorldEntry) -> (r: String)
    ensures
        r@ == world_detail_line(*e),
{
    let mut l = String::from_str("- ");
    l.append(e.name.as_str());
    l.append(": ");
    let summary = or_empty_text(&e.summary);
    l.append(summary.as_str());
    l.append(" / ");
    let detail = or_empty_text(&e.detail);
    l.append(detail.as_str());
    l
}

fn world_detail_lines(es: &[WorldEntry]) -> (r: Vec<String>)
    ensures
        views(r@) == es@.map_values(|e: WorldEntry| world_detail_line(e)),
{
    let mut out: Vec<String> = Vec::new();
    let mut i: usize = 0;
    while i < es.len()
        invariant
            0 <= i <= es@.len(),
            views(out@) == es@.take(i as int).map_values(|e: WorldEntry| world_detail_line(e)),
        decreases es.len() - i,
    {
        let l = world_detail_line_text(&es[i]);
        let ghost before = out@;
        out.push(l);
        assert(es@.take(i + 1) =~= es@.take(i as int).push(es@[i as int]));
        assert(views(out@) =~= views(before).push(l@));
        assert(views(out@) =~= es@.take(i + 1).map_values(|e: WorldEntry| world_detail_line(e)));
        i += 1;
    }
    assert(es@.take(es@.len() as int) =~= es@);
    out
}

fn event_line_text(e: &TimelineEvent) -> (r: String)
    ensures
        r@ == event_line(*e),
{
    let mut l = String::from_str("- [");
    let date = or_empty_text(&e.event_date);
    l.append(date.as_str());
    l.append("] ");
    l.append(e.title.as_str());
    l.append(": ");
    let description = or_empty_text(&e.description);
    l.append(description.as_str());
    l
}

fn event_lines(es: &[TimelineEvent]) -> (r: Vec<String>)
    ensures
        views(r@) == es@.map_values(|e: TimelineEvent| event_line(e)),
{
    let mut out: Vec<String> = Vec::new();
    let mut i: usize = 0;
    while i < es.len()
        invariant
            0 <= i <= es@.len(),
            views(out@) == es@.take(i as int).map_values(|e: TimelineEvent| event_line(e)),
        decreases es.len() - i,
    {
        let l = event_line_text(&es[i]);
        let ghost before = out@;
        out.push(l);
        assert(es@.take(i + 1) =~= es@.take(i as int).push(es@[i as int]));
        assert(views(out@) =~= views(before).push(l@));
        assert(views(out@) =~= es@.take(i + 1).map_values(|e: TimelineEvent| event_line(e)));
        i += 1;
    }
    assert(es@.take(es@.len() as int) =~= es@);
    out
}

fn all_foreshadowing_lines(fs: &[Foreshadowing]) -> (r: Vec<String>)
    ensures
        views(r@) == fs@.map_values(|f: Foreshadowing| foreshadowing_line(f)),
{
    let mut out: Vec<String> = Vec::new();
    let mut i: usize = 0;
    while i < fs.len()
        invariant
            0 <= i <= fs@.len(),
            views(out@) == fs@.take(i as int).map_values(|f: Foreshadowing| foreshadowing_line(f)),
        decreases fs.len() - i,
    {
        let l = foreshadowing_line_text(&fs[i]);
        let ghost before = out@;
        out.push(l);
        assert(fs@.take(i + 1) =~= fs@.take(i as int).push(fs@[i as int]));
        assert(views(out@) =~= views(before).push(l@));
        assert(views(out@) =~= fs@.take(i + 1).map_values(|f: Foreshadowing| foreshadowing_line(f)));
        i += 1;
    }
    assert(fs@.take(fs@.len() as int) =~= fs@);
    out
}

fn push_profile_blocks(
    blocks: &mut Vec<ContextBlock>,
    project: Option<&Project>,
    analysis_type: &str,
    character: Option<&Character>,
)
    requires
        counts_match(old(blocks)@),
    ensures
        counts_match(final(blocks)@),
        block_views(final(blocks)@) == block_views(old(blocks)@) + synopsis_block(project) + tone_block(
            analysis_type@,
            character,
        ),
{
    let ghost b0 = block_views(blocks@);
    if let Some(p) = project {
        if let Some(v) = &p.synopsis {
            if !v.as_str().is_empty() {
                push_block(blocks, "作品概要", v.clone(), true);
            }
        }
    }
    assert(block_views(blocks@) =~= b0 + synopsis_block(project));
    let ghost b1 = block_views(blocks@);
    if str_eq(analysis_type, "character_tone") {
        if let Some(c) = character {
            let lines = tone_content(c);
            let content = join_strings(&lines, "\n");
            push_block(blocks, "対象キャラクター設定", content, true);
        }
    }
    assert(block_views(blocks@) =~= b1 + tone_block(analysis_type@, character));
}

/// The record lists of an analysis (see `analysis_context`).
pub open spec fn record_lists(
    ty: Seq<char>,
    characters: Seq<Character>,
    world_entries: Seq<WorldEntry>,
    events: Seq<TimelineEvent>,
    foreshadowings: Seq<Foreshadowing>,
) -> Seq<(Seq<char>, Seq<char>, bool)> {
    when(
        lists_characters(ty),
        list_block("登場人物"@, characters.map_values(|c: Character| character_line(c)), ty != "character_tone"@),
    ) + when(
        lists_world(ty),
        list_block("世界観設定"@, world_entries.map_values(|e: WorldEntry| world_detail_line(e)), true),
    ) + when(lists_timeline(ty), list_block("時系列"@, events.map_values(|e: TimelineEvent| event_line(e)), true))
        + when(
        lists_foreshadowing(ty),
        list_block("伏線一覧"@, foreshadowings.map_values(|f: Foreshadowing| foreshadowing_line(f)), true),
    )
}

/// The character and world lists of an analysis (see `analysis_context`).
pub open spec fn people_lists(ty: Seq<char>, characters: Seq<Character>, world_entries: Seq<WorldEntry>) -> Seq<
    (Seq<char>, Seq<char>, bool),
> {
    when(
        lists_characters(ty),
        list_block("登場人物"@, characters.map_values(|c: Character| character_line(c)), ty != "character_tone"@),
    ) + when(
        lists_world(ty),
        list_block("世界観設定"@, world_entries.map_values(|e: WorldEntry| world_detail_line(e)), true),
    )
}

/// The timeline and foreshadowing lists of an analysis.
pub open spec fn story_lists(ty: Seq<char>, events: Seq<TimelineEvent>, foreshadowings: Seq<Foreshadowing>) -> Seq<
    (Seq<char>, Seq<char>, bool),
> {
    when(lists_timeline(ty), list_block("時系列"@, events.map_values(|e: TimelineEvent| event_line(e)), true))
        + when(
        lists_foreshadowing(ty),
        list_block("伏線一覧"@, foreshadowings.map_values(|f: Foreshadowing| foreshadowing_line(f)), true),
    )
}

fn push_people_lists(
    blocks: &mut Vec<ContextBlock>,
    analysis_type: &str,
    characters: &[Character],
    world_entries: &[WorldEntry],
)
    requires
        counts_match(old(blocks)@),
    ensures
        counts_match(final(blocks)@),
        block_views(final(blocks)@) == block_views(old(blocks)@) + people_lists(
            analysis_type@,
            characters@,
            world_entries@,
        ),
{
    let ghost ty = analysis_type@;
    let ghost b0 = block_views(blocks@);
    let is_tone = str_eq(analysis_type, "character_tone");
    let is_contradiction = str_eq(analysis_type, "contradiction");
    let is_setting = str_eq(analysis_type, "setting");
    if is_contradiction || is_tone || is_setting {
        let cl = character_lines(characters);
        push_list_block(blocks, "登場人物", &cl, !is_tone);
    }
    let ghost b1 = block_views(blocks@);
    assert(b1 =~= b0 + when(
        lists_characters(ty),
        list_block("登場人物"@, characters@.map_values(|c: Character| character_line(c)), ty != "character_tone"@),
    ));
    if is_contradiction || is_setting {
        let wl = world_detail_lines(world_entries);
        push_list_block(blocks, "世界観設定", &wl, true);
    }
    assert(block_views(blocks@) =~= b1 + when(
        lists_world(ty),
        list_block("世界観設定"@, world_entries@.map_values(|e: WorldEntry| world_detail_line(e)), true),
    ));
    assert(block_views(blocks@) =~= b0 + people_lists(ty, characters@, world_entries@));
}

fn push_story_lists(
    blocks: &mut Vec<ContextBlock>,
    analysis_type: &str,
    events: &[TimelineEvent],
    foreshadowings: &[Foreshadowing],
)
    requires
        counts_match(old(blocks)@),
    ensures
        counts_match(final(blocks)@),
        block_views(final(blocks)@) == block_views(old(blocks)@) + story_lists(
            analysis_type@,
            events@,
            foreshadowings@,
        ),
{
    let ghost ty = analysis_type@;
    let ghost b0 = block_views(blocks@);
    let is_contradiction = str_eq(analysis_type, "contradiction");
    if is_contradiction || str_eq(analysis_type, "timeline") {
        let el = event_lines(events);
        push_list_block(blocks, "時系列", &el, true);
    }
    let ghost b1 = block_views(blocks@);
    assert(b1 =~= b0 + when(
        lists_timeline(ty),
        list_block("時系列"@, events@.map_values(|e: TimelineEvent| event_line(e)), true),
    ));
    if is_contradiction || str_eq(analysis_type, "foreshadowing") {
        let fl = all_foreshadowing_lines(foreshadowings);
        push_list_block(blocks, "伏線一覧", &fl, true);
    }
    assert(block_views(blocks@) =~= b1 + when(
        lists_foreshadowing(ty),
        list_block("伏線一覧"@, foreshadowings@.map_values(|f: Foreshadowing| foreshadowing_line(f)), true),
    ));
    assert(block_views(blocks@) =~= b0 + story_lists(ty, events@, foreshadowings@));
}

fn push_record_lists(
    blocks: &mut Vec<ContextBlock>,
    analysis_type: &str,
    characters: &[Character],
    world_entries: &[WorldEntry],
    events: &[TimelineEvent],
    foreshadowings: &[Foreshadowing],
)
    requires
        counts_match(old(blocks)@),
    ensures
        counts_match(final(blocks)@),
        block_views(final(blocks)@) == block_views(old(blocks)@) + record_lists(
            analysis_type@,
            characters@,
            world_entries@,
            events@,
            foreshadowings@,
        ),
{
    let ghost b0 = block_views(blocks@);
    push_people_lists(blocks, analysis_type, characters, world_entries);
    push_story_lists(blocks, analysis_type, events, foreshadowings);
    assert(block_views(blocks@) =~= b0 + record_lists(
        analysis_type@,
        characters@,
        world_entries@,
        events@,
        foreshadowings@,
    ));
}

fn push_text_blocks(blocks: &mut Vec<ContextBlock>, analysis_type: &str, style_summary: &str, manuscript: &str)
    requires
        counts_match(old(blocks)@),
    ensures
        counts_match(final(blocks)@),
        block_views(final(blocks)@) == block_views(old(blocks)@) + when(
            analysis_type@ == "style"@,
            seq![("文体統計"@, style_summary@, true)],
        ) + when(manuscript@.len() > 0, seq![("作品全文"@, manuscript@, true)]),
{
    let ghost b0 = block_views(blocks@);
    if str_eq(analysis_type, "style") {
        push_block(blocks, "文体統計", String::from_str(style_summary), true);
    }
    let ghost b1 = block_views(blocks@);
    assert(b1 =~= b0 + when(analysis_type@ == "style"@, seq![("文体統計"@, style_summary@, true)]));
    if !manuscript.is_empty() {
        push_block(blocks, "作品全文", String::from_str(manuscript), true);
    }
    assert(block_views(blocks@) =~= b1 + when(manuscript@.len() > 0, seq![("作品全文"@, manuscript@, true)]));
}

/// Builds the candidate blocks of an AI analysis of type `analysis_type`
/// from the records the caller fetched: the project, the target character
/// (read only for "character_tone"), the project's characters, world
/// entries, timeline and foreshadowings, the style statistics of the
/// manuscript as text (read only for "style"), and the whole manuscript
/// (`full_manuscript_text`).
pub fn build_analysis_context(
    project: Option<&Project>,
    analysis_type: &str,
    character: Option<&Character>,
    characters: &[Character],
    world_entries: &[WorldEntry],
    events: &[TimelineEvent],
    foreshadowings: &[Foreshadowing],
    style_summary: &str,
    manuscript: &str,
) -> (r: Vec<ContextBlock>)
    ensures
        block_views(r@) == analysis_context(
            project,
            analysis_type@,
            character,
            characters@,
            world_entries@,
            events@,
            foreshadowings@,
            style_summary@,
            manuscript@,
        ),
        counts_match(r@),
{
    let mut blocks: Vec<ContextBlock> = Vec::new();
    push_profile_blocks(&mut blocks, project, analysis_type, character);
    let ghost b1 = block_views(blocks@);
    push_record_lists(&mut blocks, analysis_type, characters, world_entries, events, foreshadowings);
    let ghost b2 = block_views(blocks@);
    push_text_blocks(&mut blocks, analysis_type, style_summary, manuscript);
    assert(block_views(blocks@) =~= analysis_context(
        project,
        analysis_type@,
        character,
        characters@,
        world_entries@,
        events@,
        foreshadowings@,
        style_summary@,
        manuscript@,
    ));
    blocks
}

} // verus!
