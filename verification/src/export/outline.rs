//! The outline of an HTML export, counted: every chapter gives one `<h2>`,
//! every scene with a title one `<h3>`, and the author line stands once
//! exactly when there is an author. Escaped text and paragraphs never
//! open such a tag.
use vstd::prelude::*;
use super::escape::{
    body_paragraphs, escaped, is_markup_char, law_escaped_text_is_inert, markup_char, paragraph, render_nonblank,
    Markup,
};
use super::html::{html_body, html_chapter, html_document, html_scene, HTML_HEAD, HTML_STYLE, HTML_TAIL};
use super::{author_of, ExportChapter, ExportScene};
use crate::models::Project;
use crate::text::{blank_line_pieces, concat_map, has_infix, has_suffix, join, occurs_at, trim};

verus! {

/// How many times `p` occurs in `s`, each occurrence counted where it ends.
pub open spec fn occurrences(s: Seq<char>, p: Seq<char>) -> nat
    decreases s.len(),
{
    if s.len() == 0 {
        0
    } else {
        occurrences(s.drop_last(), p) + if has_suffix(s, p) {
            1nat
        } else {
            0nat
        }
    }
}

/// No occurrence of `p` in `a + b` starts in `a` and ends in `b`.
pub open spec fn joins_cleanly(a: Seq<char>, b: Seq<char>, p: Seq<char>) -> bool {
    forall|m: int| #![trigger b.take(m)] 0 < m < p.len() && m <= b.len() ==> !has_suffix(a + b.take(m), p)
}

/// Occurrences add up over a concatenation that no occurrence straddles.
pub proof fn lemma_occurrences_concat(a: Seq<char>, b: Seq<char>, p: Seq<char>)
    requires
        p.len() > 0,
        joins_cleanly(a, b, p),
    ensures
        occurrences(a + b, p) == occurrences(a, p) + occurrences(b, p),
    decreases b.len(),
{
    if b.len() == 0 {
        assert(a + b =~= a);
    } else {
        let b1 = b.drop_last();
        assert forall|m: int| #![trigger b1.take(m)] 0 < m < p.len() && m <= b1.len() implies !has_suffix(
            a + b1.take(m),
            p,
        ) by {
            assert(b1.take(m) =~= b.take(m));
        }
        lemma_occurrences_concat(a, b1, p);
        assert((a + b).drop_last() =~= a + b1);
        if b.len() >= p.len() {
            assert((a + b).subrange((a + b).len() - p.len(), (a + b).len() as int) =~= b.subrange(
                b.len() - p.len(),
                b.len() as int,
            ));
        } else {
            assert(b.take(b.len() as int) =~= b);
            assert(!has_suffix(a + b.take(b.len() as int), p));
        }
    }
}

/// Nothing straddles the end of `a` when its last character is not one
/// that `p` has before its end.
pub proof fn lemma_clean_after(a: Seq<char>, b: Seq<char>, p: Seq<char>)
    requires
        p.len() > 0,
        a.len() == 0 || forall|k: int| 0 <= k < p.len() - 1 ==> a.last() != #[trigger] p[k],
    ensures
        joins_cleanly(a, b, p),
{
    assert forall|m: int| #![trigger b.take(m)] 0 < m < p.len() && m <= b.len() implies !has_suffix(
        a + b.take(m),
        p,
    ) by {
        let s = a + b.take(m);
        if has_suffix(s, p) {
            let start = s.len() - p.len();
            let k = a.len() - 1 - start;
            assert(s.subrange(start, s.len() as int)[k] == s[a.len() - 1]);
            assert(p[k] == a.last());
        }
    }
}

/// Nothing straddles the start of `b` when its first character is not one
/// that `p` has after its start.
pub proof fn lemma_clean_before(a: Seq<char>, b: Seq<char>, p: Seq<char>)
    requires
        p.len() > 0,
        b.len() == 0 || forall|k: int| 1 <= k < p.len() ==> b[0] != #[trigger] p[k],
    ensures
        joins_cleanly(a, b, p),
{
    assert forall|m: int| #![trigger b.take(m)] 0 < m < p.len() && m <= b.len() implies !has_suffix(
        a + b.take(m),
        p,
    ) by {
        let s = a + b.take(m);
        if has_suffix(s, p) {
            let start = s.len() - p.len();
            let k = a.len() - start;
            assert(s.subrange(start, s.len() as int)[k] == s[a.len() as int]);
            assert(p[k] == b[0]);
        }
    }
}

/// A text shorter than `p` holds no occurrence of it.
pub proof fn lemma_occurrences_short(s: Seq<char>, p: Seq<char>)
    requires
        s.len() < p.len(),
    ensures
        occurrences(s, p) == 0,
    decreases s.len(),
{
    if s.len() > 0 {
        lemma_occurrences_short(s.drop_last(), p);
    }
}

/// `p` occurs once in itself.
pub proof fn lemma_occurrences_self(p: Seq<char>)
    requires
        p.len() > 0,
    ensures
        occurrences(p, p) == 1,
{
    lemma_occurrences_short(p.drop_last(), p);
    assert(p.subrange(0, p.len() as int) =~= p);
}

/// The three characters `t` stand in `s` from `i`.
pub open spec fn triple_at(s: Seq<char>, t: Seq<char>, i: int) -> bool {
    s[i] == t[0] && s[i + 1] == t[1] && s[i + 2] == t[2]
}

/// The three characters `t` stand nowhere in `s`.
pub open spec fn no_triple(s: Seq<char>, t: Seq<char>) -> bool {
    forall|i: int| 0 <= i < s.len() - 2 ==> !#[trigger] triple_at(s, t, i)
}

/// `s` holds no `t` and does not end with the start of one: no text that
/// begins with `t` can begin in `s`, whatever follows it.
pub open spec fn opens_no(s: Seq<char>, t: Seq<char>) -> bool {
    &&& no_triple(s, t)
    &&& s.len() > 0 ==> s.last() != t[0]
    &&& s.len() > 1 ==> !(s[s.len() - 2] == t[0] && s.last() == t[1])
}

/// A text without `t` holds no occurrence of a `p` that starts with `t`.
pub proof fn lemma_no_triple_count(s: Seq<char>, t: Seq<char>, p: Seq<char>)
    requires
        p.len() >= 3,
        t.len() == 3,
        p[0] == t[0] && p[1] == t[1] && p[2] == t[2],
        no_triple(s, t),
    ensures
        occurrences(s, p) == 0,
    decreases s.len(),
{
    if s.len() > 0 {
        let s1 = s.drop_last();
        assert forall|i: int| 0 <= i < s1.len() - 2 implies !#[trigger] triple_at(s1, t, i) by {
            assert(triple_at(s1, t, i) == triple_at(s, t, i));
        }
        lemma_no_triple_count(s1, t, p);
        if has_suffix(s, p) {
            let st = s.len() - p.len();
            let w = s.subrange(st, s.len() as int);
            assert(w[0] == s[st] && w[1] == s[st + 1] && w[2] == s[st + 2]);
            assert(triple_at(s, t, st));
        }
    }
}

/// A text without `t` holds no occurrence of a `p` that has `t` at `k`.
pub proof fn lemma_window_count(s: Seq<char>, t: Seq<char>, p: Seq<char>, k: int)
    requires
        0 <= k,
        k + 3 <= p.len(),
        t.len() == 3,
        p[k] == t[0] && p[k + 1] == t[1] && p[k + 2] == t[2],
        no_triple(s, t),
    ensures
        occurrences(s, p) == 0,
    decreases s.len(),
{
    if s.len() > 0 {
        let s1 = s.drop_last();
        assert forall|i: int| 0 <= i < s1.len() - 2 implies !#[trigger] triple_at(s1, t, i) by {
            assert(triple_at(s1, t, i) == triple_at(s, t, i));
        }
        lemma_window_count(s1, t, p, k);
        if has_suffix(s, p) {
            let st = s.len() - p.len();
            let w = s.subrange(st, s.len() as int);
            assert(w[k] == s[st + k] && w[k + 1] == s[st + k + 1] && w[k + 2] == s[st + k + 2]);
            assert(triple_at(s, t, st + k));
        }
    }
}

/// `opens_no` holds of a concatenation of parts that have it.
pub proof fn lemma_opens_no_concat(a: Seq<char>, b: Seq<char>, t: Seq<char>)
    requires
        t.len() == 3,
        opens_no(a, t),
        opens_no(b, t),
    ensures
        opens_no(a + b, t),
{
    let s = a + b;
    assert forall|i: int| 0 <= i < s.len() - 2 implies !#[trigger] triple_at(s, t, i) by {
        if i + 2 < a.len() {
            assert(triple_at(s, t, i) == triple_at(a, t, i));
        } else if i >= a.len() {
            assert(triple_at(s, t, i) == triple_at(b, t, i - a.len()));
        } else if i == a.len() - 2 {
            assert(s[i] == a[a.len() - 2] && s[i + 1] == a.last());
        } else {
            assert(s[i] == a.last());
        }
    }
    if b.len() == 0 {
        assert(s =~= a);
    } else if b.len() == 1 {
        assert(s.last() == b.last());
        if a.len() > 0 {
            assert(s[s.len() - 2] == a.last());
        }
    } else {
        assert(s.last() == b.last());
        assert(s[s.len() - 2] == b[b.len() - 2]);
    }
}

/// Text escaped for HTML holds no `<`, so it opens no tag.
pub proof fn lemma_escaped_opens_no(s: Seq<char>, t: Seq<char>)
    requires
        t.len() == 3,
        t[0] == '<',
    ensures
        opens_no(escaped(Markup::Html, s), t),
{
    law_escaped_text_is_inert(Markup::Html, s);
    let e = escaped(Markup::Html, s);
    assert forall|i: int| 0 <= i < e.len() - 2 implies !#[trigger] triple_at(e, t, i) by {
        assert(!is_markup_char(e[i]));
    }
    if e.len() > 0 {
        assert(!is_markup_char(e[e.len() - 1]));
    }
}

/// What one character of paragraph text becomes opens no tag but `<br>`.
proof fn lemma_break_unit_opens_no(c: char, t: Seq<char>)
    requires
        t.len() == 3,
        t[0] == '<',
        t[1] != 'b',
    ensures
        opens_no(markup_char(Markup::HtmlBreaks, c), t),
{
    reveal_strlit("&amp;");
    reveal_strlit("&lt;");
    reveal_strlit("&gt;");
    reveal_strlit("&quot;");
    reveal_strlit("<br>");
    let u = markup_char(Markup::HtmlBreaks, c);
    assert forall|i: int| 0 <= i < u.len() - 2 implies !#[trigger] triple_at(u, t, i) by {
        if c == '\n' {
            assert(u =~= "<br>"@);
            assert(u[1] == 'b');
        }
    }
}

/// Paragraph text with its line breaks marked opens no tag but `<br>`.
pub proof fn lemma_breaks_opens_no(s: Seq<char>, t: Seq<char>)
    requires
        t.len() == 3,
        t[0] == '<',
        t[1] != 'b',
    ensures
        opens_no(escaped(Markup::HtmlBreaks, s), t),
    decreases s.len(),
{
    if s.len() == 0 {
        assert(escaped(Markup::HtmlBreaks, s) =~= Seq::<char>::empty());
    } else {
        lemma_breaks_opens_no(s.drop_last(), t);
        lemma_break_unit_opens_no(s.last(), t);
        let prev = escaped(Markup::HtmlBreaks, s.drop_last());
        let unit = markup_char(Markup::HtmlBreaks, s.last());
        assert(escaped(Markup::HtmlBreaks, s) == prev + unit);
        lemma_opens_no_concat(prev, unit, t);
    }
}

/// A paragraph opens no tag that starts with `t`, for `t` that is not the
/// start of `<p>` or `<br>`.
pub proof fn lemma_paragraph_opens_no(x: Seq<char>, t: Seq<char>)
    requires
        t.len() == 3,
        t[0] == '<',
        t[1] != 'b',
        t[1] != '/',
        t[1] == 'p' ==> t[2] != '>',
    ensures
        opens_no(paragraph(Markup::HtmlBreaks, x), t),
{
    reveal_strlit("<p>");
    reveal_strlit("</p>");
    let open_p = "<p>"@;
    let close_p = "</p>"@;
    assert forall|i: int| 0 <= i < open_p.len() - 2 implies !#[trigger] triple_at(open_p, t, i) by {}
    assert forall|i: int| 0 <= i < close_p.len() - 2 implies !#[trigger] triple_at(close_p, t, i) by {}
    lemma_breaks_opens_no(trim(x), t);
    lemma_opens_no_concat(open_p, escaped(Markup::HtmlBreaks, trim(x)), t);
    lemma_opens_no_concat(open_p + escaped(Markup::HtmlBreaks, trim(x)), close_p, t);
}

/// Parts that open no tag, joined by line breaks, open none either.
pub proof fn lemma_join_opens_no(parts: Seq<Seq<char>>, t: Seq<char>)
    requires
        t.len() == 3,
        t[0] == '<',
        forall|i: int| 0 <= i < parts.len() ==> opens_no(#[trigger] parts[i], t),
    ensures
        opens_no(join(parts, "\n"@), t),
    decreases parts.len(),
{
    reveal_strlit("\n");
    if parts.len() == 0 {
        assert(join(parts, "\n"@) =~= Seq::<char>::empty());
    } else if parts.len() == 1 {
        assert(opens_no(parts[0], t));
    } else {
        let rest = parts.drop_last();
        assert forall|i: int| 0 <= i < rest.len() implies opens_no(#[trigger] rest[i], t) by {
            assert(rest[i] == parts[i]);
        }
        lemma_join_opens_no(rest, t);
        assert(opens_no("\n"@, t));
        assert(opens_no(parts.last(), t));
        lemma_opens_no_concat(join(rest, "\n"@), "\n"@, t);
        lemma_opens_no_concat(join(rest, "\n"@) + "\n"@, parts.last(), t);
    }
}

/// Every rendered piece opens no tag when the rendering never does.
pub proof fn lemma_render_opens_no(ps: Seq<Seq<char>>, f: spec_fn(Seq<char>) -> Seq<char>, t: Seq<char>)
    requires
        forall|x: Seq<char>| opens_no(#[trigger] f(x), t),
    ensures
        forall|i: int| 0 <= i < render_nonblank(ps, f).len() ==> opens_no(#[trigger] render_nonblank(ps, f)[i], t),
    decreases ps.len(),
{
    if ps.len() > 0 {
        lemma_render_opens_no(ps.drop_last(), f, t);
        let prev = render_nonblank(ps.drop_last(), f);
        assert(opens_no(f(ps.last()), t));
        let r = render_nonblank(ps, f);
        assert forall|i: int| 0 <= i < r.len() implies opens_no(#[trigger] r[i], t) by {
            if i < prev.len() {
                assert(r[i] == prev[i]);
            } else {
                assert(r[i] == f(ps.last()));
            }
        }
    }
}

/// A body rendered as paragraphs opens no heading and no author line.
pub proof fn lemma_body_opens_no(b: Seq<char>, t: Seq<char>)
    requires
        t.len() == 3,
        t[0] == '<',
        t[1] != 'b',
        t[1] != '/',
        t[1] == 'p' ==> t[2] != '>',
    ensures
        opens_no(body_paragraphs(Markup::HtmlBreaks, b), t),
{
    let f = |x: Seq<char>| paragraph(Markup::HtmlBreaks, x);
    assert forall|x: Seq<char>| opens_no(#[trigger] f(x), t) by {
        lemma_paragraph_opens_no(x, t);
    }
    let ps = blank_line_pieces(b);
    lemma_render_opens_no(ps, f, t);
    lemma_join_opens_no(render_nonblank(ps, f), t);
    assert(body_paragraphs(Markup::HtmlBreaks, b) == join(render_nonblank(ps, f), "\n"@));
}

/// The tags whose count the outline gives: the chapter heading, the scene
/// heading and the opening of the author line.
pub open spec fn is_outline_tag(p: Seq<char>) -> bool {
    p == "<h2>"@ || p == "<h3>"@ || p == "<p class=\"author\">"@
}

proof fn lemma_tag_facts(p: Seq<char>)
    requires
        is_outline_tag(p),
    ensures
        p.len() >= 4,
        p.take(3).len() == 3,
        p[0] == '<',
        p[1] != 'b',
        p[1] != '/',
        p[1] == 'p' ==> p[2] != '>',
        forall|k: int| 0 <= k < p.len() - 1 ==> #[trigger] p[k] != '>' && p[k] != '\n',
        forall|k: int| 1 <= k < p.len() ==> #[trigger] p[k] != '<' && p[k] != '\n',
{
    reveal_strlit("<h2>");
    reveal_strlit("<h3>");
    reveal_strlit("<p class=\"author\">");
}

/// The literal pieces of the page between the tags hold no outline tag;
/// each tag literal holds itself once.
#[verifier::spinoff_prover]
proof fn lemma_small_literals(p: Seq<char>)
    requires
        is_outline_tag(p),
    ensures
        occurrences("<h1>"@, p) == 0,
        occurrences("</h1>\n"@, p) == 0,
        occurrences("</h2>\n"@, p) == 0,
        occurrences("</h3>\n"@, p) == 0,
        occurrences("</p>\n"@, p) == 0,
        occurrences("\n"@, p) == 0,
        occurrences("<h2>"@, p) == (if p == "<h2>"@ { 1nat } else { 0nat }),
        occurrences("<h3>"@, p) == (if p == "<h3>"@ { 1nat } else { 0nat }),
        occurrences("<p class=\"author\">"@, p) == (if p == "<p class=\"author\">"@ { 1nat } else { 0nat }),
{
    lemma_tag_facts(p);
    let t = p.take(3);
    reveal_strlit("<h1>");
    reveal_strlit("</h1>\n");
    reveal_strlit("</h2>\n");
    reveal_strlit("</h3>\n");
    reveal_strlit("</p>\n");
    reveal_strlit("\n");
    reveal_strlit("<h2>");
    reveal_strlit("<h3>");
    reveal_strlit("<p class=\"author\">");
    assert(no_triple("<h1>"@, t));
    lemma_no_triple_count("<h1>"@, t, p);
    assert(no_triple("</h1>\n"@, t));
    lemma_no_triple_count("</h1>\n"@, t, p);
    assert(no_triple("</h2>\n"@, t));
    lemma_no_triple_count("</h2>\n"@, t, p);
    assert(no_triple("</h3>\n"@, t));
    lemma_no_triple_count("</h3>\n"@, t, p);
    assert(no_triple("</p>\n"@, t));
    lemma_no_triple_count("</p>\n"@, t, p);
    lemma_occurrences_short("\n"@, p);
    if p == "<h2>"@ {
        lemma_occurrences_self(p);
    } else {
        assert(no_triple("<h2>"@, t));
        lemma_no_triple_count("<h2>"@, t, p);
    }
    if p == "<h3>"@ {
        lemma_occurrences_self(p);
    } else {
        assert(no_triple("<h3>"@, t));
        lemma_no_triple_count("<h3>"@, t, p);
    }
    if p == "<p class=\"author\">"@ {
        lemma_occurrences_self(p);
    } else {
        assert(no_triple("<p class=\"author\">"@, t));
        lemma_no_triple_count("<p class=\"author\">"@, t, p);
    }
}

/// The page template holds no outline tag.
#[verifier::spinoff_prover]
proof fn lemma_template_literals(p: Seq<char>)
    requires
        is_outline_tag(p),
    ensures
        occurrences(HTML_HEAD@, p) == 0,
        occurrences(HTML_STYLE@, p) == 0,
        occurrences(HTML_TAIL@, p) == 0,
        HTML_HEAD@.len() > 0 && HTML_HEAD@.last() == '>',
        HTML_STYLE@.len() > 0 && HTML_STYLE@[0] == '<',
        HTML_TAIL@.len() > 0 && HTML_TAIL@[0] == '\n',
{
    lemma_tag_facts(p);
    let t = p.take(3);
    reveal_strlit("<!DOCTYPE html>\n<html lang=\"ja\">\n<head>\n<meta charset=\"UTF-8\">\n<title>");
    reveal_strlit("</title>\n<style>\n  body { font-family: \"Noto Serif JP\", \"Hiragino Mincho ProN\", serif; line-height: 2; max-width: 720px; margin: 40px auto; padding: 0 16px; color: #222; }\n  h1 { font-size: 1.8em; border-bottom: 2px solid #333; padding-bottom: 8px; }\n  h2 { font-size: 1.4em; margin-top: 2.5em; }\n  h3 { font-size: 1.1em; color: #555; }\n  p.author { color: #666; margin-top: -0.5em; }\n  p { margin: 0 0 1em; text-indent: 1em; }\n</style>\n</head>\n<body>\n");
    reveal_strlit("\n</body>\n</html>\n");
    let (a, b, c) = (t[0], t[1], t[2]);
    reveal_strlit("<h2>");
    reveal_strlit("<h3>");
    reveal_strlit("<p class=\"author\">");
    assert(a == '<' && ((b == 'h' && (c == '2' || c == '3')) || (b == 'p' && c == ' ')));
    lemma_template_free(HTML_HEAD@, a, b, c);
    lemma_template_free(HTML_STYLE@, a, b, c);
    lemma_template_free(HTML_TAIL@, a, b, c);
    lemma_no_triple_count(HTML_HEAD@, t, p);
    lemma_no_triple_count(HTML_STYLE@, t, p);
    lemma_no_triple_count(HTML_TAIL@, t, p);
}

/// A piece of the page template holds none of the outline tags' openings.
proof fn lemma_template_free(s: Seq<char>, a: char, b: char, c: char)
    requires
        s == HTML_HEAD@ || s == HTML_STYLE@ || s == HTML_TAIL@,
        a == '<' && ((b == 'h' && (c == '2' || c == '3')) || (b == 'p' && c == ' ')),
    ensures
        forall|t: Seq<char>| t.len() == 3 && t[0] == a && t[1] == b && t[2] == c ==> #[trigger] no_triple(s, t),
{
    reveal_strlit("<!DOCTYPE html>\n<html lang=\"ja\">\n<head>\n<meta charset=\"UTF-8\">\n<title>");
    reveal_strlit("</title>\n<style>\n  body { font-family: \"Noto Serif JP\", \"Hiragino Mincho ProN\", serif; line-height: 2; max-width: 720px; margin: 40px auto; padding: 0 16px; color: #222; }\n  h1 { font-size: 1.8em; border-bottom: 2px solid #333; padding-bottom: 8px; }\n  h2 { font-size: 1.4em; margin-top: 2.5em; }\n  h3 { font-size: 1.1em; color: #555; }\n  p.author { color: #666; margin-top: -0.5em; }\n  p { margin: 0 0 1em; text-indent: 1em; }\n</style>\n</head>\n<body>\n");
    reveal_strlit("\n</body>\n</html>\n");
    if b == 'h' {
        assert(forall|i: int| 0 <= i < s.len() - 2 ==> !(#[trigger] s[i] == '<' && s[i + 1] == 'h' && (s[i + 2] == '2' || s[i + 2] == '3')));
    } else {
        assert(forall|i: int| 0 <= i < s.len() - 2 ==> !(#[trigger] s[i] == '<' && s[i + 1] == 'p' && s[i + 2] == ' '));
    }
}

/// The scenes among `ss` that have a title.
pub open spec fn titled(ss: Seq<ExportScene>) -> nat
    decreases ss.len(),
{
    if ss.len() == 0 {
        0
    } else {
        titled(ss.drop_last()) + if ss.last().title@.len() > 0 {
            1nat
        } else {
            0nat
        }
    }
}

/// The scenes with a title, over all the chapters `cs`.
pub open spec fn titled_scenes(cs: Seq<ExportChapter>) -> nat
    decreases cs.len(),
{
    if cs.len() == 0 {
        0
    } else {
        titled_scenes(cs.drop_last()) + titled(cs.last().scenes@)
    }
}

#[verifier::spinoff_prover]
proof fn lemma_scene_count(s: ExportScene, p: Seq<char>)
    requires
        is_outline_tag(p),
    ensures
        occurrences(html_scene(s), p) == (if p == "<h3>"@ && s.title@.len() > 0 { 1nat } else { 0nat }),
        html_scene(s).len() > 0,
        html_scene(s).last() == '\n',
{
    lemma_tag_facts(p);
    lemma_small_literals(p);
    let t = p.take(3);
    let e = escaped(Markup::Html, s.title@);
    lemma_escaped_opens_no(s.title@, t);
    lemma_no_triple_count(e, t, p);
    let bp = body_paragraphs(Markup::HtmlBreaks, s.body@);
    lemma_body_opens_no(s.body@, t);
    lemma_no_triple_count(bp, t, p);
    reveal_strlit("<h3>");
    reveal_strlit("</h3>\n");
    reveal_strlit("\n");
    let head = if s.title@.len() > 0 {
        "<h3>"@ + e + "</h3>\n"@
    } else {
        Seq::empty()
    };
    if s.title@.len() > 0 {
        lemma_clean_after("<h3>"@, e, p);
        lemma_occurrences_concat("<h3>"@, e, p);
        lemma_clean_before("<h3>"@ + e, "</h3>\n"@, p);
        lemma_occurrences_concat("<h3>"@ + e, "</h3>\n"@, p);
        assert(head.last() == '\n');
    }
    lemma_clean_after(head, bp, p);
    lemma_occurrences_concat(head, bp, p);
    lemma_clean_before(head + bp, "\n"@, p);
    lemma_occurrences_concat(head + bp, "\n"@, p);
    assert(html_scene(s) == head + bp + "\n"@);
}

proof fn lemma_scenes_count(ss: Seq<ExportScene>, p: Seq<char>)
    requires
        is_outline_tag(p),
    ensures
        occurrences(concat_map(ss, |s: ExportScene| html_scene(s)), p) == (if p == "<h3>"@ { titled(ss) } else { 0nat }),
        ss.len() > 0 ==> concat_map(ss, |s: ExportScene| html_scene(s)).len() > 0 && concat_map(
            ss,
            |s: ExportScene| html_scene(s),
        ).last() == '\n',
    decreases ss.len(),
{
    if ss.len() > 0 {
        let f = |s: ExportScene| html_scene(s);
        lemma_scenes_count(ss.drop_last(), p);
        lemma_scene_count(ss.last(), p);
        lemma_tag_facts(p);
        let prev = concat_map(ss.drop_last(), f);
        lemma_clean_after(prev, html_scene(ss.last()), p);
        lemma_occurrences_concat(prev, html_scene(ss.last()), p);
        assert(concat_map(ss, f) == prev + html_scene(ss.last()));
    }
}

#[verifier::spinoff_prover]
proof fn lemma_chapter_count(c: ExportChapter, p: Seq<char>)
    requires
        is_outline_tag(p),
    ensures
        occurrences(html_chapter(c), p) == (if p == "<h2>"@ {
            1nat
        } else if p == "<h3>"@ {
            titled(c.scenes@)
        } else {
            0nat
        }),
        html_chapter(c).len() > 0,
        html_chapter(c)[0] == '<',
{
    lemma_tag_facts(p);
    lemma_small_literals(p);
    let t = p.take(3);
    let e = escaped(Markup::Html, c.title@);
    lemma_escaped_opens_no(c.title@, t);
    lemma_no_triple_count(e, t, p);
    reveal_strlit("<h2>");
    reveal_strlit("<h3>");
    reveal_strlit("<p class=\"author\">");
    reveal_strlit("</h2>\n");
    reveal_strlit("\n");
    let head = "<h2>"@ + e + "</h2>\n"@;
    lemma_clean_after("<h2>"@, e, p);
    lemma_occurrences_concat("<h2>"@, e, p);
    lemma_clean_before("<h2>"@ + e, "</h2>\n"@, p);
    lemma_occurrences_concat("<h2>"@ + e, "</h2>\n"@, p);
    assert(head.last() == '\n');
    let own = match c.chapter_body {
        Some(b) => body_paragraphs(Markup::HtmlBreaks, b@) + "\n"@,
        None => Seq::empty(),
    };
    if let Some(b) = c.chapter_body {
        let bp = body_paragraphs(Markup::HtmlBreaks, b@);
        lemma_body_opens_no(b@, t);
        lemma_no_triple_count(bp, t, p);
        lemma_clean_before(bp, "\n"@, p);
        lemma_occurrences_concat(bp, "\n"@, p);
        assert(own.last() == '\n');
    }
    lemma_clean_after(head, own, p);
    lemma_occurrences_concat(head, own, p);
    assert((head + own).last() == '\n');
    let sc = concat_map(c.scenes@, |s: ExportScene| html_scene(s));
    lemma_scenes_count(c.scenes@, p);
    lemma_clean_after(head + own, sc, p);
    lemma_occurrences_concat(head + own, sc, p);
    assert("<h2>"@[2] != "<h3>"@[2]);
    assert("<h2>"@[1] != "<p class=\"author\">"@[1]);
    assert(occurrences(head, p) == (if p == "<h2>"@ { 1nat } else { 0nat }));
    assert(occurrences(own, p) == 0);
    assert(occurrences(sc, p) == (if p == "<h3>"@ { titled(c.scenes@) } else { 0nat }));
    assert(html_chapter(c) == head + own + sc);
    assert(html_chapter(c)[0] == head[0]);
}

proof fn lemma_chapters_count(cs: Seq<ExportChapter>, p: Seq<char>)
    requires
        is_outline_tag(p),
    ensures
        occurrences(concat_map(cs, |c: ExportChapter| html_chapter(c)), p) == (if p == "<h2>"@ {
            cs.len()
        } else if p == "<h3>"@ {
            titled_scenes(cs)
        } else {
            0nat
        }),
    decreases cs.len(),
{
    if cs.len() > 0 {
        let f = |c: ExportChapter| html_chapter(c);
        lemma_chapters_count(cs.drop_last(), p);
        lemma_chapter_count(cs.last(), p);
        lemma_tag_facts(p);
        let prev = concat_map(cs.drop_last(), f);
        lemma_clean_before(prev, html_chapter(cs.last()), p);
        lemma_occurrences_concat(prev, html_chapter(cs.last()), p);
        assert(concat_map(cs, f) == prev + html_chapter(cs.last()));
    }
}

#[verifier::spinoff_prover]
proof fn lemma_body_count(project: Project, cs: Seq<ExportChapter>, p: Seq<char>)
    requires
        is_outline_tag(p),
    ensures
        occurrences(html_body(project, cs), p) == (if p == "<h2>"@ {
            cs.len()
        } else if p == "<h3>"@ {
            titled_scenes(cs)
        } else if author_of(project).len() > 0 {
            1nat
        } else {
            0nat
        }),
        html_body(project, cs).len() > 0,
        html_body(project, cs)[0] == '<',
{
    lemma_tag_facts(p);
    lemma_small_literals(p);
    let t = p.take(3);
    let e = escaped(Markup::Html, project.title@);
    lemma_escaped_opens_no(project.title@, t);
    lemma_no_triple_count(e, t, p);
    reveal_strlit("<h1>");
    reveal_strlit("</h1>\n");
    reveal_strlit("<h2>");
    reveal_strlit("<h3>");
    reveal_strlit("<p class=\"author\">");
    reveal_strlit("</p>\n");
    let head = "<h1>"@ + e + "</h1>\n"@;
    lemma_clean_after("<h1>"@, e, p);
    lemma_occurrences_concat("<h1>"@, e, p);
    lemma_clean_before("<h1>"@ + e, "</h1>\n"@, p);
    lemma_occurrences_concat("<h1>"@ + e, "</h1>\n"@, p);
    assert(head.last() == '\n');
    let line = if author_of(project).len() > 0 {
        "<p class=\"author\">"@ + escaped(Markup::Html, author_of(project)) + "</p>\n"@
    } else {
        Seq::empty()
    };
    if author_of(project).len() > 0 {
        let ea = escaped(Markup::Html, author_of(project));
        lemma_escaped_opens_no(author_of(project), t);
        lemma_no_triple_count(ea, t, p);
        lemma_clean_after("<p class=\"author\">"@, ea, p);
        lemma_occurrences_concat("<p class=\"author\">"@, ea, p);
        lemma_clean_before("<p class=\"author\">"@ + ea, "</p>\n"@, p);
        lemma_occurrences_concat("<p class=\"author\">"@ + ea, "</p>\n"@, p);
        assert(line.last() == '\n');
    }
    lemma_clean_after(head, line, p);
    lemma_occurrences_concat(head, line, p);
    assert((head + line).last() == '\n');
    let chs = concat_map(cs, |c: ExportChapter| html_chapter(c));
    lemma_chapters_count(cs, p);
    lemma_clean_after(head + line, chs, p);
    lemma_occurrences_concat(head + line, chs, p);
    assert(html_body(project, cs) == head + line + chs);
    assert(html_body(project, cs)[0] == head[0]);
}

#[verifier::spinoff_prover]
proof fn lemma_document_count(project: Project, cs: Seq<ExportChapter>, p: Seq<char>)
    requires
        is_outline_tag(p),
    ensures
        occurrences(html_document(project, cs), p) == occurrences(html_body(project, cs), p),
{
    lemma_tag_facts(p);
    lemma_template_literals(p);
    lemma_body_count(project, cs, p);
    let t = p.take(3);
    let e = escaped(Markup::Html, project.title@);
    lemma_escaped_opens_no(project.title@, t);
    lemma_no_triple_count(e, t, p);
    let body = html_body(project, cs);
    lemma_clean_after(HTML_HEAD@, e, p);
    lemma_occurrences_concat(HTML_HEAD@, e, p);
    lemma_clean_before(HTML_HEAD@ + e, HTML_STYLE@, p);
    lemma_occurrences_concat(HTML_HEAD@ + e, HTML_STYLE@, p);
    lemma_clean_before(HTML_HEAD@ + e + HTML_STYLE@, body, p);
    lemma_occurrences_concat(HTML_HEAD@ + e + HTML_STYLE@, body, p);
    lemma_clean_before(HTML_HEAD@ + e + HTML_STYLE@ + body, HTML_TAIL@, p);
    lemma_occurrences_concat(HTML_HEAD@ + e + HTML_STYLE@ + body, HTML_TAIL@, p);
}

/// The outline of the HTML export: the page holds one `<h2>` per chapter,
/// one `<h3>` per scene with a title, the author line exactly once when
/// there is an author and never otherwise, and the escaped title as its
/// `<h1>`.
#[verifier::spinoff_prover]
pub proof fn law_html_outline(project: Project, chapters: Seq<ExportChapter>)
    ensures
        occurrences(html_document(project, chapters), "<h2>"@) == chapters.len(),
        occurrences(html_document(project, chapters), "<h3>"@) == titled_scenes(chapters),
        occurrences(html_document(project, chapters), "<p class=\"author\">"@) == (if author_of(project).len() > 0 {
            1nat
        } else {
            0nat
        }),
        has_infix(html_document(project, chapters), "<h1>"@ + escaped(Markup::Html, project.title@) + "</h1>"@),
{
    reveal_strlit("<h2>");
    reveal_strlit("<h3>");
    reveal_strlit("<p class=\"author\">");
    lemma_document_count(project, chapters, "<h2>"@);
    lemma_body_count(project, chapters, "<h2>"@);
    assert("<h3>"@[2] != "<h2>"@[2]);
    lemma_document_count(project, chapters, "<h3>"@);
    lemma_body_count(project, chapters, "<h3>"@);
    lemma_document_count(project, chapters, "<p class=\"author\">"@);
    lemma_body_count(project, chapters, "<p class=\"author\">"@);
    reveal_strlit("</h1>\n");
    reveal_strlit("</h1>");
    let e = escaped(Markup::Html, project.title@);
    let h1 = "<h1>"@ + e + "</h1>"@;
    let body = html_body(project, chapters);
    let before = HTML_HEAD@ + e + HTML_STYLE@;
    let doc = html_document(project, chapters);
    assert(body.subrange(0, h1.len() as int) =~= h1);
    assert(doc.subrange(before.len() as int, (before.len() + h1.len()) as int) =~= h1);
    assert(occurs_at(doc, h1, before.len() as int));
}

} // verus!
