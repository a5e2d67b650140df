//! Escaping of text for the markup formats, and the paragraph rendering that
//! HTML and EPUB share.
use vstd::prelude::*;
use crate::text::{
    all_ws, concat_map, join, join_strings, lemma_concat_map_step, lemma_take_all, lemma_trim_empty,
    split_blank_lines, to_chars, trim, trim_bounds, views, blank_line_pieces,
};

verus! {

/// The escaping rules of the export formats.
#[derive(PartialEq, Eq, Structural, Clone, Copy)]
pub enum Markup {
    /// HTML text: `& < > "` escaped.
    Html,
    /// HTML paragraph text: as `Html`, and each `\n` becomes `<br>`.
    HtmlBreaks,
    /// XHTML text (EPUB): `& < > "` escaped.
    Xhtml,
    /// XHTML paragraph text: as `Xhtml`, and each `\n` becomes `<br/>`.
    XhtmlBreaks,
    /// WordprocessingML text (DOCX): `& < > " '` escaped.
    Wordml,
}

/// What one character becomes under `m`.
pub open spec fn markup_char(m: Markup, c: char) -> Seq<char> {
    if c == '&' {
        "&amp;"@
    } else if c == '<' {
        "&lt;"@
    } else if c == '>' {
        "&gt;"@
    } else if c == '"' {
        "&quot;"@
    } else if c == '\'' && m == Markup::Wordml {
        "&apos;"@
    } else if c == '\n' && m == Markup::HtmlBreaks {
        "<br>"@
    } else if c == '\n' && m == Markup::XhtmlBreaks {
        "<br/>"@
    } else {
        seq![c]
    }
}

/// `s` escaped under `m`, character by character.
pub open spec fn escaped(m: Markup, s: Seq<char>) -> Seq<char> {
    concat_map(s, |c: char| markup_char(m, c))
}

/// Appends `v[from..to]` escaped under `m`.
pub fn append_escaped(out: &mut String, v: &Vec<char>, from: usize, to: usize, m: Markup)
    requires
        from <= to <= v@.len(),
    ensures
        final(out)@ == old(out)@ + escaped(m, v@.subrange(from as int, to as int)),
{
    let ghost f = |c: char| markup_char(m, c);
    let ghost sub = v@.subrange(from as int, to as int);
    let mut i = from;
    while i < to
        invariant
            from <= i <= to <= v@.len(),
            sub == v@.subrange(from as int, to as int),
            f == (|c: char| markup_char(m, c)),
            out@ == old(out)@ + concat_map(sub.take(i - from), f),
        decreases to - i,
    {
        proof {
            lemma_concat_map_step(sub, i - from, f);
        }
        let c = v[i];
        if c == '&' {
            out.append("&amp;");
        } else if c == '<' {
            out.append("&lt;");
        } else if c == '>' {
            out.append("&gt;");
        } else if c == '"' {
            out.append("&quot;");
        } else if c == '\'' && m == Markup::Wordml {
            out.append("&apos;");
        } else if c == '\n' && m == Markup::HtmlBreaks {
            out.append("<br>");
        } else if c == '\n' && m == Markup::XhtmlBreaks {
            out.append("<br/>");
        } else {
            crate::text::push_char(out, c);
            assert(seq![c] =~= Seq::<char>::empty().push(c));
        }
        assert(sub[i - from] == c);
        assert(out@ =~= old(out)@ + concat_map(sub.take(i - from + 1), f));
        i += 1;
    }
    proof {
        lemma_take_all(sub);
    }
}

/// `s` escaped under `m` (`escape_html` / `escape_xml`).
pub fn escape(s: &str, m: Markup) -> (r: String)
    ensures
        r@ == escaped(m, s@),
{
    let v = to_chars(s);
    let mut r = String::new();
    append_escaped(&mut r, &v, 0, v.len(), m);
    assert(v@.subrange(0, v@.len() as int) =~= s@);
    assert(r@ =~= escaped(m, s@));
    r
}

/// The rendering of the pieces that are not all whitespace.
pub open spec fn render_nonblank(ps: Seq<Seq<char>>, f: spec_fn(Seq<char>) -> Seq<char>) -> Seq<
    Seq<char>,
>
    decreases ps.len(),
{
    if ps.len() == 0 {
        Seq::empty()
    } else if all_ws(ps.last()) {
        render_nonblank(ps.drop_last(), f)
    } else {
        render_nonblank(ps.drop_last(), f).push(f(ps.last()))
    }
}

/// A paragraph: its trimmed text escaped, line breaks marked, inside
/// `<p>...</p>`.
pub open spec fn paragraph(m: Markup, p: Seq<char>) -> Seq<char> {
    "<p>"@ + escaped(m, trim(p)) + "</p>"@
}

/// A body as paragraphs: split at blank lines (`"\n\n"`), pieces that are
/// only whitespace dropped, the rest rendered as `paragraph`, joined with
/// `\n`.
pub open spec fn body_paragraphs(m: Markup, b: Seq<char>) -> Seq<char> {
    join(render_nonblank(blank_line_pieces(b), |p: Seq<char>| paragraph(m, p)), "\n"@)
}

/// Renders `body` as paragraphs under `m` (`body_to_html` with
/// `HtmlBreaks`, `body_to_xhtml` with `XhtmlBreaks`).
pub fn render_body(body: &str, m: Markup) -> (r: String)
    ensures
        r@ == body_paragraphs(m, body@),
{
    let pieces = split_blank_lines(body);
    let ghost ps = blank_line_pieces(body@);
    let ghost f = |p: Seq<char>| paragraph(m, p);
    let mut out: Vec<String> = Vec::new();
    let mut i: usize = 0;
    while i < pieces.len()
        invariant
            views(pieces@) == ps,
            ps == blank_line_pieces(body@),
            f == (|p: Seq<char>| paragraph(m, p)),
            0 <= i <= pieces@.len(),
            views(out@) == render_nonblank(ps.take(i as int), f),
        decreases pieces.len() - i,
    {
        let v = to_chars(pieces[i].as_str());
        let (a, b) = trim_bounds(&v, 0, v.len());
        proof {
            assert(v@.subrange(0, v@.len() as int) =~= v@);
            assert(ps[i as int] == v@);
            lemma_trim_empty(v@);
            assert(ps.take(i + 1).drop_last() =~= ps.take(i as int));
        }
        if a < b {
            let mut p = String::from_str("<p>");
            append_escaped(&mut p, &v, a, b, m);
            p.append("</p>");
            let ghost before = out@;
            out.push(p);
            assert(views(out@) =~= views(before).push(paragraph(m, v@)));
        }
        i += 1;
    }
    proof {
        lemma_take_all(ps);
    }
    join_strings(&out, "\n")
}

/// A character that would start or end markup, or a quoted attribute.
pub open spec fn is_markup_char(c: char) -> bool {
    c == '<' || c == '>' || c == '"'
}

/// Escaped text cannot open or close markup: under `Html`, `Xhtml` and
/// `Wordml` no `<`, `>` or `"` is left in it, whatever the text was.
pub proof fn law_escaped_text_is_inert(m: Markup, s: Seq<char>)
    requires
        m == Markup::Html || m == Markup::Xhtml || m == Markup::Wordml,
    ensures
        forall|i: int| 0 <= i < escaped(m, s).len() ==> !is_markup_char(#[trigger] escaped(m, s)[i]),
    decreases s.len(),
{
    if s.len() > 0 {
        law_escaped_text_is_inert(m, s.drop_last());
        let prev = escaped(m, s.drop_last());
        let unit = markup_char(m, s.last());
        reveal_strlit("&amp;");
        reveal_strlit("&lt;");
        reveal_strlit("&gt;");
        reveal_strlit("&quot;");
        reveal_strlit("&apos;");
        assert(forall|j: int| 0 <= j < unit.len() ==> !is_markup_char(#[trigger] unit[j]));
        assert(escaped(m, s) == prev + unit);
        assert forall|i: int| 0 <= i < escaped(m, s).len() implies !is_markup_char(#[trigger] escaped(m, s)[i]) by {
            if i < prev.len() {
                assert(escaped(m, s)[i] == prev[i]);
            } else {
                assert(escaped(m, s)[i] == unit[i - prev.len()]);
            }
        }
    }
}

} // verus!
