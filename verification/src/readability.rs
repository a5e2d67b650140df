//! Local readability statistics of a manuscript (no AI involved): sentence
//! counts and lengths, dialogue share and the share of each Japanese script.
//! The library computes the exact counts; the ratios and averages are
//! these counts divided.
use vstd::prelude::*;
use crate::text::{all_ws, is_blank, push_char, to_chars, views};

verus! {

/// Sentences longer than this many characters count as long.
pub const LONG_SENTENCE_THRESHOLD: usize = 100;

pub open spec fn spec_is_kanji(c: char) -> bool {
    ('\u{4E00}' <= c && c <= '\u{9FFF}') || ('\u{3400}' <= c && c <= '\u{4DBF}')
}

pub open spec fn spec_is_hiragana(c: char) -> bool {
    '\u{3040}' <= c && c <= '\u{309F}'
}

pub open spec fn spec_is_katakana(c: char) -> bool {
    '\u{30A0}' <= c && c <= '\u{30FF}'
}

/// CJK unified ideographs (with extension A).
pub fn is_kanji(c: char) -> (b: bool)
    ensures
        b == spec_is_kanji(c),
{
    ('\u{4E00}' <= c && c <= '\u{9FFF}') || ('\u{3400}' <= c && c <= '\u{4DBF}')
}

pub fn is_hiragana(c: char) -> (b: bool)
    ensures
        b == spec_is_hiragana(c),
{
    '\u{3040}' <= c && c <= '\u{309F}'
}

pub fn is_katakana(c: char) -> (b: bool)
    ensures
        b == spec_is_katakana(c),
{
    '\u{30A0}' <= c && c <= '\u{30FF}'
}

/// Number of characters of `s` that satisfy `p`.
pub open spec fn count_where(s: Seq<char>, p: spec_fn(char) -> bool) -> nat
    decreases s.len(),
{
    if s.len() == 0 {
        0
    } else {
        count_where(s.drop_last(), p) + if p(s.last()) {
            1nat
        } else {
            0nat
        }
    }
}

pub proof fn lemma_count_where_bound(s: Seq<char>, p: spec_fn(char) -> bool)
    ensures
        count_where(s, p) <= s.len(),
    decreases s.len(),
{
    if s.len() > 0 {
        lemma_count_where_bound(s.drop_last(), p);
    }
}

pub proof fn lemma_count_where_step(s: Seq<char>, i: int, p: spec_fn(char) -> bool)
    requires
        0 <= i < s.len(),
    ensures
        count_where(s.take(i + 1), p) == count_where(s.take(i), p) + if p(s[i]) {
            1nat
        } else {
            0nat
        },
{
    assert(s.take(i + 1).drop_last() =~= s.take(i));
}

pub open spec fn opens_quote(c: char) -> bool {
    c == '「' || c == '『'
}

pub open spec fn closes_quote(c: char) -> bool {
    c == '」' || c == '』'
}

/// The scan state `(depth, count)` after reading `s`: `depth` is the number
/// of unclosed quotation brackets (never below zero), `count` the number of
/// characters read inside quotation brackets (brackets themselves excluded).
pub open spec fn dialogue_scan(s: Seq<char>) -> (nat, nat)
    decreases s.len(),
{
    if s.len() == 0 {
        (0, 0)
    } else {
        let (depth, count) = dialogue_scan(s.drop_last());
        let c = s.last();
        if opens_quote(c) {
            (depth + 1, count)
        } else if closes_quote(c) {
            (if depth > 0 {
                (depth - 1) as nat
            } else {
                0
            }, count)
        } else if depth > 0 {
            (depth, count + 1)
        } else {
            (depth, count)
        }
    }
}

pub proof fn lemma_dialogue_bound(s: Seq<char>)
    ensures
        dialogue_scan(s).0 <= s.len(),
        dialogue_scan(s).1 <= s.len(),
    decreases s.len(),
{
    if s.len() > 0 {
        lemma_dialogue_bound(s.drop_last());
    }
}

/// Number of characters inside 「」 or 『』 quotation brackets (a simple
/// test for dialogue; nesting is only counted, not matched).
pub fn dialogue_char_count(text: &str) -> (n: usize)
    ensures
        n == dialogue_scan(text@).1,
{
    let v = to_chars(text);
    let mut depth: usize = 0;
    let mut count: usize = 0;
    let mut i: usize = 0;
    while i < v.len()
        invariant
            v@ == text@,
            0 <= i <= v@.len(),
            (depth as nat, count as nat) == dialogue_scan(v@.take(i as int)),
            depth <= i,
            count <= i,
        decreases v.len() - i,
    {
        proof {
            assert(v@.take(i + 1).drop_last() =~= v@.take(i as int));
        }
        let c = v[i];
        if c == '「' || c == '『' {
            depth += 1;
        } else if c == '」' || c == '』' {
            if depth > 0 {
                depth -= 1;
            }
        } else if depth > 0 {
            count += 1;
        }
        i += 1;
    }
    assert(v@.take(v@.len() as int) =~= v@);
    count
}

pub open spec fn is_terminator(c: char) -> bool {
    c == '。' || c == '！' || c == '？' || c == '!' || c == '?'
}

/// Splitting state after reading `s`: the sentences found so far (pieces that
/// end with a terminator and are not all whitespace) and the unfinished
/// piece.
pub open spec fn sentence_scan(s: Seq<char>) -> (Seq<Seq<char>>, Seq<char>)
    decreases s.len(),
{
    if s.len() == 0 {
        (Seq::empty(), Seq::empty())
    } else {
        let (done, cur) = sentence_scan(s.drop_last());
        let piece = cur.push(s.last());
        if is_terminator(s.last()) {
            (if all_ws(piece) {
                done
            } else {
                done.push(piece)
            }, Seq::empty())
        } else {
            (done, piece)
        }
    }
}

/// The sentences of `s`: `s` cut after each `。！？!?`, the rest after the last
/// terminator kept as a final piece, and pieces that are only whitespace
/// dropped.
pub open spec fn sentences(s: Seq<char>) -> Seq<Seq<char>> {
    let (done, cur) = sentence_scan(s);
    if all_ws(cur) {
        done
    } else {
        done.push(cur)
    }
}

/// Scanning on after a finished sentence goes on as from the start.
proof fn lemma_scan_after_end(a: Seq<char>, r: Seq<char>)
    requires
        sentence_scan(a).1.len() == 0,
    ensures
        sentence_scan(a + r).0 == sentence_scan(a).0 + sentence_scan(r).0,
        sentence_scan(a + r).1 == sentence_scan(r).1,
    decreases r.len(),
{
    if r.len() == 0 {
        assert(a + r =~= a);
        assert(sentence_scan(a).0 + sentence_scan(r).0 =~= sentence_scan(a).0);
    } else {
        lemma_scan_after_end(a, r.drop_last());
        assert((a + r).drop_last() =~= a + r.drop_last());
        assert((a + r).last() == r.last());
        let d0 = sentence_scan(a).0;
        let d = sentence_scan(r.drop_last()).0;
        let piece = sentence_scan(r.drop_last()).1.push(r.last());
        assert((d0 + d).push(piece) =~= d0 + d.push(piece));
    }
}

/// Text holding none of the terminators is scanned as one unfinished piece.
proof fn lemma_scan_plain(r: Seq<char>)
    requires
        forall|i: int| 0 <= i < r.len() ==> !is_terminator(#[trigger] r[i]),
    ensures
        sentence_scan(r).0.len() == 0,
        sentence_scan(r).1 == r,
    decreases r.len(),
{
    if r.len() > 0 {
        assert(!is_terminator(r[r.len() - 1]));
        lemma_scan_plain(r.drop_last());
        assert(r.drop_last().push(r.last()) =~= r);
    }
}

/// Each of `。！？!?` ends a sentence: the text after it is split exactly
/// as it would be on its own, after the sentences up to it.
pub proof fn law_terminators_end_sentences(s: Seq<char>, t: char, r: Seq<char>)
    requires
        t == '。' || t == '！' || t == '？' || t == '!' || t == '?',
    ensures
        sentences(s.push(t) + r) == sentences(s.push(t)) + sentences(r),
{
    let a = s.push(t);
    assert(a.drop_last() =~= s);
    assert(sentence_scan(a).1.len() == 0);
    lemma_scan_after_end(a, r);
    let d0 = sentence_scan(a).0;
    let (d, c) = sentence_scan(r);
    assert(all_ws(sentence_scan(a).1));
    if !all_ws(c) {
        assert((d0 + d).push(c) =~= d0 + d.push(c));
    }
}

/// No other character splits: a run of text holding none of `。！？!?`
/// and not only whitespace is one sentence, on its own or after a
/// sentence's end.
pub proof fn law_other_characters_do_not_split(s: Seq<char>, t: char, r: Seq<char>)
    requires
        t == '。' || t == '！' || t == '？' || t == '!' || t == '?',
        forall|i: int|
            0 <= i < r.len() ==> #[trigger] r[i] != '。' && r[i] != '！' && r[i] != '？' && r[i] != '!' && r[i]
                != '?',
        !all_ws(r),
    ensures
        sentences(r) == seq![r],
        sentences(s.push(t) + r) == sentences(s.push(t)).push(r),
{
    lemma_scan_plain(r);
    assert(Seq::<Seq<char>>::empty().push(r) =~= seq![r]);
    law_terminators_end_sentences(s, t, r);
    assert(sentences(s.push(t)) + seq![r] =~= sentences(s.push(t)).push(r));
}

/// A run of characters other than `。！？!?` closed by one of them is one
/// sentence; a run of such characters that is only whitespace is none.
pub proof fn law_one_sentence(r: Seq<char>, t: char)
    requires
        t == '。' || t == '！' || t == '？' || t == '!' || t == '?',
        forall|i: int|
            0 <= i < r.len() ==> #[trigger] r[i] != '。' && r[i] != '！' && r[i] != '？' && r[i] != '!' && r[i]
                != '?',
    ensures
        sentences(r.push(t)) == seq![r.push(t)],
        all_ws(r) ==> sentences(r).len() == 0,
{
    lemma_scan_plain(r);
    assert(r.push(t).drop_last() =~= r);
    let piece = r.push(t);
    assert(piece.last() == t);
    assert(!crate::text::is_ws(piece[piece.len() - 1]));
    assert(!all_ws(piece));
    assert(Seq::<Seq<char>>::empty().push(piece) =~= seq![piece]);
}

/// Total length of the pieces.
pub open spec fn total_len(ps: Seq<Seq<char>>) -> nat
    decreases ps.len(),
{
    if ps.len() == 0 {
        0
    } else {
        total_len(ps.drop_last()) + ps.last().len()
    }
}

pub proof fn lemma_sentence_scan_bound(s: Seq<char>)
    ensures
        total_len(sentence_scan(s).0) + sentence_scan(s).1.len() <= s.len(),
        forall|k: int|
            0 <= k < sentence_scan(s).0.len() ==> !all_ws(#[trigger] sentence_scan(s).0[k]),
    decreases s.len(),
{
    if s.len() > 0 {
        lemma_sentence_scan_bound(s.drop_last());
        let (done, cur) = sentence_scan(s.drop_last());
        let piece = cur.push(s.last());
        if is_terminator(s.last()) && !all_ws(piece) {
            assert(done.push(piece).drop_last() =~= done);
            assert forall|k: int| 0 <= k < done.push(piece).len() implies !all_ws(
                #[trigger] done.push(piece)[k],
            ) by {
                if k < done.len() {
                    assert(done.push(piece)[k] == done[k]);
                }
            }
        }
    }
}

/// Every sentence is non-blank, and together they are no longer than `s`.
pub proof fn lemma_sentences_bound(s: Seq<char>)
    ensures
        total_len(sentences(s)) <= s.len(),
        forall|k: int| 0 <= k < sentences(s).len() ==> !all_ws(#[trigger] sentences(s)[k]),
{
    lemma_sentence_scan_bound(s);
    let (done, cur) = sentence_scan(s);
    if !all_ws(cur) {
        assert(done.push(cur).drop_last() =~= done);
        assert forall|k: int| 0 <= k < done.push(cur).len() implies !all_ws(
            #[trigger] done.push(cur)[k],
        ) by {
            if k < done.len() {
                assert(done.push(cur)[k] == done[k]);
            }
        }
    }
}

/// Splits `text` into sentences (see `sentences`).
pub fn split_sentences(text: &str) -> (r: Vec<String>)
    ensures
        views(r@) == sentences(text@),
{
    let v = to_chars(text);
    let mut done: Vec<String> = Vec::new();
    let mut current = String::new();
    let mut i: usize = 0;
    while i < v.len()
        invariant
            v@ == text@,
            0 <= i <= v@.len(),
            (views(done@), current@) == sentence_scan(v@.take(i as int)),
        decreases v.len() - i,
    {
        proof {
            assert(v@.take(i + 1).drop_last() =~= v@.take(i as int));
        }
        let c = v[i];
        push_char(&mut current, c);
        if c == '。' || c == '！' || c == '？' || c == '!' || c == '?' {
            let piece = current;
            current = String::new();
            if !is_blank(piece.as_str()) {
                let ghost before = done@;
                done.push(piece);
                assert(views(done@) =~= views(before).push(piece@));
            }
        }
        i += 1;
    }
    assert(v@.take(v@.len() as int) =~= v@);
    if !is_blank(current.as_str()) {
        let ghost before = done@;
        done.push(current);
        assert(views(done@) =~= views(before).push(current@));
    }
    done
}

/// Number of sentences longer than `LONG_SENTENCE_THRESHOLD` characters.
pub open spec fn long_count(ps: Seq<Seq<char>>) -> nat
    decreases ps.len(),
{
    if ps.len() == 0 {
        0
    } else {
        long_count(ps.drop_last()) + if ps.last().len() > LONG_SENTENCE_THRESHOLD {
            1nat
        } else {
            0nat
        }
    }
}

/// Length of the longest piece (0 when there is none).
pub open spec fn max_len(ps: Seq<Seq<char>>) -> nat
    decreases ps.len(),
{
    if ps.len() == 0 {
        0
    } else if ps.last().len() > max_len(ps.drop_last()) {
        ps.last().len()
    } else {
        max_len(ps.drop_last())
    }
}

pub open spec fn is_touten(c: char) -> bool {
    c == '、'
}

/// Number of `、` over all pieces.
pub open spec fn touten_total(ps: Seq<Seq<char>>) -> nat
    decreases ps.len(),
{
    if ps.len() == 0 {
        0
    } else {
        touten_total(ps.drop_last()) + count_where(ps.last(), |c: char| is_touten(c))
    }
}

/// The counts behind the readability statistics of a text.
#[derive(Debug)]
pub struct ReadabilityCounts {
    pub total_chars: usize,
    pub sentence_count: usize,
    pub total_sentence_chars: usize,
    pub max_sentence_length: usize,
    pub long_sentence_count: usize,
    pub total_touten: usize,
    pub dialogue_chars: usize,
    pub kanji_chars: usize,
    pub hiragana_chars: usize,
    pub katakana_chars: usize,
}

/// What `compute` returns for `s`.
pub open spec fn counts_of(s: Seq<char>) -> ReadabilityCounts {
    let ss = sentences(s);
    ReadabilityCounts {
        total_chars: s.len() as usize,
        sentence_count: ss.len() as usize,
        total_sentence_chars: total_len(ss) as usize,
        max_sentence_length: max_len(ss) as usize,
        long_sentence_count: long_count(ss) as usize,
        total_touten: touten_total(ss) as usize,
        dialogue_chars: dialogue_scan(s).1 as usize,
        kanji_chars: count_where(s, |c: char| spec_is_kanji(c)) as usize,
        hiragana_chars: count_where(s, |c: char| spec_is_hiragana(c)) as usize,
        katakana_chars: count_where(s, |c: char| spec_is_katakana(c)) as usize,
    }
}

proof fn lemma_sentence_sums(ps: Seq<Seq<char>>)
    ensures
        max_len(ps) <= total_len(ps),
        long_count(ps) <= ps.len(),
        touten_total(ps) <= total_len(ps),
    decreases ps.len(),
{
    if ps.len() > 0 {
        lemma_sentence_sums(ps.drop_last());
        lemma_count_where_bound(ps.last(), |c: char| is_touten(c));
    }
}

proof fn lemma_count_sentences(ps: Seq<Seq<char>>)
    requires
        forall|k: int| 0 <= k < ps.len() ==> !all_ws(#[trigger] ps[k]),
    ensures
        ps.len() <= total_len(ps),
    decreases ps.len(),
{
    if ps.len() > 0 {
        assert(!all_ws(ps[ps.len() - 1]));
        assert forall|k: int| 0 <= k < ps.drop_last().len() implies !all_ws(
            #[trigger] ps.drop_last()[k],
        ) by {
            assert(ps.drop_last()[k] == ps[k]);
        }
        lemma_count_sentences(ps.drop_last());
    }
}

/// Number of characters of `s` satisfying the script test `kind`
/// (0: kanji, 1: hiragana, 2: katakana, otherwise `、`).
fn count_kind(v: &Vec<char>, kind: u8) -> (n: usize)
    ensures
        kind == 0 ==> n == count_where(v@, |c: char| spec_is_kanji(c)),
        kind == 1 ==> n == count_where(v@, |c: char| spec_is_hiragana(c)),
        kind == 2 ==> n == count_where(v@, |c: char| spec_is_katakana(c)),
        kind > 2 ==> n == count_where(v@, |c: char| is_touten(c)),
{
    let ghost p: spec_fn(char) -> bool = if kind == 0 {
        |c: char| spec_is_kanji(c)
    } else if kind == 1 {
        |c: char| spec_is_hiragana(c)
    } else if kind == 2 {
        |c: char| spec_is_katakana(c)
    } else {
        |c: char| is_touten(c)
    };
    let mut n: usize = 0;
    let mut i: usize = 0;
    while i < v.len()
        invariant
            0 <= i <= v@.len(),
            n == count_where(v@.take(i as int), p),
            n <= i,
            kind == 0 ==> p == (|c: char| spec_is_kanji(c)),
            kind == 1 ==> p == (|c: char| spec_is_hiragana(c)),
            kind == 2 ==> p == (|c: char| spec_is_katakana(c)),
            kind > 2 ==> p == (|c: char| is_touten(c)),
        decreases v.len() - i,
    {
        proof {
            lemma_count_where_step(v@, i as int, p);
        }
        let c = v[i];
        let hit = if kind == 0 {
            is_kanji(c)
        } else if kind == 1 {
            is_hiragana(c)
        } else if kind == 2 {
            is_katakana(c)
        } else {
            c == '、'
        };
        if hit {
            n += 1;
        }
        i += 1;
    }
    assert(v@.take(v@.len() as int) =~= v@);
    n
}

/// The readability counts of `text`. The statistics are derived from them:
/// average sentence length = `total_sentence_chars / sentence_count`, average
/// `、` per sentence = `total_touten / sentence_count` (0 without sentences),
/// and each ratio = its count / `total_chars` (0 for an empty text).
pub fn compute(text: &str) -> (r: ReadabilityCounts)
    ensures
        r == counts_of(text@),
{
    let v = to_chars(text);
    let sentences_v = split_sentences(text);
    proof {
        lemma_sentences_bound(text@);
        lemma_sentence_sums(sentences(text@));
        lemma_count_sentences(sentences(text@));
    }
    let ghost ss = sentences(text@);
    let n_chars = v.len();
    assert(v@.len() == n_chars);
    let mut max_sentence_length: usize = 0;
    let mut long_sentence_count: usize = 0;
    let mut total_sentence_chars: usize = 0;
    let mut total_touten: usize = 0;
    let mut k: usize = 0;
    while k < sentences_v.len()
        invariant
            views(sentences_v@) == ss,
            ss == sentences(text@),
            total_len(ss) <= text@.len(),
            text@.len() == v@.len(),
            v@.len() <= usize::MAX,
            0 <= k <= sentences_v@.len(),
            total_sentence_chars == total_len(ss.take(k as int)),
            max_sentence_length == max_len(ss.take(k as int)),
            long_sentence_count == long_count(ss.take(k as int)),
            total_touten == touten_total(ss.take(k as int)),
            total_len(ss.take(k as int)) <= total_len(ss),
        decreases sentences_v.len() - k,
    {
        let s = &sentences_v[k];
        let sv = to_chars(s.as_str());
        let len = sv.len();
        let t = count_kind(&sv, 3);
        proof {
            let pre = ss.take(k as int);
            let post = ss.take(k + 1);
            assert(post.drop_last() =~= pre);
            assert(post.last() == ss[k as int]);
            assert(ss[k as int] == sentences_v@[k as int]@);
            lemma_prefix_total(ss, k as int + 1);
            lemma_sentence_sums(post);
        }
        total_sentence_chars += len;
        if len > max_sentence_length {
            max_sentence_length = len;
        }
        if len > LONG_SENTENCE_THRESHOLD {
            long_sentence_count += 1;
        }
        total_touten += t;
        k += 1;
    }
    assert(ss.take(ss.len() as int) =~= ss);
    let kanji_chars = count_kind(&v, 0);
    let hiragana_chars = count_kind(&v, 1);
    let katakana_chars = count_kind(&v, 2);
    let dialogue_chars = dialogue_char_count(text);
    ReadabilityCounts {
        total_chars: v.len(),
        sentence_count: sentences_v.len(),
        total_sentence_chars,
        max_sentence_length,
        long_sentence_count,
        total_touten,
        dialogue_chars,
        kanji_chars,
        hiragana_chars,
        katakana_chars,
    }
}

proof fn lemma_prefix_total(ps: Seq<Seq<char>>, k: int)
    requires
        0 <= k <= ps.len(),
    ensures
        total_len(ps.take(k)) <= total_len(ps),
    decreases ps.len() - k,
{
    if k < ps.len() {
        lemma_prefix_total(ps, k + 1);
        assert(ps.take(k + 1).drop_last() =~= ps.take(k));
    } else {
        assert(ps.take(k) =~= ps);
    }
}

proof fn lemma_scripts_bound(s: Seq<char>)
    ensures
        count_where(s, |c: char| spec_is_kanji(c)) + count_where(s, |c: char| spec_is_hiragana(c)) + count_where(
            s,
            |c: char| spec_is_katakana(c),
        ) <= s.len(),
    decreases s.len(),
{
    if s.len() > 0 {
        lemma_scripts_bound(s.drop_last());
    }
}

/// Nothing the statistics count exceeds the text: there are no more
/// sentences than characters in them, the sentences together are no longer
/// than the text, the longest is no longer than all of them together, no
/// more sentences are long than there are sentences, the `、` are part of
/// the sentences, and the dialogue characters, and the kanji, hiragana and
/// katakana (three disjoint scripts) together, are part of the text.
pub proof fn law_counts_bounded(s: Seq<char>)
    ensures
        sentences(s).len() <= total_len(sentences(s)),
        total_len(sentences(s)) <= s.len(),
        max_len(sentences(s)) <= total_len(sentences(s)),
        long_count(sentences(s)) <= sentences(s).len(),
        touten_total(sentences(s)) <= total_len(sentences(s)),
        dialogue_scan(s).1 <= s.len(),
        count_where(s, |c: char| spec_is_kanji(c)) + count_where(s, |c: char| spec_is_hiragana(c)) + count_where(
            s,
            |c: char| spec_is_katakana(c),
        ) <= s.len(),
{
    lemma_sentences_bound(s);
    lemma_count_sentences(sentences(s));
    lemma_sentence_sums(sentences(s));
    lemma_dialogue_bound(s);
    lemma_scripts_bound(s);
}

} // verus!
