//! Laying a quote out on the wallpaper: the word wrap. How wide a line is drawn is measured
//! by the caller with the font.
use vstd::prelude::*;

use crate::text::{chars_of, is_whitespace, push_char, string_from_chars, views};

verus! {

/// Draws quotes onto wallpapers.
pub struct Compositor;

/// The pieces of `s` between `'\n'` characters, each started with `cur`
/// (`str::split('\n')`: `n` line breaks give `n + 1` pieces).
pub open spec fn split_newlines_from(s: Seq<char>, cur: Seq<char>) -> Seq<Seq<char>>
    decreases s.len(),
{
    if s.len() == 0 {
        seq![cur]
    } else if s[0] == '\n' {
        seq![cur] + split_newlines_from(s.drop_first(), seq![])
    } else {
        split_newlines_from(s.drop_first(), cur.push(s[0]))
    }
}

/// The paragraphs of a text: its pieces between line breaks.
pub open spec fn paragraphs(s: Seq<char>) -> Seq<Seq<char>> {
    split_newlines_from(s, seq![])
}

/// The words of `s`, the first one started with `cur`: maximal runs of characters that are
/// not white space (`str::split_whitespace`).
pub open spec fn words_from(s: Seq<char>, cur: Seq<char>) -> Seq<Seq<char>>
    decreases s.len(),
{
    if s.len() == 0 {
        if cur.len() > 0 {
            seq![cur]
        } else {
            seq![]
        }
    } else if is_whitespace(s[0]) {
        (if cur.len() > 0 {
            seq![cur]
        } else {
            seq![]
        }) + words_from(s.drop_first(), seq![])
    } else {
        words_from(s.drop_first(), cur.push(s[0]))
    }
}

/// The words of `s`.
pub open spec fn words(s: Seq<char>) -> Seq<Seq<char>> {
    words_from(s, seq![])
}

/// `cur` with `w` added: `w` alone when `cur` is empty, else after a space.
pub open spec fn extend_line(cur: Seq<char>, w: Seq<char>) -> Seq<char> {
    if cur.len() == 0 {
        w
    } else {
        cur + seq![' '] + w
    }
}

/// `cur` as a line, when it is not empty.
pub open spec fn flush(cur: Seq<char>) -> Seq<Seq<char>> {
    if cur.len() > 0 {
        seq![cur]
    } else {
        seq![]
    }
}

/// Greedy wrap of `ws` after the line `cur`: a word joins the line while the line still
/// `fits`; otherwise the line is closed and the word starts the next one (alone, even when
/// it does not fit).
pub open spec fn wrap_words(ws: Seq<Seq<char>>, cur: Seq<char>, fits: spec_fn(Seq<char>) -> bool) -> Seq<Seq<char>>
    decreases ws.len(),
{
    if ws.len() == 0 {
        flush(cur)
    } else {
        let test = extend_line(cur, ws[0]);
        if fits(test) {
            wrap_words(ws.drop_first(), test, fits)
        } else {
            flush(cur) + wrap_words(ws.drop_first(), ws[0], fits)
        }
    }
}

/// The wrapped lines of each paragraph in `ps`, in order.
pub open spec fn wrap_paragraphs(ps: Seq<Seq<char>>, fits: spec_fn(Seq<char>) -> bool) -> Seq<Seq<char>>
    decreases ps.len(),
{
    if ps.len() == 0 {
        seq![]
    } else {
        wrap_words(words(ps[0]), seq![], fits) + wrap_paragraphs(ps.drop_first(), fits)
    }
}

/// The lines of `text` once wrapped: each paragraph on lines of its own.
pub open spec fn wrap_text(text: Seq<char>, fits: spec_fn(Seq<char>) -> bool) -> Seq<Seq<char>> {
    wrap_paragraphs(paragraphs(text), fits)
}

/// The closure `fits` answers as the predicate `spec_fits` does.
pub open spec fn answers_as<F: Fn(&str) -> bool>(fits: F, spec_fits: spec_fn(Seq<char>) -> bool) -> bool {
    forall|s: &str, b: bool| call_ensures(fits, (s,), b) ==> b == spec_fits(s@)
}

/// The paragraphs of `text`.
pub fn split_paragraphs(text: &str) -> (r: Vec<String>)
    ensures
        views(r@) == paragraphs(text@),
{
    let v = chars_of(text);
    let n = v.len();
    let mut out: Vec<String> = Vec::new();
    let mut start: usize = 0;
    let mut i: usize = 0;
    assert(v@.skip(0) == v@);
    assert(v@.subrange(0, 0) == Seq::<char>::empty());
    while i < n
        invariant
            n == v@.len(),
            v@ == text@,
            start <= i <= n,
            views(out@) + split_newlines_from(v@.skip(i as int), v@.subrange(start as int, i as int))
                == paragraphs(v@),
        decreases n - i,
    {
        let ghost before = views(out@);
        assert(v@.skip(i as int)[0] == v@[i as int]);
        assert(v@.skip(i as int).drop_first() == v@.skip(i + 1));
        if v[i] == '\n' {
            let p = string_from_chars(&v, start, i);
            out.push(p);
            assert(views(out@) == before.push(p@));
            assert(v@.subrange(i + 1, i + 1) == Seq::<char>::empty());
            assert(before + (seq![p@] + split_newlines_from(v@.skip(i + 1), seq![])) == before.push(
                p@,
            ) + split_newlines_from(v@.skip(i + 1), seq![]));
            start = i + 1;
        } else {
            assert(v@.subrange(start as int, i + 1) == v@.subrange(start as int, i as int).push(
                v@[i as int],
            ));
        }
        i = i + 1;
    }
    let p = string_from_chars(&v, start, n);
    let ghost before = views(out@);
    out.push(p);
    assert(views(out@) == before.push(p@));
    assert(v@.skip(n as int) == Seq::<char>::empty());
    out
}

/// The words of `s`.
pub fn split_words(s: &str) -> (r: Vec<String>)
    ensures
        views(r@) == words(s@),
{
    let v = chars_of(s);
    let n = v.len();
    let mut out: Vec<String> = Vec::new();
    let mut start: usize = 0;
    let mut i: usize = 0;
    assert(v@.skip(0) == v@);
    assert(v@.subrange(0, 0) == Seq::<char>::empty());
    while i < n
        invariant
            n == v@.len(),
            v@ == s@,
            start <= i <= n,
            views(out@) + words_from(v@.skip(i as int), v@.subrange(start as int, i as int))
                == words(v@),
        decreases n - i,
    {
        let ghost before = views(out@);
        let ghost cur = v@.subrange(start as int, i as int);
        assert(v@.skip(i as int)[0] == v@[i as int]);
        assert(v@.skip(i as int).drop_first() == v@.skip(i + 1));
        if crate::text::char_is_whitespace(v[i]) {
            if start < i {
                let w = string_from_chars(&v, start, i);
                out.push(w);
                assert(views(out@) == before.push(w@));
                assert(before + (seq![cur] + words_from(v@.skip(i + 1), seq![])) == before.push(
                    w@,
                ) + words_from(v@.skip(i + 1), seq![]));
            } else {
                assert(flush(cur) == Seq::<Seq<char>>::empty());
                assert(seq![] + words_from(v@.skip(i + 1), seq![]) == words_from(
                    v@.skip(i + 1),
                    seq![],
                ));
            }
            assert(v@.subrange(i + 1, i + 1) == Seq::<char>::empty());
            start = i + 1;
        } else {
            assert(v@.subrange(start as int, i + 1) == cur.push(v@[i as int]));
        }
        i = i + 1;
    }
    assert(v@.skip(n as int) == Seq::<char>::empty());
    if start < n {
        let w = string_from_chars(&v, start, n);
        let ghost before = views(out@);
        out.push(w);
        assert(views(out@) == before.push(w@));
    }
    out
}


/// Appends to `out` the wrapped lines of one paragraph's `ws`.
fn wrap_paragraph<F: Fn(&str) -> bool>(ws: &Vec<String>, fits: &F, out: &mut Vec<String>)
    requires
        forall|t: &str| call_requires(*fits, (t,)),
    ensures
        forall|sf: spec_fn(Seq<char>) -> bool|
            answers_as(*fits, sf) ==> views(final(out)@) == views(old(out)@) + wrap_words(
                views(ws@),
                seq![],
                sf,
            ),
{
    let ghost start = views(out@);
    let mut cur = String::new();
    let mut i: usize = 0;
    assert(views(ws@).skip(0) == views(ws@));
    while i < ws.len()
        invariant
            i <= ws@.len(),
            forall|t: &str| call_requires(*fits, (t,)),
            forall|sf: spec_fn(Seq<char>) -> bool|
                answers_as(*fits, sf) ==> views(out@) + wrap_words(
                    views(ws@).skip(i as int),
                    cur@,
                    sf,
                ) == start + wrap_words(views(ws@), seq![], sf),
        decreases ws.len() - i,
    {
        let w = &ws[i];
        let ghost rest = views(ws@).skip(i as int);
        assert(rest[0] == w@);
        assert(rest.drop_first() == views(ws@).skip(i + 1));
        let test = if cur.as_str().is_empty() {
            w.clone()
        } else {
            let mut t = cur.clone();
            push_char(&mut t, ' ');
            t.append(w.as_str());
            t
        };
        assert(test@ == extend_line(cur@, w@));
        let ok = fits(test.as_str());
        let ghost before = views(out@);
        let ghost old_cur = cur;
        if ok {
            cur = test;
        } else {
            if !cur.as_str().is_empty() {
                out.push(cur);
                assert(views(out@) == before.push(cur@));
            }
            cur = w.clone();
        }
        proof {
            assert forall|sf: spec_fn(Seq<char>) -> bool| answers_as(*fits, sf) implies views(out@)
                + wrap_words(views(ws@).skip(i + 1), cur@, sf) == start + wrap_words(
                views(ws@),
                seq![],
                sf,
            ) by {
                assert(ok == sf(test@));
                if !ok {
                    assert(views(out@) == before + flush(old_cur@)) by {
                        if old_cur@.len() == 0 {
                            assert(before + flush(old_cur@) == before);
                        }
                    }
                    assert(before + (flush(old_cur@) + wrap_words(views(ws@).skip(i + 1), w@, sf))
                        == before + flush(old_cur@) + wrap_words(views(ws@).skip(i + 1), w@, sf));
                }
            }
        }
        i = i + 1;
    }
    let ghost before = views(out@);
    let ghost last = cur@;
    if !cur.as_str().is_empty() {
        out.push(cur);
        assert(views(out@) == before.push(last));
    }
    proof {
        assert(views(ws@).skip(i as int) == Seq::<Seq<char>>::empty());
        assert(views(out@) == before + flush(last)) by {
            if last.len() == 0 {
                assert(before + flush(last) == before);
            }
        }
    }
}

impl Compositor {
    /// The lines of `text` for the picture: each paragraph wrapped greedily, a word joining
    /// the line while `fits` accepts the longer line (the caller measures it with the font).
    /// When `fits` answers as a predicate `sf` does, the lines are `wrap_text(text, sf)`.
    pub fn wrap_text<F: Fn(&str) -> bool>(text: &str, fits: F) -> (r: Vec<String>)
        requires
            forall|t: &str| call_requires(fits, (t,)),
        ensures
            forall|sf: spec_fn(Seq<char>) -> bool|
                answers_as(fits, sf) ==> views(r@) == wrap_text(text@, sf),
    {
        let ps = split_paragraphs(text);
        let mut out: Vec<String> = Vec::new();
        let mut i: usize = 0;
        assert(views(ps@).skip(0) == views(ps@));
        while i < ps.len()
            invariant
                i <= ps@.len(),
                views(ps@) == paragraphs(text@),
                forall|t: &str| call_requires(fits, (t,)),
                forall|sf: spec_fn(Seq<char>) -> bool|
                    answers_as(fits, sf) ==> views(out@) + wrap_paragraphs(
                        views(ps@).skip(i as int),
                        sf,
                    ) == wrap_text(text@, sf),
            decreases ps.len() - i,
        {
            let ws = split_words(ps[i].as_str());
            let ghost before = views(out@);
            wrap_paragraph(&ws, &fits, &mut out);
            proof {
                let rest = views(ps@).skip(i as int);
                assert(rest[0] == ps@[i as int]@);
                assert(rest.drop_first() == views(ps@).skip(i + 1));
                assert forall|sf: spec_fn(Seq<char>) -> bool| answers_as(fits, sf) implies views(
                    out@,
                ) + wrap_paragraphs(views(ps@).skip(i + 1), sf) == wrap_text(text@, sf) by {
                    assert(before + (wrap_words(words(rest[0]), seq![], sf) + wrap_paragraphs(
                        rest.drop_first(),
                        sf,
                    )) == before + wrap_words(words(rest[0]), seq![], sf) + wrap_paragraphs(
                        rest.drop_first(),
                        sf,
                    ));
                }
            }
            i = i + 1;
        }
        proof {
            assert(views(ps@).skip(i as int) == Seq::<Seq<char>>::empty());
            assert forall|sf: spec_fn(Seq<char>) -> bool| answers_as(fits, sf) implies views(out@)
                == wrap_text(text@, sf) by {
                assert(views(out@) + Seq::<Seq<char>>::empty() == views(out@));
            }
        }
        out
    }
}


/// The words of each line of `ls`, in order.
pub open spec fn all_words(ls: Seq<Seq<char>>) -> Seq<Seq<char>>
    decreases ls.len(),
{
    if ls.len() == 0 {
        seq![]
    } else {
        words(ls[0]) + all_words(ls.drop_first())
    }
}

/// A word: not empty, and without white space.
pub open spec fn is_word(w: Seq<char>) -> bool {
    w.len() > 0 && forall|i: int| 0 <= i < w.len() ==> !is_whitespace(#[trigger] w[i])
}

/// Words joined by single spaces.
pub open spec fn joined(ws: Seq<Seq<char>>) -> Seq<char>
    decreases ws.len(),
{
    if ws.len() == 0 {
        seq![]
    } else if ws.len() == 1 {
        ws[0]
    } else {
        ws[0] + seq![' '] + joined(ws.drop_first())
    }
}

proof fn lemma_all_words_append(a: Seq<Seq<char>>, b: Seq<Seq<char>>)
    ensures
        all_words(a + b) == all_words(a) + all_words(b),
    decreases a.len(),
{
    if a.len() == 0 {
        assert(a + b == b);
    } else {
        assert((a + b).drop_first() == a.drop_first() + b);
        lemma_all_words_append(a.drop_first(), b);
        assert(words(a[0]) + (all_words(a.drop_first()) + all_words(b)) == words(a[0])
            + all_words(a.drop_first()) + all_words(b));
    }
}

/// Reading the characters of a word extends the word being read.
proof fn lemma_words_from_word(w: Seq<char>, t: Seq<char>, cur: Seq<char>)
    requires
        forall|i: int| 0 <= i < w.len() ==> !is_whitespace(#[trigger] w[i]),
    ensures
        words_from(w + t, cur) == words_from(t, cur + w),
    decreases w.len(),
{
    if w.len() == 0 {
        assert(w + t == t);
        assert(cur + w == cur);
    } else {
        assert((w + t)[0] == w[0]);
        assert((w + t).drop_first() == w.drop_first() + t);
        assert(cur.push(w[0]) + w.drop_first() == cur + w);
        assert forall|i: int| 0 <= i < w.drop_first().len() implies !is_whitespace(
            #[trigger] w.drop_first()[i],
        ) by {
            assert(w.drop_first()[i] == w[i + 1]);
        }
        lemma_words_from_word(w.drop_first(), t, cur.push(w[0]));
    }
}

/// Words joined by single spaces read back as the same words.
proof fn lemma_words_of_joined(ws: Seq<Seq<char>>)
    requires
        forall|i: int| 0 <= i < ws.len() ==> is_word(#[trigger] ws[i]),
    ensures
        words(joined(ws)) == ws,
    decreases ws.len(),
{
    if ws.len() == 0 {
    } else if ws.len() == 1 {
        assert(is_word(ws[0]));
        lemma_words_from_word(ws[0], seq![], seq![]);
        assert(ws[0] + Seq::<char>::empty() == ws[0]);
        assert(Seq::<char>::empty() + ws[0] == ws[0]);
        assert(ws =~= seq![ws[0]]);
    } else {
        let w = ws[0];
        let rest = joined(ws.drop_first());
        assert(is_word(w));
        assert(w + seq![' '] + rest == w + (seq![' '] + rest));
        lemma_words_from_word(w, seq![' '] + rest, seq![]);
        assert(Seq::<char>::empty() + w == w);
        assert((seq![' '] + rest)[0] == ' ');
        assert((seq![' '] + rest).drop_first() == rest);
        assert forall|i: int| 0 <= i < ws.drop_first().len() implies is_word(
            #[trigger] ws.drop_first()[i],
        ) by {
            assert(ws.drop_first()[i] == ws[i + 1]);
        }
        lemma_words_of_joined(ws.drop_first());
        assert(ws == seq![w] + ws.drop_first());
    }
}

proof fn lemma_joined_non_empty(ws: Seq<Seq<char>>)
    requires
        ws.len() > 0,
        is_word(ws[0]),
    ensures
        joined(ws).len() > 0,
{
    if ws.len() > 1 {
        assert((ws[0] + seq![' '] + joined(ws.drop_first())).len() >= ws[0].len());
    }
}

/// Adding a word to a line of joined words joins one word more.
proof fn lemma_extend_joined(acc: Seq<Seq<char>>, w: Seq<char>)
    requires
        forall|i: int| 0 <= i < acc.len() ==> is_word(#[trigger] acc[i]),
    ensures
        extend_line(joined(acc), w) == joined(acc.push(w)),
    decreases acc.len(),
{
    if acc.len() == 0 {
        assert(acc.push(w) =~= seq![w]);
    } else {
        assert(is_word(acc[0]));
        lemma_joined_non_empty(acc);
        let tail = acc.drop_first();
        assert(acc.push(w).drop_first() =~= tail.push(w));
        assert(acc.push(w)[0] == acc[0]);
        assert(acc.push(w).len() >= 2);
        assert(joined(acc.push(w)) == acc[0] + seq![' '] + joined(tail.push(w)));
        assert(extend_line(joined(acc), w) == joined(acc) + seq![' '] + w);
        if acc.len() == 1 {
            assert(tail.push(w) =~= seq![w]);
            assert(joined(tail.push(w)) == w);
            assert(joined(acc) == acc[0]);
        } else {
            assert(joined(acc) == acc[0] + seq![' '] + joined(tail));
            assert forall|i: int| 0 <= i < tail.len() implies is_word(#[trigger] tail[i]) by {
                assert(tail[i] == acc[i + 1]);
            }
            assert(is_word(tail[0]));
            lemma_joined_non_empty(tail);
            lemma_extend_joined(tail, w);
            assert(acc[0] + seq![' '] + (joined(tail) + seq![' '] + w) == acc[0] + seq![' ']
                + joined(tail) + seq![' '] + w);
        }
    }
}

/// The greedy wrap keeps the words: those of its lines are those of the line it started
/// with, then the given ones.
proof fn lemma_wrap_words_keeps_words(
    ws: Seq<Seq<char>>,
    acc: Seq<Seq<char>>,
    fits: spec_fn(Seq<char>) -> bool,
)
    requires
        forall|i: int| 0 <= i < ws.len() ==> is_word(#[trigger] ws[i]),
        forall|i: int| 0 <= i < acc.len() ==> is_word(#[trigger] acc[i]),
    ensures
        all_words(wrap_words(ws, joined(acc), fits)) == acc + ws,
    decreases ws.len(),
{
    if acc.len() > 0 {
        assert(is_word(acc[0]));
        lemma_joined_non_empty(acc);
    }
    if ws.len() == 0 {
        if acc.len() > 0 {
            lemma_words_of_joined(acc);
            assert(all_words(seq![joined(acc)]) == words(joined(acc)) + all_words(
                seq![joined(acc)].drop_first(),
            ));
            assert(seq![joined(acc)].drop_first() =~= Seq::<Seq<char>>::empty());
        }
        assert(acc + ws == acc);
    } else {
        let w = ws[0];
        let rest = ws.drop_first();
        assert forall|i: int| 0 <= i < rest.len() implies is_word(#[trigger] rest[i]) by {
            assert(rest[i] == ws[i + 1]);
        }
        lemma_extend_joined(acc, w);
        let test = extend_line(joined(acc), w);
        assert(is_word(w));
        if fits(test) {
            assert forall|i: int| 0 <= i < acc.push(w).len() implies is_word(
                #[trigger] acc.push(w)[i],
            ) by {
                if i < acc.len() {
                    assert(acc.push(w)[i] == acc[i]);
                }
            }
            lemma_wrap_words_keeps_words(rest, acc.push(w), fits);
            assert(acc.push(w) + rest =~= acc + ws);
        } else {
            assert(joined(seq![w]) == w);
            assert forall|i: int| 0 <= i < seq![w].len() implies is_word(#[trigger] seq![w][i]) by {
            }
            lemma_wrap_words_keeps_words(rest, seq![w], fits);
            lemma_all_words_append(flush(joined(acc)), wrap_words(rest, w, fits));
            if acc.len() > 0 {
                lemma_words_of_joined(acc);
                assert(seq![joined(acc)].drop_first() =~= Seq::<Seq<char>>::empty());
                assert(flush(joined(acc)) == seq![joined(acc)]);
                assert(all_words(seq![joined(acc)]) == words(joined(acc)) + all_words(
                    Seq::<Seq<char>>::empty(),
                ));
                assert(all_words(flush(joined(acc))) == acc + Seq::<Seq<char>>::empty());
            } else {
                assert(flush(joined(acc)) =~= Seq::<Seq<char>>::empty());
            }
            assert(acc + (seq![w] + rest) =~= acc + ws);
        }
    }
}


/// The words of `words_from(s, cur)` are words, when `cur` holds no white space.
proof fn lemma_words_from_are_words(s: Seq<char>, cur: Seq<char>)
    requires
        forall|i: int| 0 <= i < cur.len() ==> !is_whitespace(#[trigger] cur[i]),
    ensures
        forall|i: int| 0 <= i < words_from(s, cur).len() ==> is_word(#[trigger] words_from(s, cur)[i]),
    decreases s.len(),
{
    if s.len() == 0 {
        if cur.len() > 0 {
            assert(words_from(s, cur) == seq![cur]);
            assert(is_word(cur));
        } else {
            assert(words_from(s, cur) == Seq::<Seq<char>>::empty());
        }
    } else if is_whitespace(s[0]) {
        lemma_words_from_are_words(s.drop_first(), seq![]);
        let head = flush(cur);
        let tail = words_from(s.drop_first(), seq![]);
        assert(words_from(s, cur) == head + tail);
        if cur.len() > 0 {
            assert(is_word(cur));
        }
        assert forall|i: int| 0 <= i < (head + tail).len() implies is_word(
            #[trigger] (head + tail)[i],
        ) by {
            if i < head.len() {
                assert((head + tail)[i] == cur);
            } else {
                assert((head + tail)[i] == tail[i - head.len()]);
            }
        }
    } else {
        assert forall|i: int| 0 <= i < cur.push(s[0]).len() implies !is_whitespace(
            #[trigger] cur.push(s[0])[i],
        ) by {
            if i < cur.len() {
                assert(cur.push(s[0])[i] == cur[i]);
            }
        }
        lemma_words_from_are_words(s.drop_first(), cur.push(s[0]));
        assert(words_from(s, cur) == words_from(s.drop_first(), cur.push(s[0])));
    }
}

/// The words that end inside `a`, when reading starts with `cur`.
pub open spec fn words_done(a: Seq<char>, cur: Seq<char>) -> Seq<Seq<char>>
    decreases a.len(),
{
    if a.len() == 0 {
        seq![]
    } else if is_whitespace(a[0]) {
        flush(cur) + words_done(a.drop_first(), seq![])
    } else {
        words_done(a.drop_first(), cur.push(a[0]))
    }
}

/// The word still being read at the end of `a`, when reading starts with `cur`.
pub open spec fn word_pending(a: Seq<char>, cur: Seq<char>) -> Seq<char>
    decreases a.len(),
{
    if a.len() == 0 {
        cur
    } else if is_whitespace(a[0]) {
        word_pending(a.drop_first(), seq![])
    } else {
        word_pending(a.drop_first(), cur.push(a[0]))
    }
}

proof fn lemma_words_from_concat(a: Seq<char>, t: Seq<char>, cur: Seq<char>)
    ensures
        words_from(a + t, cur) == words_done(a, cur) + words_from(t, word_pending(a, cur)),
    decreases a.len(),
{
    if a.len() == 0 {
        assert(a + t == t);
    } else {
        assert((a + t)[0] == a[0]);
        assert((a + t).drop_first() == a.drop_first() + t);
        if is_whitespace(a[0]) {
            lemma_words_from_concat(a.drop_first(), t, seq![]);
            assert(flush(cur) + (words_done(a.drop_first(), seq![]) + words_from(
                t,
                word_pending(a.drop_first(), seq![]),
            )) == flush(cur) + words_done(a.drop_first(), seq![]) + words_from(
                t,
                word_pending(a.drop_first(), seq![]),
            ));
        } else {
            lemma_words_from_concat(a.drop_first(), t, cur.push(a[0]));
        }
    }
}

/// White space separates words: those of `a`, a white space, `b` are those of `a` then `b`.
proof fn lemma_words_split_at_space(a: Seq<char>, c: char, b: Seq<char>)
    requires
        is_whitespace(c),
    ensures
        words(a + seq![c] + b) == words(a) + words(b),
{
    lemma_words_from_concat(a, seq![c] + b, seq![]);
    assert(a + seq![c] + b == a + (seq![c] + b));
    assert((seq![c] + b)[0] == c);
    assert((seq![c] + b).drop_first() == b);
    lemma_words_from_concat(a, seq![], seq![]);
    assert(a + Seq::<char>::empty() == a);
    assert(words_from(Seq::<char>::empty(), word_pending(a, seq![])) == flush(
        word_pending(a, seq![]),
    ));
    assert(words_done(a, seq![]) + (flush(word_pending(a, seq![])) + words(b)) == words_done(
        a,
        seq![],
    ) + flush(word_pending(a, seq![])) + words(b));
}

/// The words of the paragraphs are the words of the text (a line break is white space).
proof fn lemma_paragraph_words(s: Seq<char>, cur: Seq<char>)
    ensures
        all_words(split_newlines_from(s, cur)) == words(cur + s),
    decreases s.len(),
{
    if s.len() == 0 {
        assert(cur + s == cur);
        assert(seq![cur].drop_first() =~= Seq::<Seq<char>>::empty());
        assert(all_words(seq![cur]) == words(cur) + all_words(Seq::<Seq<char>>::empty()));
    } else if s[0] == '\n' {
        lemma_paragraph_words(s.drop_first(), seq![]);
        assert(Seq::<char>::empty() + s.drop_first() == s.drop_first());
        let ps = seq![cur] + split_newlines_from(s.drop_first(), seq![]);
        assert(ps[0] == cur);
        assert(ps.drop_first() == split_newlines_from(s.drop_first(), seq![]));
        assert(is_whitespace('\n'));
        lemma_words_split_at_space(cur, '\n', s.drop_first());
        assert(cur + s == cur + seq!['\n'] + s.drop_first());
    } else {
        lemma_paragraph_words(s.drop_first(), cur.push(s[0]));
        assert(cur.push(s[0]) + s.drop_first() == cur + s);
    }
}

proof fn lemma_wrap_paragraphs_keeps_words(ps: Seq<Seq<char>>, fits: spec_fn(Seq<char>) -> bool)
    ensures
        all_words(wrap_paragraphs(ps, fits)) == all_words(ps),
    decreases ps.len(),
{
    if ps.len() > 0 {
        lemma_wrap_paragraphs_keeps_words(ps.drop_first(), fits);
        lemma_words_from_are_words(ps[0], seq![]);
        assert(joined(Seq::<Seq<char>>::empty()) == Seq::<char>::empty());
        lemma_wrap_words_keeps_words(words(ps[0]), seq![], fits);
        assert(Seq::<Seq<char>>::empty() + words(ps[0]) == words(ps[0]));
        lemma_all_words_append(
            wrap_words(words(ps[0]), seq![], fits),
            wrap_paragraphs(ps.drop_first(), fits),
        );
    }
}

/// Wrapping loses no word and adds none: read line by line, the wrapped lines hold the
/// words of the text in their order, whatever the width test.
pub proof fn lemma_wrap_keeps_words(text: Seq<char>, fits: spec_fn(Seq<char>) -> bool)
    ensures
        all_words(wrap_text(text, fits)) == words(text),
{
    lemma_wrap_paragraphs_keeps_words(paragraphs(text), fits);
    lemma_paragraph_words(text, seq![]);
    assert(Seq::<char>::empty() + text == text);
}


/// Every line of `ls` fits unless it holds a single word.
pub open spec fn lines_fit(ls: Seq<Seq<char>>, fits: spec_fn(Seq<char>) -> bool) -> bool {
    forall|i: int| 0 <= i < ls.len() ==> (words(#[trigger] ls[i]).len() > 1 ==> fits(ls[i]))
}

proof fn lemma_lines_fit_append(a: Seq<Seq<char>>, b: Seq<Seq<char>>, fits: spec_fn(Seq<char>) -> bool)
    requires
        lines_fit(a, fits),
        lines_fit(b, fits),
    ensures
        lines_fit(a + b, fits),
{
    assert forall|i: int| 0 <= i < (a + b).len() implies (words(#[trigger] (a + b)[i]).len() > 1
        ==> fits((a + b)[i])) by {
        if i < a.len() {
            assert((a + b)[i] == a[i]);
        } else {
            assert((a + b)[i] == b[i - a.len()]);
        }
    }
}

proof fn lemma_wrap_words_lines_fit(
    ws: Seq<Seq<char>>,
    acc: Seq<Seq<char>>,
    fits: spec_fn(Seq<char>) -> bool,
)
    requires
        forall|i: int| 0 <= i < ws.len() ==> is_word(#[trigger] ws[i]),
        forall|i: int| 0 <= i < acc.len() ==> is_word(#[trigger] acc[i]),
        acc.len() > 1 ==> fits(joined(acc)),
    ensures
        lines_fit(wrap_words(ws, joined(acc), fits), fits),
    decreases ws.len(),
{
    if acc.len() > 0 {
        assert(is_word(acc[0]));
        lemma_joined_non_empty(acc);
        lemma_words_of_joined(acc);
    }
    if ws.len() == 0 {
        if acc.len() > 0 {
            assert(flush(joined(acc)) == seq![joined(acc)]);
        } else {
            assert(flush(joined(acc)) =~= Seq::<Seq<char>>::empty());
        }
    } else {
        let w = ws[0];
        let rest = ws.drop_first();
        assert forall|i: int| 0 <= i < rest.len() implies is_word(#[trigger] rest[i]) by {
            assert(rest[i] == ws[i + 1]);
        }
        lemma_extend_joined(acc, w);
        let test = extend_line(joined(acc), w);
        assert(is_word(w));
        if fits(test) {
            assert forall|i: int| 0 <= i < acc.push(w).len() implies is_word(
                #[trigger] acc.push(w)[i],
            ) by {
                if i < acc.len() {
                    assert(acc.push(w)[i] == acc[i]);
                }
            }
            lemma_wrap_words_lines_fit(rest, acc.push(w), fits);
        } else {
            assert(joined(seq![w]) == w);
            assert forall|i: int| 0 <= i < seq![w].len() implies is_word(#[trigger] seq![w][i]) by {
            }
            lemma_wrap_words_lines_fit(rest, seq![w], fits);
            if acc.len() > 0 {
                assert(flush(joined(acc)) == seq![joined(acc)]);
            } else {
                assert(flush(joined(acc)) =~= Seq::<Seq<char>>::empty());
            }
            lemma_lines_fit_append(flush(joined(acc)), wrap_words(rest, w, fits), fits);
        }
    }
}

proof fn lemma_wrap_paragraphs_lines_fit(ps: Seq<Seq<char>>, fits: spec_fn(Seq<char>) -> bool)
    ensures
        lines_fit(wrap_paragraphs(ps, fits), fits),
    decreases ps.len(),
{
    if ps.len() > 0 {
        lemma_wrap_paragraphs_lines_fit(ps.drop_first(), fits);
        lemma_words_from_are_words(ps[0], seq![]);
        assert(joined(Seq::<Seq<char>>::empty()) == Seq::<char>::empty());
        lemma_wrap_words_lines_fit(words(ps[0]), seq![], fits);
        lemma_lines_fit_append(
            wrap_words(words(ps[0]), seq![], fits),
            wrap_paragraphs(ps.drop_first(), fits),
            fits,
        );
    }
}

/// No wrapped line is too wide unless it is a single word: every line of several words
/// passed the width test.
pub proof fn lemma_wrapped_lines_fit(text: Seq<char>, fits: spec_fn(Seq<char>) -> bool)
    ensures
        lines_fit(wrap_text(text, fits), fits),
{
    lemma_wrap_paragraphs_lines_fit(paragraphs(text), fits);
}

/// A wrapped line: not empty, and its words joined by single spaces.
pub open spec fn is_joined_line(l: Seq<char>) -> bool {
    l.len() > 0 && l == joined(words(l))
}

/// No line of `ls` could have taken the first word of the line after it: with that word
/// added it fails the width test.
pub open spec fn greedy(ls: Seq<Seq<char>>, fits: spec_fn(Seq<char>) -> bool) -> bool {
    forall|i: int|
        0 <= i < ls.len() - 1 ==> !fits(extend_line(#[trigger] ls[i], words(ls[i + 1])[0]))
}

proof fn lemma_joined_line(acc: Seq<Seq<char>>)
    requires
        acc.len() > 0,
        forall|i: int| 0 <= i < acc.len() ==> is_word(#[trigger] acc[i]),
    ensures
        is_joined_line(joined(acc)),
        words(joined(acc)) == acc,
{
    assert(is_word(acc[0]));
    lemma_joined_non_empty(acc);
    lemma_words_of_joined(acc);
}

/// The lines of the greedy wrap after the line of the words `acc` are joined lines, the
/// wrap is greedy, and the first line starts with the first word.
proof fn lemma_wrap_words_shape(
    ws: Seq<Seq<char>>,
    acc: Seq<Seq<char>>,
    fits: spec_fn(Seq<char>) -> bool,
)
    requires
        forall|i: int| 0 <= i < ws.len() ==> is_word(#[trigger] ws[i]),
        forall|i: int| 0 <= i < acc.len() ==> is_word(#[trigger] acc[i]),
    ensures
        forall|i: int|
            0 <= i < wrap_words(ws, joined(acc), fits).len() ==> is_joined_line(
                #[trigger] wrap_words(ws, joined(acc), fits)[i],
            ),
        greedy(wrap_words(ws, joined(acc), fits), fits),
        acc.len() > 0 ==> wrap_words(ws, joined(acc), fits).len() > 0 && words(
            wrap_words(ws, joined(acc), fits)[0],
        ).len() > 0 && words(wrap_words(ws, joined(acc), fits)[0])[0] == acc[0],
        acc.len() == 0 && ws.len() > 0 ==> wrap_words(ws, joined(acc), fits).len() > 0 && words(
            wrap_words(ws, joined(acc), fits)[0],
        ).len() > 0 && words(wrap_words(ws, joined(acc), fits)[0])[0] == ws[0],
    decreases ws.len(),
{
    let ls = wrap_words(ws, joined(acc), fits);
    if acc.len() > 0 {
        lemma_joined_line(acc);
        assert(flush(joined(acc)) == seq![joined(acc)]);
    } else {
        assert(joined(acc) == Seq::<char>::empty());
        assert(flush(joined(acc)) =~= Seq::<Seq<char>>::empty());
    }
    if ws.len() > 0 {
        let w = ws[0];
        let rest = ws.drop_first();
        assert forall|i: int| 0 <= i < rest.len() implies is_word(#[trigger] rest[i]) by {
            assert(rest[i] == ws[i + 1]);
        }
        lemma_extend_joined(acc, w);
        let test = extend_line(joined(acc), w);
        assert(is_word(w));
        if fits(test) {
            let acc2 = acc.push(w);
            assert forall|i: int| 0 <= i < acc2.len() implies is_word(#[trigger] acc2[i]) by {
                if i < acc.len() {
                    assert(acc2[i] == acc[i]);
                }
            }
            lemma_wrap_words_shape(rest, acc2, fits);
            assert(ls == wrap_words(rest, joined(acc2), fits));
            if acc.len() > 0 {
                assert(acc2[0] == acc[0]);
            } else {
                assert(acc2[0] == w);
            }
        } else {
            let one = seq![w];
            assert(joined(one) == w);
            assert forall|i: int| 0 <= i < one.len() implies is_word(#[trigger] one[i]) by {}
            lemma_wrap_words_shape(rest, one, fits);
            let tail = wrap_words(rest, w, fits);
            assert(ls == flush(joined(acc)) + tail);
            if acc.len() == 0 {
                assert(ls =~= tail);
            } else {
                assert(ls =~= seq![joined(acc)] + tail);
                assert forall|i: int| 0 <= i < ls.len() implies is_joined_line(#[trigger] ls[i]) by {
                    if i > 0 {
                        assert(ls[i] == tail[i - 1]);
                    }
                }
                assert forall|i: int| 0 <= i < ls.len() - 1 implies !fits(
                    extend_line(#[trigger] ls[i], words(ls[i + 1])[0]),
                ) by {
                    if i > 0 {
                        assert(ls[i] == tail[i - 1]);
                        assert(ls[i + 1] == tail[i]);
                    } else {
                        assert(ls[1] == tail[0]);
                    }
                }
            }
        }
    }
}

proof fn lemma_wrap_paragraphs_joined(ps: Seq<Seq<char>>, fits: spec_fn(Seq<char>) -> bool)
    ensures
        forall|i: int|
            0 <= i < wrap_paragraphs(ps, fits).len() ==> is_joined_line(
                #[trigger] wrap_paragraphs(ps, fits)[i],
            ),
    decreases ps.len(),
{
    if ps.len() > 0 {
        lemma_wrap_paragraphs_joined(ps.drop_first(), fits);
        lemma_words_from_are_words(ps[0], seq![]);
        let e = Seq::<Seq<char>>::empty();
        assert(joined(e) == Seq::<char>::empty());
        lemma_wrap_words_shape(words(ps[0]), e, fits);
        let a = wrap_words(words(ps[0]), seq![], fits);
        let b = wrap_paragraphs(ps.drop_first(), fits);
        assert forall|i: int| 0 <= i < (a + b).len() implies is_joined_line(#[trigger] (a + b)[i]) by {
            if i < a.len() {
                assert((a + b)[i] == a[i]);
            } else {
                assert((a + b)[i] == b[i - a.len()]);
            }
        }
    }
}

/// Every wrapped line is a line of words: not empty, with its words joined by single
/// spaces.
pub proof fn lemma_wrapped_lines_are_joined(text: Seq<char>, fits: spec_fn(Seq<char>) -> bool)
    ensures
        forall|i: int|
            0 <= i < wrap_text(text, fits).len() ==> is_joined_line(#[trigger] wrap_text(text, fits)[i]),
{
    lemma_wrap_paragraphs_joined(paragraphs(text), fits);
}

/// Within a paragraph the wrap is greedy: no line could have taken the first word of the
/// next line.
pub proof fn lemma_paragraph_wrap_greedy(paragraph: Seq<char>, fits: spec_fn(Seq<char>) -> bool)
    ensures
        greedy(wrap_words(words(paragraph), seq![], fits), fits),
{
    lemma_words_from_are_words(paragraph, seq![]);
    let e = Seq::<Seq<char>>::empty();
    assert(joined(e) == Seq::<char>::empty());
    lemma_wrap_words_shape(words(paragraph), e, fits);
}

} // verus!
