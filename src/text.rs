//! Words, greedy word wrapping, line splitting and decimal numerals.

use vstd::prelude::*;

verus! {

/// Whether a character is white space (the Unicode `White_Space` property).
pub open spec fn is_blank(c: char) -> bool {
    let u = c as u32;
    ||| 9 <= u <= 13
    ||| u == 32
    ||| u == 0x85
    ||| u == 0xA0
    ||| u == 0x1680
    ||| 0x2000 <= u <= 0x200A
    ||| u == 0x2028
    ||| u == 0x2029
    ||| u == 0x202F
    ||| u == 0x205F
    ||| u == 0x3000
}

/// Whether a character is white space.
pub fn blank(c: char) -> (r: bool)
    ensures
        r == is_blank(c),
{
    let u = c as u32;
    (9 <= u && u <= 13) || u == 32 || u == 0x85 || u == 0xA0 || u == 0x1680 || (0x2000 <= u && u
        <= 0x200A) || u == 0x2028 || u == 0x2029 || u == 0x202F || u == 0x205F || u == 0x3000
}

/// The words of a line: its maximal runs of non-blank characters, in order.
pub open spec fn words_of(s: Seq<char>) -> Seq<Seq<char>>
    decreases s.len(),
{
    if s.len() == 0 {
        seq![]
    } else {
        let w = words_of(s.drop_last());
        let c = s.last();
        if is_blank(c) {
            w
        } else if s.len() >= 2 && !is_blank(s[s.len() - 2]) {
            w.update(w.len() - 1, w.last().push(c))
        } else {
            w.push(seq![c])
        }
    }
}

/// The views of a sequence of character vectors.
pub open spec fn lines_view(v: Seq<Vec<char>>) -> Seq<Seq<char>> {
    v.map_values(|l: Vec<char>| l@)
}

/// Lines joined with single spaces.
pub open spec fn join_lines(ls: Seq<Seq<char>>) -> Seq<char>
    decreases ls.len(),
{
    if ls.len() == 0 {
        seq![]
    } else if ls.len() == 1 {
        ls[0]
    } else {
        ls[0] + seq![' '] + join_lines(ls.drop_first())
    }
}

/// Greedy filling: words are added to the current line, separated by single
/// spaces, until the next word would make it longer than `width`; then the
/// line is complete and the word starts the next one.
pub open spec fn greedy(ws: Seq<Seq<char>>, width: int, cur: Seq<char>) -> Seq<Seq<char>>
    decreases ws.len(),
{
    if ws.len() == 0 {
        if cur.len() == 0 {
            seq![]
        } else {
            seq![cur]
        }
    } else {
        let w = ws[0];
        if cur.len() > 0 && cur.len() + w.len() + 1 > width {
            seq![cur] + greedy(ws.drop_first(), width, w)
        } else {
            greedy(
                ws.drop_first(),
                width,
                if cur.len() == 0 {
                    w
                } else {
                    cur + seq![' '] + w
                },
            )
        }
    }
}

/// A line that fits is kept as it is; a longer blank line becomes one empty
/// line; any other longer line is re-filled greedily from its words.
pub open spec fn wrapped(line: Seq<char>, width: int) -> Seq<Seq<char>> {
    if line.len() <= width {
        seq![line]
    } else if words_of(line).len() == 0 {
        seq![seq![]]
    } else {
        greedy(words_of(line), width, seq![])
    }
}

/// A wrapped line is acceptable when it fits, or when it is one word that is
/// too long to fit on any line.
pub open spec fn fits_or_single_word(l: Seq<char>, width: int) -> bool {
    l.len() <= width || words_of(l) == seq![l]
}

/// The words of a line, each as its characters.
pub fn split_words(chars: &Vec<char>) -> (r: Vec<Vec<char>>)
    ensures
        lines_view(r@) == words_of(chars@),
{
    let n = chars.len();
    let mut words: Vec<Vec<char>> = Vec::new();
    let mut cur: Vec<char> = Vec::new();
    let mut i: usize = 0;
    while i < n
        invariant
            n == chars@.len(),
            i <= n,
            words_of(chars@.take(i as int)) == if cur@.len() == 0 {
                lines_view(words@)
            } else {
                lines_view(words@).push(cur@)
            },
            cur@.len() > 0 <==> (i > 0 && !is_blank(chars@[i - 1])),
        decreases n - i,
    {
        let c = chars[i];
        let ghost prefix = chars@.take(i as int);
        assert(chars@.take(i + 1).drop_last() =~= prefix);
        assert(chars@.take(i + 1).last() == c);
        if blank(c) {
            if cur.len() > 0 {
                words.push(cur);
                cur = Vec::new();
                assert(lines_view(words@) =~= words_of(prefix));
            }
        } else {
            let ghost before = lines_view(words@);
            cur.push(c);
            if cur.len() > 1 {
                assert(before.push(cur@) =~= words_of(prefix).update(
                    words_of(prefix).len() - 1,
                    words_of(prefix).last().push(c),
                ));
            } else {
                assert(cur@ =~= seq![c]);
            }
        }
        i += 1;
    }
    assert(chars@.take(n as int) =~= chars@);
    if cur.len() > 0 {
        words.push(cur);
    }
    assert(lines_view(words@) =~= words_of(chars@));
    words
}

/// Greedy filling of words into lines of at most `width` characters.
fn greedy_lines(words: &Vec<Vec<char>>, width: usize) -> (r: Vec<Vec<char>>)
    ensures
        lines_view(r@) == greedy(lines_view(words@), width as int, seq![]),
{
    let ghost ws = lines_view(words@);
    let mut out: Vec<Vec<char>> = Vec::new();
    let mut cur: Vec<char> = Vec::new();
    let mut k: usize = 0;
    assert(ws.skip(0) =~= ws);
    while k < words.len()
        invariant
            ws == lines_view(words@),
            k <= words@.len(),
            lines_view(out@) + greedy(ws.skip(k as int), width as int, cur@) == greedy(
                ws,
                width as int,
                seq![],
            ),
        decreases words@.len() - k,
    {
        let w = &words[k];
        let ghost rest = ws.skip(k as int);
        let ghost before = lines_view(out@);
        assert(rest[0] == w@);
        assert(rest.drop_first() =~= ws.skip(k + 1));
        if cur.len() > 0 && (cur.len() > width || w.len() >= width - cur.len()) {
            let ghost oc = cur@;
            out.push(cur);
            cur = w.clone();
            assert(cur@ =~= w@);
            assert(lines_view(out@) =~= before.push(oc));
            assert(before + greedy(rest, width as int, oc) =~= lines_view(out@) + greedy(
                ws.skip(k + 1),
                width as int,
                cur@,
            ));
        } else {
            let ghost oc = cur@;
            if cur.len() > 0 {
                cur.push(' ');
            }
            let mut more = w.clone();
            assert(more@ =~= w@);
            cur.append(&mut more);
            assert(cur@ =~= if oc.len() == 0 {
                w@
            } else {
                oc + seq![' '] + w@
            });
        }
        k += 1;
    }
    assert(ws.skip(k as int) =~= Seq::<Seq<char>>::empty());
    if cur.len() > 0 {
        out.push(cur);
    }
    assert(lines_view(out@) =~= greedy(ws, width as int, seq![]));
    out
}

/// The lines a text line is shown as on a screen `width` columns wide: the
/// line itself when it fits, else its words filled greedily.
pub fn wrap(line: &str, width: usize) -> (r: Vec<Vec<char>>)
    ensures
        lines_view(r@) == wrapped(line@, width as int),
{
    let chars = crate::render::chars_of(line);
    wrap_chars(chars, width)
}

/// [`wrap`] on a line given as characters.
pub fn wrap_chars(chars: Vec<char>, width: usize) -> (r: Vec<Vec<char>>)
    ensures
        lines_view(r@) == wrapped(chars@, width as int),
{
    if chars.len() <= width {
        let ghost line = chars@;
        let r = vec![chars];
        assert(lines_view(r@) =~= seq![line]);
        r
    } else {
        let words = split_words(&chars);
        if words.len() == 0 {
            let r: Vec<Vec<char>> = vec![Vec::new()];
            assert(lines_view(r@) =~= seq![Seq::<char>::empty()]);
            r
        } else {
            greedy_lines(&words, width)
        }
    }
}

proof fn lemma_words_nonempty(s: Seq<char>)
    requires
        s.len() >= 1,
        !is_blank(s.last()),
    ensures
        words_of(s).len() >= 1,
    decreases s.len(),
{
    if s.len() >= 2 && !is_blank(s[s.len() - 2]) {
        lemma_words_nonempty(s.drop_last());
    }
}

/// Every word is non-empty and holds no white space.
pub open spec fn clean(ws: Seq<Seq<char>>) -> bool {
    forall|k: int|
        0 <= k < ws.len() ==> (#[trigger] ws[k]).len() >= 1 && forall|i: int|
            0 <= i < ws[k].len() ==> !is_blank(#[trigger] ws[k][i])
}

proof fn lemma_words_clean(s: Seq<char>)
    ensures
        clean(words_of(s)),
    decreases s.len(),
{
    if s.len() > 0 {
        lemma_words_clean(s.drop_last());
        if !is_blank(s.last()) && s.len() >= 2 && !is_blank(s[s.len() - 2]) {
            lemma_words_nonempty(s.drop_last());
        }
    }
}

/// A text with a space between two parts has the words of both.
proof fn lemma_words_concat(a: Seq<char>, b: Seq<char>)
    ensures
        words_of(a + seq![' '] + b) == words_of(a) + words_of(b),
    decreases b.len(),
{
    let s = a + seq![' '] + b;
    if b.len() == 0 {
        assert(s.drop_last() =~= a);
        assert(words_of(b) =~= Seq::<Seq<char>>::empty());
        assert(words_of(a) + words_of(b) =~= words_of(a));
    } else {
        let bp = b.drop_last();
        let c = b.last();
        assert(s.drop_last() =~= a + seq![' '] + bp);
        assert(s.last() == c);
        lemma_words_concat(a, bp);
        let wa = words_of(a);
        let wb = words_of(bp);
        if is_blank(c) {
        } else if bp.len() >= 1 && !is_blank(bp.last()) {
            assert(s[s.len() - 2] == bp.last());
            assert(b[b.len() - 2] == bp.last());
            lemma_words_nonempty(bp);
            assert((wa + wb).update((wa + wb).len() - 1, (wa + wb).last().push(c)) =~= wa + wb.update(
                wb.len() - 1,
                wb.last().push(c),
            ));
        } else {
            if bp.len() >= 1 {
                assert(s[s.len() - 2] == bp.last());
                assert(b[b.len() - 2] == bp.last());
            } else {
                assert(s[s.len() - 2] == ' ');
            }
            assert((wa + wb).push(seq![c]) =~= wa + wb.push(seq![c]));
        }
    }
}

/// A word on its own is its only word.
proof fn lemma_word_alone(w: Seq<char>)
    requires
        w.len() >= 1,
        forall|i: int| 0 <= i < w.len() ==> !is_blank(#[trigger] w[i]),
    ensures
        words_of(w) == seq![w],
    decreases w.len(),
{
    let wp = w.drop_last();
    if wp.len() == 0 {
        assert(words_of(wp) =~= Seq::<Seq<char>>::empty());
        assert(seq![w.last()] =~= w);
    } else {
        assert(!is_blank(wp.last()) && wp.last() == w[w.len() - 2]);
        lemma_word_alone(wp);
        assert(wp.push(w.last()) =~= w);
        assert(seq![wp].update(0, wp.push(w.last())) =~= seq![w]);
    }
}

proof fn lemma_greedy_nonempty(ws: Seq<Seq<char>>, width: int, cur: Seq<char>)
    requires
        cur.len() >= 1,
    ensures
        greedy(ws, width, cur).len() >= 1,
    decreases ws.len(),
{
    if ws.len() > 0 {
        let w = ws[0];
        if !(cur.len() + w.len() + 1 > width) {
            lemma_greedy_nonempty(ws.drop_first(), width, cur + seq![' '] + w);
        }
    }
}

proof fn lemma_greedy_words(ws: Seq<Seq<char>>, width: int, cur: Seq<char>)
    requires
        clean(ws),
    ensures
        words_of(join_lines(greedy(ws, width, cur))) == words_of(cur) + ws,
    decreases ws.len(),
{
    if ws.len() == 0 {
        if cur.len() == 0 {
            assert(words_of(cur) =~= Seq::<Seq<char>>::empty());
        }
        assert(words_of(cur) + ws =~= words_of(cur));
    } else {
        let w = ws[0];
        let rest = ws.drop_first();
        assert(clean(rest)) by {
            assert forall|k: int| 0 <= k < rest.len() implies (#[trigger] rest[k]).len() >= 1
                && forall|i: int| 0 <= i < rest[k].len() ==> !is_blank(#[trigger] rest[k][i]) by {
                assert(rest[k] == ws[k + 1]);
            }
        }
        assert(w.len() >= 1 && forall|i: int| 0 <= i < w.len() ==> !is_blank(#[trigger] w[i]));
        lemma_word_alone(w);
        if cur.len() > 0 && cur.len() + w.len() + 1 > width {
            let g = greedy(rest, width, w);
            lemma_greedy_nonempty(rest, width, w);
            lemma_greedy_words(rest, width, w);
            let all = seq![cur] + g;
            assert(all[0] == cur);
            assert(all.drop_first() =~= g);
            lemma_words_concat(cur, join_lines(g));
            assert(words_of(cur) + (seq![w] + rest) =~= words_of(cur) + ws);
        } else {
            let next = if cur.len() == 0 {
                w
            } else {
                cur + seq![' '] + w
            };
            lemma_greedy_words(rest, width, next);
            if cur.len() == 0 {
                assert(words_of(cur) =~= Seq::<Seq<char>>::empty());
                assert(words_of(next) + rest =~= words_of(cur) + ws);
            } else {
                lemma_words_concat(cur, w);
                assert(words_of(next) + rest =~= words_of(cur) + ws);
            }
        }
    }
}

proof fn lemma_greedy_fits(ws: Seq<Seq<char>>, width: int, cur: Seq<char>)
    requires
        clean(ws),
        width >= 0,
        fits_or_single_word(cur, width),
    ensures
        forall|k: int|
            0 <= k < greedy(ws, width, cur).len() ==> fits_or_single_word(
                #[trigger] greedy(ws, width, cur)[k],
                width,
            ),
    decreases ws.len(),
{
    if ws.len() > 0 {
        let w = ws[0];
        let rest = ws.drop_first();
        assert(clean(rest)) by {
            assert forall|k: int| 0 <= k < rest.len() implies (#[trigger] rest[k]).len() >= 1
                && forall|i: int| 0 <= i < rest[k].len() ==> !is_blank(#[trigger] rest[k][i]) by {
                assert(rest[k] == ws[k + 1]);
            }
        }
        assert(w.len() >= 1 && forall|i: int| 0 <= i < w.len() ==> !is_blank(#[trigger] w[i]));
        lemma_word_alone(w);
        if cur.len() > 0 && cur.len() + w.len() + 1 > width {
            lemma_greedy_fits(rest, width, w);
            let g = greedy(rest, width, w);
            assert(greedy(ws, width, cur) == seq![cur] + g);
            assert forall|k: int| 0 <= k < (seq![cur] + g).len() implies fits_or_single_word(
                #[trigger] (seq![cur] + g)[k],
                width,
            ) by {
                if k > 0 {
                    assert((seq![cur] + g)[k] == g[k - 1]);
                }
            }
        } else {
            let next = if cur.len() == 0 {
                w
            } else {
                cur + seq![' '] + w
            };
            assert(greedy(ws, width, cur) == greedy(rest, width, next));
            lemma_greedy_fits(rest, width, next);
        }
    } else if cur.len() > 0 {
        assert(greedy(ws, width, cur) == seq![cur]);
        assert(seq![cur][0] == cur);
    }
}

/// Wrapping is sound: every logical line gives at least one row, every
/// wrapped line fits the width or is a single word too long for any line,
/// and joining the wrapped lines with single spaces gives back the words of
/// the given line, in order.
pub proof fn lemma_wrap_correct(line: Seq<char>, width: int)
    requires
        width >= 1,
    ensures
        wrapped(line, width).len() >= 1,
        words_of(line).len() == 0 ==> wrapped(line, width).len() == 1,
        forall|k: int|
            0 <= k < wrapped(line, width).len() ==> fits_or_single_word(
                #[trigger] wrapped(line, width)[k],
                width,
            ),
        words_of(join_lines(wrapped(line, width))) == words_of(line),
{
    if line.len() <= width {
        assert(join_lines(seq![line]) == line);
    } else if words_of(line).len() == 0 {
        let e = Seq::<char>::empty();
        assert(join_lines(seq![e]) == e);
        assert(words_of(e) =~= Seq::<Seq<char>>::empty());
        assert(seq![e][0] == e);
    } else {
        let ws = words_of(line);
        lemma_words_clean(line);
        lemma_greedy_words(ws, width, seq![]);
        assert(words_of(Seq::<char>::empty()) =~= Seq::<Seq<char>>::empty());
        assert(words_of(Seq::<char>::empty()) + ws =~= ws);
        lemma_greedy_fits(ws, width, seq![]);
        assert(ws[0].len() >= 1);
        assert(greedy(ws, width, seq![]) == greedy(ws.drop_first(), width, ws[0]));
        lemma_greedy_nonempty(ws.drop_first(), width, ws[0]);
    }
}

proof fn lemma_greedy_first(ws: Seq<Seq<char>>, width: int, cur: Seq<char>)
    requires
        clean(ws),
        cur.len() > 0,
        words_of(cur).len() >= 1,
    ensures
        greedy(ws, width, cur).len() >= 1,
        words_of(greedy(ws, width, cur)[0]).len() >= 1,
        words_of(greedy(ws, width, cur)[0])[0] == words_of(cur)[0],
    decreases ws.len(),
{
    if ws.len() == 0 {
        assert(greedy(ws, width, cur) == seq![cur]);
    } else {
        let w = ws[0];
        let rest = ws.drop_first();
        assert(clean(rest)) by {
            assert forall|k: int| 0 <= k < rest.len() implies (#[trigger] rest[k]).len() >= 1
                && forall|i: int| 0 <= i < rest[k].len() ==> !is_blank(#[trigger] rest[k][i]) by {
                assert(rest[k] == ws[k + 1]);
            }
        }
        if cur.len() + w.len() + 1 > width {
            let g = greedy(rest, width, w);
            assert(greedy(ws, width, cur) == seq![cur] + g);
            assert((seq![cur] + g)[0] == cur);
        } else {
            let next = cur + seq![' '] + w;
            assert(w.len() >= 1 && forall|i: int| 0 <= i < w.len() ==> !is_blank(#[trigger] w[i]));
            lemma_word_alone(w);
            lemma_words_concat(cur, w);
            assert(words_of(next)[0] == words_of(cur)[0]);
            lemma_greedy_first(rest, width, next);
        }
    }
}

proof fn lemma_greedy_breaks(ws: Seq<Seq<char>>, width: int, cur: Seq<char>)
    requires
        clean(ws),
        cur.len() > 0 ==> words_of(cur).len() >= 1,
    ensures
        forall|k: int|
            0 <= k < greedy(ws, width, cur).len() - 1 ==> {
                &&& words_of(#[trigger] greedy(ws, width, cur)[k + 1]).len() >= 1
                &&& greedy(ws, width, cur)[k].len() + 1 + words_of(greedy(ws, width, cur)[k + 1])[0].len()
                    > width
            },
    decreases ws.len(),
{
    if ws.len() > 0 {
        let w = ws[0];
        let rest = ws.drop_first();
        assert(clean(rest)) by {
            assert forall|k: int| 0 <= k < rest.len() implies (#[trigger] rest[k]).len() >= 1
                && forall|i: int| 0 <= i < rest[k].len() ==> !is_blank(#[trigger] rest[k][i]) by {
                assert(rest[k] == ws[k + 1]);
            }
        }
        assert(w.len() >= 1 && forall|i: int| 0 <= i < w.len() ==> !is_blank(#[trigger] w[i]));
        lemma_word_alone(w);
        if cur.len() > 0 && cur.len() + w.len() + 1 > width {
            let g = greedy(rest, width, w);
            lemma_greedy_breaks(rest, width, w);
            lemma_greedy_first(rest, width, w);
            let all = seq![cur] + g;
            assert(greedy(ws, width, cur) == all);
            assert forall|k: int| 0 <= k < all.len() - 1 implies {
                &&& words_of(#[trigger] all[k + 1]).len() >= 1
                &&& all[k].len() + 1 + words_of(all[k + 1])[0].len() > width
            } by {
                assert(all[k + 1] == g[k]);
                if k > 0 {
                    let j = k - 1;
                    assert(all[k] == g[j]);
                    assert(words_of(g[j + 1]).len() >= 1);
                    assert(g[j].len() + 1 + words_of(g[j + 1])[0].len() > width);
                } else {
                    assert(all[k] == cur);
                    assert(words_of(g[0])[0] == words_of(w)[0]);
                    assert(words_of(w)[0] == w);
                }
            }
        } else {
            let next = if cur.len() == 0 {
                w
            } else {
                cur + seq![' '] + w
            };
            if cur.len() > 0 {
                lemma_words_concat(cur, w);
            }
            assert(greedy(ws, width, cur) == greedy(rest, width, next));
            lemma_greedy_breaks(rest, width, next);
        }
    }
}

/// Wrapping breaks greedily: between any two consecutive wrapped lines, the
/// first word of the second would not have fitted at the end of the first.
pub proof fn lemma_wrap_breaks_greedily(line: Seq<char>, width: int)
    ensures
        forall|k: int|
            0 <= k < wrapped(line, width).len() - 1 ==> {
                &&& words_of(#[trigger] wrapped(line, width)[k + 1]).len() >= 1
                &&& wrapped(line, width)[k].len() + 1 + words_of(wrapped(line, width)[k + 1])[0].len()
                    > width
            },
{
    if line.len() > width && words_of(line).len() > 0 {
        lemma_words_clean(line);
        assert(words_of(Seq::<char>::empty()) =~= Seq::<Seq<char>>::empty());
        lemma_greedy_breaks(words_of(line), width, seq![]);
    }
}

/// The pieces of a text between its line feeds (one more piece than there
/// are line feeds).
pub open spec fn pieces(s: Seq<char>) -> Seq<Seq<char>>
    decreases s.len(),
{
    if s.len() == 0 {
        seq![seq![]]
    } else {
        let p = pieces(s.drop_last());
        if s.last() == '\n' {
            p.push(seq![])
        } else {
            p.update(p.len() - 1, p.last().push(s.last()))
        }
    }
}

/// A line without the carriage return that ends it, if any.
pub open spec fn strip_cr(l: Seq<char>) -> Seq<char> {
    if l.len() > 0 && l.last() == '\r' {
        l.drop_last()
    } else {
        l
    }
}

/// The logical lines of a text: the pieces between its line feeds, where a
/// final line feed ends the last line rather than starting an empty one,
/// an empty text has no lines, and a line ended by a line feed loses a
/// carriage return just before it.
pub open spec fn logical_lines(s: Seq<char>) -> Seq<Seq<char>> {
    if s.len() == 0 {
        seq![]
    } else {
        let ended = s.last() == '\n';
        let ps = if ended {
            pieces(s.drop_last())
        } else {
            pieces(s)
        };
        Seq::new(
            ps.len(),
            |i: int|
                if i + 1 < ps.len() || ended {
                    strip_cr(ps[i])
                } else {
                    ps[i]
                },
        )
    }
}

/// The pieces of a text between its line feeds.
pub fn split_pieces(chars: &Vec<char>) -> (r: Vec<Vec<char>>)
    ensures
        lines_view(r@) == pieces(chars@),
        r@.len() >= 1,
{
    let n = chars.len();
    let mut done: Vec<Vec<char>> = Vec::new();
    let mut cur: Vec<char> = Vec::new();
    let mut i: usize = 0;
    assert(chars@.take(0) =~= Seq::<char>::empty());
    assert(lines_view(done@).push(cur@) =~= pieces(Seq::<char>::empty()));
    while i < n
        invariant
            n == chars@.len(),
            i <= n,
            pieces(chars@.take(i as int)) == lines_view(done@).push(cur@),
        decreases n - i,
    {
        let c = chars[i];
        assert(chars@.take(i + 1).drop_last() =~= chars@.take(i as int));
        assert(chars@.take(i + 1).last() == c);
        let ghost before = lines_view(done@);
        if c == '\n' {
            let ghost oc = cur@;
            done.push(cur);
            cur = Vec::new();
            assert(lines_view(done@).push(cur@) =~= before.push(oc).push(seq![]));
        } else {
            cur.push(c);
            assert(lines_view(done@).push(cur@) =~= pieces(chars@.take(i as int)).update(
                before.len() as int,
                pieces(chars@.take(i as int)).last().push(c),
            ));
        }
        i += 1;
    }
    assert(chars@.take(n as int) =~= chars@);
    done.push(cur);
    assert(lines_view(done@) =~= pieces(chars@));
    done
}

/// The logical lines of a text.
pub fn split_lines(chars: &Vec<char>) -> (r: Vec<Vec<char>>)
    ensures
        lines_view(r@) == logical_lines(chars@),
{
    let n = chars.len();
    if n == 0 {
        let r: Vec<Vec<char>> = Vec::new();
        assert(lines_view(r@) =~= logical_lines(chars@));
        return r;
    }
    let ended = chars[n - 1] == '\n';
    let ps = if ended {
        let mut body = chars.clone();
        body.pop();
        assert(body@ =~= chars@.drop_last());
        split_pieces(&body)
    } else {
        split_pieces(chars)
    };
    let ghost pv = lines_view(ps@);
    let m = ps.len();
    let mut out: Vec<Vec<char>> = Vec::new();
    let mut k: usize = 0;
    while k < m
        invariant
            m == ps@.len(),
            pv == lines_view(ps@),
            k <= m,
            lines_view(out@) =~= Seq::new(
                k as nat,
                |i: int|
                    if i + 1 < pv.len() || ended {
                        strip_cr(pv[i])
                    } else {
                        pv[i]
                    },
            ),
        decreases m - k,
    {
        let ghost before = lines_view(out@);
        let ghost want = if k + 1 < pv.len() || ended {
            strip_cr(pv[k as int])
        } else {
            pv[k as int]
        };
        let mut line = ps[k].clone();
        assert(line@ =~= pv[k as int]);
        let len = line.len();
        if (k + 1 < m || ended) && len > 0 && line[len - 1] == '\r' {
            line.pop();
        }
        assert(line@ =~= want);
        out.push(line);
        assert(lines_view(out@) =~= before.push(want));
        k += 1;
    }
    assert(lines_view(out@) =~= logical_lines(chars@));
    out
}

/// The width left for text on a terminal `term_width` columns wide, after
/// the margins and indentation.
pub open spec fn usable_width(term_width: int) -> int {
    if term_width >= 6 {
        term_width - 6
    } else {
        0
    }
}

/// The wrapped lines of several logical lines, in order.
pub open spec fn layout(ls: Seq<Seq<char>>, width: int) -> Seq<Seq<char>>
    decreases ls.len(),
{
    if ls.len() == 0 {
        seq![]
    } else {
        layout(ls.drop_last(), width) + wrapped(ls.last(), width)
    }
}

/// The screen lines a narrative text is shown as on a terminal
/// `term_width` columns wide.
pub open spec fn narrative_layout(text: Seq<char>, term_width: int) -> Seq<Seq<char>> {
    layout(logical_lines(text), usable_width(term_width))
}

/// Splits a narrative text at its line feeds and wraps each logical line to
/// the usable width of a terminal `term_width` columns wide.
pub fn layout_narrative(text: &str, term_width: u16) -> (r: Vec<Vec<char>>)
    ensures
        lines_view(r@) == narrative_layout(text@, term_width as int),
{
    let width: usize = if term_width >= 6 {
        (term_width - 6) as usize
    } else {
        0
    };
    let chars = crate::render::chars_of(text);
    let lines = split_lines(&chars);
    let ghost ls = lines_view(lines@);
    let mut out: Vec<Vec<char>> = Vec::new();
    let mut k: usize = 0;
    while k < lines.len()
        invariant
            ls == lines_view(lines@),
            ls == logical_lines(text@),
            width == usable_width(term_width as int),
            k <= lines@.len(),
            lines_view(out@) == layout(ls.take(k as int), width as int),
        decreases lines@.len() - k,
    {
        let ghost before = lines_view(out@);
        let mut more = wrap_chars(lines[k].clone(), width);
        let ghost added = lines_view(more@);
        out.append(&mut more);
        assert(ls.take(k + 1).drop_last() =~= ls.take(k as int));
        assert(ls.take(k + 1).last() == lines[k as int]@);
        assert(lines_view(out@) =~= before + added);
        k += 1;
    }
    assert(ls.take(lines@.len() as int) =~= ls);
    out
}

/// The decimal digit character of `d`.
pub open spec fn digit_char(d: int) -> char {
    if d == 0 {
        '0'
    } else if d == 1 {
        '1'
    } else if d == 2 {
        '2'
    } else if d == 3 {
        '3'
    } else if d == 4 {
        '4'
    } else if d == 5 {
        '5'
    } else if d == 6 {
        '6'
    } else if d == 7 {
        '7'
    } else if d == 8 {
        '8'
    } else {
        '9'
    }
}

/// The decimal numeral of a natural number, without leading zeros.
pub open spec fn decimal(n: nat) -> Seq<char>
    decreases n,
{
    if n < 10 {
        seq![digit_char(n as int)]
    } else {
        decimal(n / 10).push(digit_char((n % 10) as int))
    }
}

/// The decimal numeral of an integer, with a minus sign when negative.
pub open spec fn signed_decimal(n: int) -> Seq<char> {
    if n < 0 {
        seq!['-'] + decimal((-n) as nat)
    } else {
        decimal(n as nat)
    }
}

fn digit(d: u64) -> (r: char)
    requires
        d < 10,
    ensures
        r == digit_char(d as int),
{
    if d == 0 {
        '0'
    } else if d == 1 {
        '1'
    } else if d == 2 {
        '2'
    } else if d == 3 {
        '3'
    } else if d == 4 {
        '4'
    } else if d == 5 {
        '5'
    } else if d == 6 {
        '6'
    } else if d == 7 {
        '7'
    } else if d == 8 {
        '8'
    } else {
        '9'
    }
}

/// The decimal numeral of a natural number.
pub fn decimal_of(n: u64) -> (r: Vec<char>)
    ensures
        r@ == decimal(n as nat),
    decreases n,
{
    if n < 10 {
        let r = vec![digit(n)];
        assert(r@ =~= seq![digit_char(n as int)]);
        r
    } else {
        let mut r = decimal_of(n / 10);
        r.push(digit(n % 10));
        r
    }
}

/// The decimal numeral of a signed integer.
pub fn signed_decimal_of(n: i32) -> (r: Vec<char>)
    ensures
        r@ == signed_decimal(n as int),
{
    if n < 0 {
        let magnitude = (-(n as i64)) as u64;
        let mut r = vec!['-'];
        let mut digits = decimal_of(magnitude);
        r.append(&mut digits);
        assert(r@ =~= signed_decimal(n as int));
        r
    } else {
        decimal_of(n as u64)
    }
}

} // verus!
