//! Text utilities: decimal rendering of integers, splitting into words, and line wrapping.
use vstd::prelude::*;
use vstd::std_specs::iter::IteratorSpec;
use vstd::utf8::{encode_scalar, encode_utf8};

verus! {

/// The character of a decimal digit.
pub open spec fn digit_char(d: nat) -> char {
    (48 + d) as char
}

/// The decimal representation of `n`, without leading zeros.
pub open spec fn decimal(n: nat) -> Seq<char>
    decreases n,
{
    if n < 10 {
        seq![digit_char(n)]
    } else {
        decimal(n / 10).push(digit_char(n % 10))
    }
}

/// Appends one character to a string.
#[verifier::external_body]
fn push_char(s: &mut String, c: char)
    ensures
        final(s)@ == old(s)@.push(c),
{
    s.push(c);
}

/// Appends the decimal representation of `n` to `s`.
pub fn push_decimal(s: &mut String, n: usize)
    ensures
        final(s)@ == old(s)@ + decimal(n as nat),
    decreases n,
{
    if n >= 10 {
        push_decimal(s, n / 10);
    }
    let d: u8 = (n % 10) as u8;
    let c: char = (48u8 + d) as char;
    push_char(s, c);
    assert(s@ =~= old(s)@ + decimal(n as nat));
}

/// Whether `c` has the Unicode `White_Space` property, which `char::is_whitespace` tests:
/// the controls U+0009 to U+000D, the space, U+0085, the no-break space, the Ogham space mark,
/// the spaces U+2000 to U+200A, the line and paragraph separators, the narrow no-break space,
/// the medium mathematical space and the ideographic space.
pub open spec fn char_is_whitespace(c: char) -> bool {
    let u = c as u32;
    ||| 0x9 <= u <= 0xD
    ||| u == 0x20
    ||| u == 0x85
    ||| u == 0xA0
    ||| u == 0x1680
    ||| 0x2000 <= u <= 0x200A
    ||| u == 0x2028
    ||| u == 0x2029
    ||| u == 0x202F
    ||| u == 0x205F
    ||| u == 0x3000
}

/// Calls `char::is_whitespace`, which tests the Unicode `White_Space` property.
#[verifier::external_body]
pub(crate) fn is_whitespace(c: char) -> (ws: bool)
    ensures
        ws == char_is_whitespace(c),
{
    c.is_whitespace()
}

/// The words of a prefix scan of `s`: the words completed so far, and the word in progress.
pub open spec fn split_scan(s: Seq<char>) -> (Seq<Seq<char>>, Seq<char>)
    decreases s.len(),
{
    if s.len() == 0 {
        (Seq::empty(), Seq::empty())
    } else {
        let (done, partial) = split_scan(s.drop_last());
        let c = s.last();
        if char_is_whitespace(c) {
            if partial.len() > 0 {
                (done.push(partial), Seq::empty())
            } else {
                (done, partial)
            }
        } else {
            (done, partial.push(c))
        }
    }
}

/// The maximal runs of non-whitespace characters of `s`, in order.
pub open spec fn words(s: Seq<char>) -> Seq<Seq<char>> {
    let (done, partial) = split_scan(s);
    if partial.len() > 0 {
        done.push(partial)
    } else {
        done
    }
}

/// Whether `c` is shown: everything but whitespace.
pub open spec fn non_whitespace() -> spec_fn(char) -> bool {
    |c: char| !char_is_whitespace(c)
}

/// Whether no character of `s` is whitespace.
pub open spec fn has_no_whitespace(s: Seq<char>) -> bool {
    forall|j: int| 0 <= j < s.len() ==> !char_is_whitespace(#[trigger] s[j])
}

/// The prefix scan keeps every non-whitespace character, in order, and puts no whitespace in a
/// word.
proof fn lemma_split_scan_keeps_text(s: Seq<char>)
    ensures
        ({
            let (done, partial) = split_scan(s);
            &&& done.flatten() + partial == s.filter(non_whitespace())
            &&& forall|i: int| 0 <= i < done.len() ==> has_no_whitespace(#[trigger] done[i])
            &&& has_no_whitespace(partial)
        }),
    decreases s.len(),
{
    if s.len() == 0 {
        reveal(Seq::filter);
        assert(Seq::<Seq<char>>::empty().flatten() =~= Seq::<char>::empty());
        assert(Seq::<char>::empty() + Seq::<char>::empty() =~= s.filter(non_whitespace()));
    } else {
        let prev = s.drop_last();
        let c = s.last();
        lemma_split_scan_keeps_text(prev);
        let (done0, partial0) = split_scan(prev);
        assert(s =~= prev.push(c));
        prev.lemma_filter_push(c, non_whitespace());
        let separates = char_is_whitespace(c);
        if separates {
            if partial0.len() > 0 {
                done0.lemma_flatten_push(partial0);
                let d = done0.push(partial0);
                assert(d.flatten() + Seq::<char>::empty() =~= done0.flatten() + partial0);
                assert forall|i: int| 0 <= i < d.len() implies has_no_whitespace(#[trigger] d[i]) by {
                    if i < done0.len() {
                        assert(d[i] == done0[i]);
                    }
                }
            }
        } else {
            assert(done0.flatten() + partial0.push(c) =~= (done0.flatten() + partial0).push(c));
            assert forall|j: int| 0 <= j < partial0.push(c).len() implies !char_is_whitespace(
                #[trigger] partial0.push(c)[j],
            ) by {
                if j < partial0.len() {
                    assert(partial0.push(c)[j] == partial0[j]);
                }
            }
        }
    }
}

/// The words of a text hold no whitespace, and joined together they give the text with exactly
/// its whitespace removed: every other character is kept, in order, and nothing is added.
pub proof fn lemma_words_keep_every_visible_character(s: Seq<char>)
    ensures
        words(s).flatten() == s.filter(non_whitespace()),
        forall|i: int| 0 <= i < words(s).len() ==> has_no_whitespace(#[trigger] words(s)[i]),
{
    lemma_split_scan_keeps_text(s);
    let (done, partial) = split_scan(s);
    if partial.len() > 0 {
        done.lemma_flatten_push(partial);
        assert forall|i: int| 0 <= i < words(s).len() implies has_no_whitespace(#[trigger] words(s)[i]) by {
            if i < done.len() {
                assert(words(s)[i] == done[i]);
            }
        }
    } else {
        assert(done.flatten() + partial =~= done.flatten());
    }
}

/// Scanning a text after a prefix that ends its words keeps the prefix's words and adds the
/// text's own.
proof fn lemma_split_scan_after_break(a: Seq<char>, t: Seq<char>)
    requires
        split_scan(a).1.len() == 0,
    ensures
        split_scan(a + t) == (split_scan(a).0 + split_scan(t).0, split_scan(t).1),
    decreases t.len(),
{
    if t.len() == 0 {
        assert(a + t =~= a);
        assert(split_scan(a).0 + Seq::<Seq<char>>::empty() =~= split_scan(a).0);
        assert(split_scan(a).1 =~= Seq::<char>::empty());
    } else {
        let tp = t.drop_last();
        lemma_split_scan_after_break(a, tp);
        assert((a + t).drop_last() =~= a + tp);
        assert((a + t).last() == t.last());
        let (d, p) = split_scan(tp);
        let pre = split_scan(a).0;
        if char_is_whitespace(t.last()) && p.len() > 0 {
            assert((pre + d).push(p) =~= pre + d.push(p));
        }
    }
}

/// A word is one word: a nonempty text without whitespace splits into itself alone.
pub proof fn lemma_text_without_whitespace_is_one_word(s: Seq<char>)
    requires
        s.len() > 0,
        has_no_whitespace(s),
    ensures
        words(s) == seq![s],
{
    lemma_split_scan_whole_word(s);
    assert(Seq::<Seq<char>>::empty().push(s) =~= seq![s]);
}

/// The scan of a text without whitespace is one word in progress.
proof fn lemma_split_scan_whole_word(s: Seq<char>)
    requires
        has_no_whitespace(s),
    ensures
        split_scan(s) == (Seq::<Seq<char>>::empty(), s),
    decreases s.len(),
{
    if s.len() > 0 {
        let prev = s.drop_last();
        assert forall|j: int| 0 <= j < prev.len() implies !char_is_whitespace(#[trigger] prev[j]) by {
            assert(prev[j] == s[j]);
        }
        lemma_split_scan_whole_word(prev);
        assert(!char_is_whitespace(s[s.len() - 1]));
        assert(prev.push(s.last()) =~= s);
    } else {
        assert(s =~= Seq::<char>::empty());
    }
}

/// Whitespace separates words: the words of a text that follows whitespace (or starts the text)
/// are the words before it, then the words after it. With the previous law, this fixes the words
/// of every text.
pub proof fn lemma_whitespace_separates_words(a: Seq<char>, c: char, t: Seq<char>)
    requires
        char_is_whitespace(c),
    ensures
        words(a.push(c) + t) == words(a) + words(t),
        words(seq![c]) == Seq::<Seq<char>>::empty(),
{
    let ap = a.push(c);
    assert(ap.drop_last() =~= a);
    assert(ap.last() == c);
    assert(split_scan(ap).1.len() == 0);
    lemma_split_scan_after_break(ap, t);
    let (da, pa) = split_scan(a);
    assert(words(ap) == words(a)) by {
        if pa.len() > 0 {
            assert(split_scan(ap).0 == da.push(pa));
        }
    }
    let (dt, pt) = split_scan(t);
    if pt.len() > 0 {
        assert((split_scan(ap).0 + dt).push(pt) =~= split_scan(ap).0 + dt.push(pt));
    }
    let e = Seq::<char>::empty();
    assert(seq![c].drop_last() =~= e);
    assert(seq![c].last() == c);
    assert(split_scan(e) == (Seq::<Seq<char>>::empty(), e));
    assert(split_scan(seq![c]) == (Seq::<Seq<char>>::empty(), e));
}

/// The number of bytes of the UTF-8 encoding of `s`: what `str::len` counts.
pub open spec fn byte_len(s: Seq<char>) -> nat {
    encode_utf8(s).len()
}

/// The number of bytes of the UTF-8 encoding of `c`.
pub open spec fn char_bytes(c: char) -> nat {
    let u = c as u32;
    if u < 0x80 {
        1
    } else if u < 0x800 {
        2
    } else if u < 0x10000 {
        3
    } else {
        4
    }
}

/// A character takes `char_bytes` bytes.
pub proof fn lemma_byte_len_char(c: char)
    ensures
        byte_len(seq![c]) == char_bytes(c),
        1 <= char_bytes(c) <= 4,
{
    vstd::utf8::char_is_scalar(c);
    let u = c as u32;
    assert(seq![c].drop_first() =~= Seq::<char>::empty());
    assert(seq![c][0] == c);
    assert(encode_utf8(seq![c]) == encode_scalar(u) + encode_utf8(Seq::<char>::empty()));
    assert(encode_utf8(Seq::<char>::empty()).len() == 0);
    assert(encode_scalar(u).len() == char_bytes(c));
}

/// Byte lengths add up over concatenation.
pub proof fn lemma_byte_len_concat(a: Seq<char>, b: Seq<char>)
    ensures
        byte_len(a + b) == byte_len(a) + byte_len(b),
    decreases a.len(),
{
    if a.len() == 0 {
        assert(a + b =~= b);
    } else {
        lemma_byte_len_concat(a.drop_first(), b);
        assert((a + b).drop_first() =~= a.drop_first() + b);
        assert((a + b)[0] == a[0]);
    }
}

/// Appending a character adds its bytes.
proof fn lemma_byte_len_push(s: Seq<char>, c: char)
    ensures
        byte_len(s.push(c)) == byte_len(s) + char_bytes(c),
{
    lemma_byte_len_concat(s, seq![c]);
    lemma_byte_len_char(c);
    assert(s.push(c) =~= s + seq![c]);
}

/// Whether `s` fits in `max` bytes, or is a single character, which no cut can shorten.
pub open spec fn fits_line(s: Seq<char>, max: nat) -> bool {
    byte_len(s) <= max || s.len() == 1
}

/// Greedy cutting of a word: the pieces completed so far and the piece in progress. A character
/// joins the piece in progress when the piece then stays within `max` bytes; otherwise it starts
/// the next piece.
pub open spec fn cut_scan(w: Seq<char>, max: nat) -> (Seq<Seq<char>>, Seq<char>)
    decreases w.len(),
{
    if w.len() == 0 {
        (Seq::empty(), Seq::empty())
    } else {
        let (done, cur) = cut_scan(w.drop_last(), max);
        let c = w.last();
        if cur.len() == 0 {
            (done, seq![c])
        } else if byte_len(cur) + char_bytes(c) <= max {
            (done, cur.push(c))
        } else {
            (done.push(cur), seq![c])
        }
    }
}

/// The pieces of a word: the word itself when it fits in `max` bytes, otherwise its greedy cut
/// into pieces of at most `max` bytes (a character wider than that is a piece of its own).
pub open spec fn chunks(w: Seq<char>, max: nat) -> Seq<Seq<char>> {
    if byte_len(w) <= max {
        seq![w]
    } else {
        let (done, cur) = cut_scan(w, max);
        done.push(cur)
    }
}

/// The pieces of the words `ws`, word after word.
pub open spec fn pieces(ws: Seq<Seq<char>>, max: nat) -> Seq<Seq<char>>
    decreases ws.len(),
{
    if ws.len() == 0 {
        Seq::empty()
    } else {
        pieces(ws.drop_last(), max) + chunks(ws.last(), max)
    }
}

/// Greedy line filling over the pieces `ws`: the lines completed so far and the line in progress.
/// A piece joins the line in progress, after one space, when the line then stays within `max`
/// bytes.
pub open spec fn fill_scan(ws: Seq<Seq<char>>, max: nat) -> (Seq<Seq<char>>, Seq<char>)
    decreases ws.len(),
{
    if ws.len() == 0 {
        (Seq::empty(), Seq::empty())
    } else {
        let (lines, line) = fill_scan(ws.drop_last(), max);
        let w = ws.last();
        if line.len() == 0 {
            (lines, w)
        } else if byte_len(line) + 1 + byte_len(w) <= max {
            (lines, line + seq![' '] + w)
        } else {
            (lines.push(line), w)
        }
    }
}

/// The lines of `text` wrapped to `max` bytes: the text itself when it fits, otherwise the pieces
/// of its words (a word longer than a line is cut) filled greedily into lines.
pub open spec fn wrap_spec(text: Seq<char>, max: nat) -> Seq<Seq<char>> {
    if byte_len(text) <= max {
        seq![text]
    } else {
        let (lines, line) = fill_scan(pieces(words(text), max), max);
        if line.len() > 0 {
            lines.push(line)
        } else {
            lines
        }
    }
}

/// The greedy cut of a word: its pieces are nonempty, each fits, they rejoin into the word, and
/// no piece could have taken the first character of the next one.
proof fn lemma_cut_scan(w: Seq<char>, max: nat)
    ensures
        ({
            let (done, cur) = cut_scan(w, max);
            &&& all_nonempty(done)
            &&& forall|i: int| 0 <= i < done.len() ==> fits_line(#[trigger] done[i], max)
            &&& fits_line(cur, max) || cur.len() == 0
            &&& (cur.len() == 0 <==> w.len() == 0)
            &&& done.flatten() + cur == w
            &&& forall|i: int|
                0 <= i < done.len() - 1 ==> byte_len(#[trigger] done[i]) + char_bytes(done[i + 1][0])
                    > max
            &&& (done.len() > 0 && cur.len() > 0 ==> byte_len(done.last()) + char_bytes(cur[0])
                > max)
        }),
    decreases w.len(),
{
    if w.len() == 0 {
        assert(Seq::<Seq<char>>::empty().flatten() =~= Seq::<char>::empty());
        assert(Seq::<char>::empty() + Seq::<char>::empty() =~= w);
    } else {
        let prev = w.drop_last();
        lemma_cut_scan(prev, max);
        let (done0, cur0) = cut_scan(prev, max);
        let c = w.last();
        assert(w =~= prev.push(c));
        lemma_byte_len_char(c);
        if cur0.len() == 0 {
            assert(prev.len() == 0);
            assert(done0.flatten() + seq![c] =~= w) by {
                assert(done0.flatten() + cur0 == prev);
                assert(done0.flatten() =~= prev);
            }
            assert(seq![c][0] == c);
        } else if byte_len(cur0) + char_bytes(c) <= max {
            lemma_byte_len_push(cur0, c);
            assert(cur0.push(c)[0] == cur0[0]);
            assert(done0.flatten() + cur0.push(c) =~= w) by {
                assert(done0.flatten() + cur0 == prev);
            }
        } else {
            let d = done0.push(cur0);
            done0.lemma_flatten_push(cur0);
            assert(d.flatten() + seq![c] =~= w) by {
                assert(done0.flatten() + cur0 == prev);
            }
            assert(seq![c][0] == c);
            assert forall|i: int| 0 <= i < d.len() implies #[trigger] d[i].len() > 0 by {
                if i < done0.len() {
                    assert(d[i] == done0[i]);
                }
            }
            assert forall|i: int| 0 <= i < d.len() implies fits_line(#[trigger] d[i], max) by {
                if i < done0.len() {
                    assert(d[i] == done0[i]);
                }
            }
            assert forall|i: int| 0 <= i < d.len() - 1 implies byte_len(#[trigger] d[i])
                + char_bytes(d[i + 1][0]) > max by {
                assert(d[i] == done0[i]);
                if i + 1 < done0.len() {
                    assert(d[i + 1] == done0[i + 1]);
                } else {
                    assert(d[i + 1] == cur0);
                    assert(done0[i] == done0.last());
                }
            }
            assert(d.last() == cur0);
        }
    }
}

/// The pieces of a word are nonempty, each fits in `max` bytes or is a single character wider
/// than that, they rejoin into the word, and no piece could have taken the first character of the
/// next one.
pub proof fn lemma_chunks(w: Seq<char>, max: nat)
    requires
        w.len() > 0,
    ensures
        all_nonempty(chunks(w, max)),
        forall|i: int| 0 <= i < chunks(w, max).len() ==> fits_line(#[trigger] chunks(w, max)[i], max),
        chunks(w, max).flatten() == w,
        forall|i: int|
            0 <= i < chunks(w, max).len() - 1 ==> byte_len(#[trigger] chunks(w, max)[i]) + char_bytes(
                chunks(w, max)[i + 1][0],
            ) > max,
{
    if byte_len(w) <= max {
        seq![w].lemma_flatten_one_element();
    } else {
        lemma_cut_scan(w, max);
        let (done, cur) = cut_scan(w, max);
        let c = done.push(cur);
        done.lemma_flatten_push(cur);
        assert forall|i: int| 0 <= i < c.len() implies #[trigger] c[i].len() > 0 && fits_line(c[i], max) by {
            if i < done.len() {
                assert(c[i] == done[i]);
            }
        }
        assert forall|i: int| 0 <= i < c.len() - 1 implies byte_len(#[trigger] c[i]) + char_bytes(
            c[i + 1][0],
        ) > max by {
            assert(c[i] == done[i]);
            if i + 1 < done.len() {
                assert(c[i + 1] == done[i + 1]);
            } else {
                assert(c[i + 1] == cur);
                assert(done[i] == done.last());
            }
        }
    }
}

/// Every piece fits in `max` bytes or is a single character; the pieces of nonempty words are
/// nonempty.
proof fn lemma_pieces_fit(ws: Seq<Seq<char>>, max: nat)
    ensures
        forall|i: int| 0 <= i < pieces(ws, max).len() ==> fits_line(#[trigger] pieces(ws, max)[i], max),
        all_nonempty(ws) ==> all_nonempty(pieces(ws, max)),
    decreases ws.len(),
{
    if ws.len() > 0 {
        let prev = ws.drop_last();
        lemma_pieces_fit(prev, max);
        let w = ws.last();
        let p = pieces(ws, max);
        let a = pieces(prev, max);
        if w.len() > 0 {
            lemma_chunks(w, max);
        } else {
            assert(chunks(w, max) == seq![w]);
        }
        if all_nonempty(ws) {
            assert forall|i: int| 0 <= i < prev.len() implies #[trigger] prev[i].len() > 0 by {
                assert(prev[i] == ws[i]);
            }
            assert(w == ws[ws.len() - 1]);
            assert forall|i: int| 0 <= i < p.len() implies #[trigger] p[i].len() > 0 by {
                if i >= a.len() {
                    assert(p[i] == chunks(w, max)[i - a.len()]);
                } else {
                    assert(p[i] == a[i]);
                }
            }
        }
        assert forall|i: int| 0 <= i < p.len() implies fits_line(#[trigger] p[i], max) by {
            if i >= a.len() {
                assert(p[i] == chunks(w, max)[i - a.len()]);
            } else {
                assert(p[i] == a[i]);
            }
        }
    }
}

/// Every line of a greedy fill of pieces that fit fits too.
proof fn lemma_fill_scan_lines_fit(ws: Seq<Seq<char>>, max: nat)
    requires
        forall|i: int| 0 <= i < ws.len() ==> fits_line(#[trigger] ws[i], max),
    ensures
        forall|i: int|
            0 <= i < fill_scan(ws, max).0.len() ==> fits_line(#[trigger] fill_scan(ws, max).0[i], max),
        fits_line(fill_scan(ws, max).1, max) || fill_scan(ws, max).1.len() == 0,
    decreases ws.len(),
{
    if ws.len() > 0 {
        let prev = ws.drop_last();
        assert forall|i: int| 0 <= i < prev.len() implies fits_line(#[trigger] prev[i], max) by {
            assert(prev[i] == ws[i]);
        }
        lemma_fill_scan_lines_fit(prev, max);
        let (lines0, line0) = fill_scan(prev, max);
        let w = ws.last();
        assert(ws[ws.len() - 1] == w);
        if line0.len() > 0 && byte_len(line0) + 1 + byte_len(w) <= max {
            lemma_byte_len_join(line0, w);
        }
        let lines = fill_scan(ws, max).0;
        assert forall|i: int| 0 <= i < lines.len() implies fits_line(#[trigger] lines[i], max) by {
            if i < lines0.len() {
                assert(lines[i] == lines0[i]);
            }
        }
    }
}

/// Two pieces joined by a space take their bytes and one more.
proof fn lemma_byte_len_join(a: Seq<char>, b: Seq<char>)
    ensures
        byte_len(a + seq![' '] + b) == byte_len(a) + 1 + byte_len(b),
{
    lemma_byte_len_concat(a, seq![' ']);
    lemma_byte_len_concat(a + seq![' '], b);
    lemma_byte_len_char(' ');
}

/// Every wrapped line fits in `max` bytes or is a single character wider than that; from four
/// bytes on, every line fits. A word longer than a line is cut.
pub proof fn lemma_wrapped_lines_fit(text: Seq<char>, max: nat)
    ensures
        forall|i: int| 0 <= i < wrap_spec(text, max).len() ==> fits_line(#[trigger] wrap_spec(text, max)[i], max),
        max >= 4 ==> forall|i: int|
            0 <= i < wrap_spec(text, max).len() ==> byte_len(#[trigger] wrap_spec(text, max)[i]) <= max,
{
    let lines = wrap_spec(text, max);
    if byte_len(text) > max {
        let ps = pieces(words(text), max);
        lemma_pieces_fit(words(text), max);
        lemma_fill_scan_lines_fit(ps, max);
        let (done, line) = fill_scan(ps, max);
        assert forall|i: int| 0 <= i < lines.len() implies fits_line(#[trigger] lines[i], max) by {
            if i < done.len() {
                assert(lines[i] == done[i]);
            }
        }
    }
    assert forall|i: int| 0 <= i < lines.len() && max >= 4 implies byte_len(#[trigger] lines[i])
        <= max by {
        if lines[i].len() == 1 {
            lemma_byte_len_char(lines[i][0]);
            assert(lines[i] =~= seq![lines[i][0]]);
        }
    }
}

/// `parts` joined by `sep`.
pub open spec fn join_spec(parts: Seq<Seq<char>>, sep: Seq<char>) -> Seq<char>
    decreases parts.len(),
{
    if parts.len() == 0 {
        Seq::empty()
    } else if parts.len() == 1 {
        parts[0]
    } else {
        join_spec(parts.drop_last(), sep) + sep + parts.last()
    }
}

/// The word groups of a greedy fill: the groups of the completed lines, and the group of the
/// line in progress.
pub open spec fn fill_groups(ws: Seq<Seq<char>>, max: nat) -> (Seq<Seq<Seq<char>>>, Seq<Seq<char>>)
    decreases ws.len(),
{
    if ws.len() == 0 {
        (Seq::empty(), Seq::empty())
    } else {
        let (groups, group) = fill_groups(ws.drop_last(), max);
        let line = fill_scan(ws.drop_last(), max).1;
        let w = ws.last();
        if line.len() == 0 {
            (groups, seq![w])
        } else if byte_len(line) + 1 + byte_len(w) <= max {
            (groups, group.push(w))
        } else {
            (groups.push(group), seq![w])
        }
    }
}

/// Whether every sequence of `s` is nonempty.
pub open spec fn all_nonempty<A>(s: Seq<Seq<A>>) -> bool {
    forall|i: int| 0 <= i < s.len() ==> #[trigger] s[i].len() > 0
}

/// A greedy fill joins each group of words with single spaces, and its groups are the words,
/// in order.
proof fn lemma_fill_groups(ws: Seq<Seq<char>>, max: nat)
    requires
        all_nonempty(ws),
    ensures
        ({
            let (lines, line) = fill_scan(ws, max);
            let (groups, group) = fill_groups(ws, max);
            &&& lines.len() == groups.len()
            &&& forall|i: int| 0 <= i < lines.len() ==> #[trigger] lines[i] == join_spec(groups[i], seq![' '])
            &&& line == join_spec(group, seq![' '])
            &&& groups.flatten() + group == ws
            &&& all_nonempty(groups)
            &&& (line.len() == 0 <==> group.len() == 0)
            &&& (lines.len() > 0 ==> group.len() > 0)
            &&& forall|i: int|
                0 <= i < lines.len() - 1 ==> byte_len(#[trigger] lines[i]) + 1 + byte_len(
                    groups[i + 1][0],
                ) > max
            &&& (lines.len() > 0 && group.len() > 0 ==> byte_len(lines.last()) + 1 + byte_len(
                group[0],
            ) > max)
        }),
    decreases ws.len(),
{
    if ws.len() == 0 {
        assert(Seq::<Seq<Seq<char>>>::empty().flatten() =~= Seq::<Seq<char>>::empty());
        assert(Seq::<Seq<char>>::empty() + Seq::<Seq<char>>::empty() =~= ws);
    } else {
        let prev = ws.drop_last();
        assert forall|i: int| 0 <= i < prev.len() implies #[trigger] prev[i].len() > 0 by {
            assert(prev[i] == ws[i]);
        }
        lemma_fill_groups(prev, max);
        let (lines0, line0) = fill_scan(prev, max);
        let (groups0, group0) = fill_groups(prev, max);
        let w = ws.last();
        assert(w.len() > 0) by {
            assert(ws[ws.len() - 1] == w);
        }
        let sp = seq![' '];
        assert(join_spec(seq![w], sp) == w) by {
            assert(seq![w].len() == 1);
        }
        if line0.len() == 0 {
            assert(group0.len() == 0);
            assert(groups0.flatten() + seq![w] =~= ws) by {
                assert(groups0.flatten() + group0 == prev);
                assert(group0 =~= Seq::<Seq<char>>::empty());
                assert(groups0.flatten() =~= prev);
            }
        } else if byte_len(line0) + 1 + byte_len(w) <= max {
            let g = group0.push(w);
            assert(g[0] == group0[0]);
            assert(g.drop_last() =~= group0);
            assert(join_spec(g, sp) == join_spec(group0, sp) + sp + w);
            assert(groups0.flatten() + g =~= ws) by {
                assert(groups0.flatten() + group0 == prev);
                assert(ws =~= prev.push(w));
            }
            assert((join_spec(group0, sp) + sp + w).len() > 0);
        } else {
            let gs = groups0.push(group0);
            groups0.lemma_flatten_push(group0);
            assert(gs.flatten() + seq![w] =~= ws) by {
                assert(groups0.flatten() + group0 == prev);
                assert(ws =~= prev.push(w));
            }
            assert(group0.len() > 0);
            assert forall|i: int| 0 <= i < gs.len() implies #[trigger] gs[i].len() > 0 by {
                if i < groups0.len() {
                    assert(gs[i] == groups0[i]);
                }
            }
            let lines = lines0.push(line0);
            assert forall|i: int| 0 <= i < lines.len() implies #[trigger] lines[i] == join_spec(
                gs[i],
                sp,
            ) by {
                if i < lines0.len() {
                    assert(lines[i] == lines0[i]);
                    assert(gs[i] == groups0[i]);
                }
            }
            assert forall|i: int| 0 <= i < lines.len() - 1 implies byte_len(#[trigger] lines[i]) + 1
                + byte_len(gs[i + 1][0]) > max by {
                assert(lines[i] == lines0[i]);
                if i + 1 < lines0.len() {
                    assert(gs[i + 1] == groups0[i + 1]);
                } else {
                    assert(gs[i + 1] == group0);
                    assert(lines0[i] == lines0.last());
                }
            }
            assert(lines.last() == line0);
        }
    }
}

/// The words of a text are nonempty.
proof fn lemma_words_nonempty(s: Seq<char>)
    ensures
        all_nonempty(words(s)),
        all_nonempty(split_scan(s).0),
    decreases s.len(),
{
    if s.len() > 0 {
        lemma_words_nonempty(s.drop_last());
        let (done, partial) = split_scan(s.drop_last());
        assert forall|i: int| 0 <= i < split_scan(s).0.len() implies #[trigger] split_scan(s).0[i].len() > 0 by {
            if i < done.len() {
                assert(split_scan(s).0[i] == done[i]);
            }
        }
    }
    let (done, partial) = split_scan(s);
    assert forall|i: int| 0 <= i < words(s).len() implies #[trigger] words(s)[i].len() > 0 by {
        if i < done.len() {
            assert(words(s)[i] == done[i]);
        }
    }
}

/// Wrapping a text that does not fit on one line keeps all its words, in order, and packs the
/// lines greedily: each line joins a nonempty run of consecutive pieces with single spaces (a
/// piece is a word, or a cut of a word longer than a line, see [`lemma_chunks`]), and no line
/// could have taken the first piece of the next one.
pub proof fn lemma_wrapping_keeps_words(text: Seq<char>, max: nat)
    requires
        byte_len(text) > max,
    ensures
        exists|groups: Seq<Seq<Seq<char>>>|
            {
                &&& groups.len() == wrap_spec(text, max).len()
                &&& forall|i: int|
                    0 <= i < groups.len() ==> #[trigger] wrap_spec(text, max)[i] == join_spec(
                        groups[i],
                        seq![' '],
                    )
                &&& groups.flatten() == pieces(words(text), max)
                &&& all_nonempty(groups)
                &&& forall|i: int|
                    0 <= i < groups.len() - 1 ==> byte_len(#[trigger] wrap_spec(text, max)[i]) + 1
                        + byte_len(groups[i + 1][0]) > max
            },
{
    let ws = pieces(words(text), max);
    lemma_words_nonempty(text);
    lemma_pieces_fit(words(text), max);
    lemma_fill_groups(ws, max);
    let (lines, line) = fill_scan(ws, max);
    let (groups, group) = fill_groups(ws, max);
    if line.len() > 0 {
        let gs = groups.push(group);
        groups.lemma_flatten_push(group);
        assert(gs.flatten() == ws);
        assert forall|i: int| 0 <= i < gs.len() implies #[trigger] gs[i].len() > 0 by {
            if i < groups.len() {
                assert(gs[i] == groups[i]);
            }
        }
        assert forall|i: int|
            0 <= i < gs.len() implies #[trigger] wrap_spec(text, max)[i] == join_spec(
            gs[i],
            seq![' '],
        ) by {
            if i < groups.len() {
                assert(gs[i] == groups[i]);
                assert(wrap_spec(text, max)[i] == lines[i]);
            }
        }
        assert forall|i: int| 0 <= i < gs.len() - 1 implies byte_len(#[trigger] wrap_spec(text, max)[i])
            + 1 + byte_len(gs[i + 1][0]) > max by {
            assert(wrap_spec(text, max)[i] == lines[i]);
            if i + 1 < groups.len() {
                assert(gs[i + 1] == groups[i + 1]);
            } else {
                assert(gs[i + 1] == group);
                assert(lines[i] == lines.last());
            }
        }
    } else {
        assert(group.len() == 0);
        assert(groups.flatten() == ws) by {
            assert(groups.flatten() + group =~= groups.flatten());
        }
        assert forall|i: int|
            0 <= i < groups.len() implies #[trigger] wrap_spec(text, max)[i] == join_spec(
            groups[i],
            seq![' '],
        ) by {
            assert(wrap_spec(text, max)[i] == lines[i]);
        }
        assert forall|i: int| 0 <= i < groups.len() - 1 implies byte_len(#[trigger] wrap_spec(text, max)[i])
            + 1 + byte_len(groups[i + 1][0]) > max by {
            assert(wrap_spec(text, max)[i] == lines[i]);
        }
    }
}

/// The views of a vector of strings.
pub open spec fn string_views(v: Seq<String>) -> Seq<Seq<char>> {
    v.map_values(|s: String| s@)
}

/// Splits `text` into its words (maximal runs of non-whitespace characters).
pub fn split_words(text: &str) -> (ws: Vec<String>)
    ensures
        string_views(ws@) == words(text@),
{
    broadcast use vstd::string::group_string_axioms;

    let mut done: Vec<String> = Vec::new();
    let mut partial = String::new();
    let mut chars = text.chars();
    let ghost mut i: int = 0;
    loop
        invariant
            0 <= i <= text@.len(),
            chars.remaining() == text@.skip(i),
            string_views(done@) == split_scan(text@.take(i)).0,
            partial@ == split_scan(text@.take(i)).1,
        ensures
            i == text@.len(),
            string_views(done@) == split_scan(text@).0,
            partial@ == split_scan(text@).1,
        decreases text@.len() - i,
    {
        match chars.next() {
            Some(c) => {
                proof {
                    assert(c == text@[i]);
                    assert(text@.take(i + 1).drop_last() =~= text@.take(i));
                    assert(text@.take(i + 1).last() == c);
                }
                if is_whitespace(c) {
                    if !partial.as_str().is_empty() {
                        let mut finished = String::new();
                        std::mem::swap(&mut finished, &mut partial);
                        let ghost before = done@;
                        done.push(finished);
                        assert(string_views(done@) =~= string_views(before).push(finished@));
                    }
                } else {
                    push_char(&mut partial, c);
                }
                proof {
                    i = i + 1;
                    assert(text@.skip(i - 1).drop_first() =~= text@.skip(i));
                }
            },
            None => {
                proof {
                    assert(text@.skip(i).len() == 0);
                    assert(text@.take(i) =~= text@);
                }
                break;
            },
        }
    }
    if !partial.as_str().is_empty() {
        let ghost before = done@;
        done.push(partial);
        assert(string_views(done@) =~= string_views(before).push(partial@));
    }
    done
}

/// The number of bytes of the UTF-8 encoding of `c`.
pub fn char_width(c: char) -> (n: usize)
    ensures
        n == char_bytes(c),
        n == byte_len(seq![c]),
{
    proof {
        lemma_byte_len_char(c);
    }
    let u = c as u32;
    if u < 0x80 {
        1
    } else if u < 0x800 {
        2
    } else if u < 0x10000 {
        3
    } else {
        4
    }
}

/// The number of bytes of `s` when it is at most `cap`; `None` when it is more.
pub fn bytes_within(s: &str, cap: usize) -> (n: Option<usize>)
    ensures
        match n {
            Some(k) => k == byte_len(s@) && k <= cap,
            None => byte_len(s@) > cap,
        },
{
    broadcast use vstd::string::group_string_axioms;

    let mut chars = s.chars();
    let mut acc: usize = 0;
    let ghost mut i: int = 0;
    assert(s@.take(0) =~= Seq::<char>::empty());
    loop
        invariant
            0 <= i <= s@.len(),
            chars.remaining() == s@.skip(i),
            acc == byte_len(s@.take(i)),
            acc <= cap,
        ensures
            acc == byte_len(s@),
            acc <= cap,
        decreases s@.len() - i,
    {
        match chars.next() {
            Some(c) => {
                proof {
                    assert(c == s@[i]);
                    assert(s@.take(i + 1) =~= s@.take(i).push(c));
                    lemma_byte_len_push(s@.take(i), c);
                }
                let w = char_width(c);
                if w > cap - acc {
                    proof {
                        assert(s@ =~= s@.take(i + 1) + s@.skip(i + 1));
                        lemma_byte_len_concat(s@.take(i + 1), s@.skip(i + 1));
                    }
                    return None;
                }
                acc = acc + w;
                proof {
                    i = i + 1;
                    assert(s@.skip(i - 1).drop_first() =~= s@.skip(i));
                }
            },
            None => {
                proof {
                    assert(s@.skip(i).len() == 0);
                    assert(s@.take(i) =~= s@);
                }
                break;
            },
        }
    }
    Some(acc)
}

/// The pieces of `w`: the word itself when it fits in `max` bytes, otherwise runs of characters
/// of at most `max` bytes each, cut greedily (a character wider than that is a run of its own).
pub fn chunk_word(w: &str, max: usize) -> (parts: Vec<String>)
    ensures
        string_views(parts@) == chunks(w@, max as nat),
{
    broadcast use vstd::string::group_string_axioms;

    let mut parts: Vec<String> = Vec::new();
    if bytes_within(w, max).is_some() {
        parts.push(String::from_str(w));
        assert(string_views(parts@) =~= seq![w@]);
        return parts;
    }
    let mut cur = String::new();
    let mut cur_bytes: usize = 0;
    let mut chars = w.chars();
    let ghost mut i: int = 0;
    assert(w@.take(0) =~= Seq::<char>::empty());
    assert(string_views(parts@) =~= Seq::<Seq<char>>::empty());
    loop
        invariant
            0 <= i <= w@.len(),
            chars.remaining() == w@.skip(i),
            string_views(parts@) == cut_scan(w@.take(i), max as nat).0,
            cur@ == cut_scan(w@.take(i), max as nat).1,
            cur_bytes == byte_len(cur@),
        ensures
            string_views(parts@) == cut_scan(w@, max as nat).0,
            cur@ == cut_scan(w@, max as nat).1,
        decreases w@.len() - i,
    {
        match chars.next() {
            Some(c) => {
                proof {
                    assert(c == w@[i]);
                    assert(w@.take(i + 1).drop_last() =~= w@.take(i));
                    assert(w@.take(i + 1).last() == c);
                    lemma_byte_len_push(cur@, c);
                    lemma_byte_len_char(c);
                }
                let cw = char_width(c);
                if cur.as_str().is_empty() {
                    push_char(&mut cur, c);
                    assert(cur@ =~= seq![c]);
                    cur_bytes = cw;
                } else if cur_bytes <= max && cw <= max - cur_bytes {
                    push_char(&mut cur, c);
                    cur_bytes = cur_bytes + cw;
                } else {
                    let mut finished = String::new();
                    push_char(&mut finished, c);
                    assert(finished@ =~= seq![c]);
                    std::mem::swap(&mut finished, &mut cur);
                    let ghost before = parts@;
                    parts.push(finished);
                    assert(string_views(parts@) =~= string_views(before).push(finished@));
                    cur_bytes = cw;
                }
                proof {
                    i = i + 1;
                    assert(w@.skip(i - 1).drop_first() =~= w@.skip(i));
                }
            },
            None => {
                proof {
                    assert(w@.skip(i).len() == 0);
                    assert(w@.take(i) =~= w@);
                }
                break;
            },
        }
    }
    let ghost before = parts@;
    parts.push(cur);
    assert(string_views(parts@) =~= string_views(before).push(cur@));
    parts
}

/// The pieces of the words `ws`, word after word.
fn split_pieces(ws: &Vec<String>, max: usize) -> (parts: Vec<String>)
    ensures
        string_views(parts@) == pieces(string_views(ws@), max as nat),
{
    let mut parts: Vec<String> = Vec::new();
    let ghost views = string_views(ws@);
    let mut k: usize = 0;
    assert(string_views(parts@) =~= pieces(views.take(0), max as nat));
    while k < ws.len()
        invariant
            0 <= k <= ws@.len(),
            views == string_views(ws@),
            string_views(parts@) == pieces(views.take(k as int), max as nat),
        decreases ws@.len() - k,
    {
        let mut more = chunk_word(ws[k].as_str(), max);
        let ghost before = parts@;
        let ghost added = more@;
        parts.append(&mut more);
        proof {
            assert(views.take(k + 1).drop_last() =~= views.take(k as int));
            assert(views.take(k + 1).last() == ws@[k as int]@);
            assert(string_views(parts@) =~= string_views(before) + string_views(added));
        }
        k = k + 1;
    }
    assert(views.take(ws@.len() as int) =~= views);
    parts
}

/// Wraps `text` into lines of at most `max_chars` bytes (what `str::len` counts), breaking
/// between words; a word longer than a line is cut into pieces that fit.
pub fn wrap_text(text: &str, max_chars: usize) -> (lines: Vec<String>)
    ensures
        string_views(lines@) == wrap_spec(text@, max_chars as nat),
{
    if bytes_within(text, max_chars).is_some() {
        let mut lines: Vec<String> = Vec::new();
        lines.push(String::from_str(text));
        assert(string_views(lines@) =~= seq![text@]);
        return lines;
    }
    let ws = split_words(text);
    let ps = split_pieces(&ws, max_chars);
    let ghost all = pieces(words(text@), max_chars as nat);
    proof {
        lemma_pieces_fit(words(text@), max_chars as nat);
    }
    let mut lines: Vec<String> = Vec::new();
    let mut line = String::new();
    let mut line_bytes: usize = 0;
    let mut k: usize = 0;
    while k < ps.len()
        invariant
            0 <= k <= ps@.len(),
            string_views(ps@) == all,
            all == pieces(words(text@), max_chars as nat),
            forall|i: int| 0 <= i < all.len() ==> fits_line(#[trigger] all[i], max_chars as nat),
            string_views(lines@) == fill_scan(all.take(k as int), max_chars as nat).0,
            line@ == fill_scan(all.take(k as int), max_chars as nat).1,
            line_bytes == byte_len(line@),
        decreases ps@.len() - k,
    {
        let word = ps[k].as_str();
        proof {
            assert(all.take(k + 1).drop_last() =~= all.take(k as int));
            assert(all.take(k + 1).last() == all[k as int]);
            assert(all[k as int] == ps@[k as int]@);
        }
        let word_bytes: usize = match bytes_within(word, max_chars) {
            Some(n) => n,
            None => {
                assert(fits_line(all[k as int], max_chars as nat));
                assert(word@ =~= seq![word@[0]]);
                char_width(word.get_char(0))
            },
        };
        if line.as_str().is_empty() {
            line = String::from_str(word);
            line_bytes = word_bytes;
        } else if (line_bytes as u128) + 1 + (word_bytes as u128) <= max_chars as u128 {
            proof {
                lemma_byte_len_join(line@, word@);
                reveal_strlit(" ");
            }
            line.append(" ");
            line.append(word);
            line_bytes = line_bytes + 1 + word_bytes;
        } else {
            let mut finished = String::from_str(word);
            std::mem::swap(&mut finished, &mut line);
            let ghost before = lines@;
            lines.push(finished);
            assert(string_views(lines@) =~= string_views(before).push(finished@));
            line_bytes = word_bytes;
        }
        k = k + 1;
    }
    proof {
        assert(all.take(ps@.len() as int) =~= all);
    }
    if !line.as_str().is_empty() {
        let ghost before = lines@;
        lines.push(line);
        assert(string_views(lines@) =~= string_views(before).push(line@));
    }
    lines
}

} // verus!
