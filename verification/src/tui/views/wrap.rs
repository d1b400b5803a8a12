//! Word wrapping of the menu's description panel.
use vstd::prelude::*;
use crate::text::{is_white_space, is_whitespace};

verus! {

/// A piece of a description: a word, or the end of a paragraph.
pub enum Piece {
    Word(Seq<char>),
    Break,
}

/// `pieces` with `word` appended, unless it is empty.
pub open spec fn flush_word(pieces: Seq<Piece>, word: Seq<char>) -> Seq<Piece> {
    if word.len() == 0 {
        pieces
    } else {
        pieces.push(Piece::Word(word))
    }
}

/// Reads `s` from the left: the pieces finished so far and the word still
/// being read. Words are maximal runs of non-white-space characters; each
/// `\n` ends a paragraph.
pub open spec fn scan_pieces(s: Seq<char>) -> (Seq<Piece>, Seq<char>)
    decreases s.len(),
{
    if s.len() == 0 {
        (Seq::empty(), Seq::empty())
    } else {
        let (done, word) = scan_pieces(s.drop_last());
        let c = s.last();
        if c == '\n' {
            (flush_word(done, word).push(Piece::Break), Seq::empty())
        } else if is_white_space(c) {
            (flush_word(done, word), Seq::empty())
        } else {
            (done, word.push(c))
        }
    }
}

/// The words and paragraph breaks of `s`, in order.
pub open spec fn pieces(s: Seq<char>) -> Seq<Piece> {
    flush_word(scan_pieces(s).0, scan_pieces(s).1)
}

/// Bytes in the UTF-8 encoding of `w`.
pub open spec fn utf8_len(w: Seq<char>) -> int {
    vstd::utf8::encode_utf8(w).len() as int
}

/// Where the glyphs of `w` go when the cursor stands at (`row`, `col`) in a
/// panel `max_w` columns wide: the row and column of its first glyph. A
/// word that does not fit, counting its bytes and one space after it,
/// starts a new row.
pub open spec fn word_origin(w: Seq<char>, row: int, col: int, max_w: int) -> (int, int) {
    if col + utf8_len(w) + 1 > max_w {
        (row + 1, 0)
    } else {
        (row, col)
    }
}

/// The glyphs of `w` laid from (`row`, `col`) to the right.
pub open spec fn word_glyphs(w: Seq<char>, row: int, col: int) -> Seq<(int, int, char)> {
    Seq::new(w.len(), |i: int| (row, col + i, w[i]))
}

/// Lays `ps` out from the top left of a panel `max_w` columns wide: the
/// cursor row and column after the last piece, and the glyphs placed, as
/// (row, column, character). A paragraph break moves the cursor two rows
/// down (one blank row between paragraphs) to column 0; a word is followed
/// by one column of space.
pub open spec fn lay_pieces(ps: Seq<Piece>, max_w: int) -> (int, int, Seq<(int, int, char)>)
    decreases ps.len(),
{
    if ps.len() == 0 {
        (0, 0, Seq::empty())
    } else {
        let (row, col, gs) = lay_pieces(ps.drop_last(), max_w);
        match ps.last() {
            Piece::Break => (row + 2, 0, gs),
            Piece::Word(w) => {
                let (r, c) = word_origin(w, row, col, max_w);
                (r, c + w.len() + 1, gs + word_glyphs(w, r, c))
            },
        }
    }
}

/// The glyphs of `s` wrapped into a panel `max_w` columns wide.
pub open spec fn wrapped(s: Seq<char>, max_w: int) -> Seq<(int, int, char)> {
    lay_pieces(pieces(s), max_w).2
}

/// A glyph as integers.
pub open spec fn glyph_int(g: (usize, usize, char)) -> (int, int, char) {
    (g.0 as int, g.1 as int, g.2)
}

/// UTF-8 takes at least one and at most four bytes per character.
pub proof fn lemma_utf8_len_bounds(w: Seq<char>)
    ensures
        w.len() <= utf8_len(w) <= 4 * w.len(),
    decreases w.len(),
{
    if w.len() > 0 {
        lemma_utf8_len_bounds(w.drop_first());
    }
}

/// The characters of the words among `ps`, in order.
pub open spec fn piece_chars(ps: Seq<Piece>) -> Seq<char>
    decreases ps.len(),
{
    if ps.len() == 0 {
        Seq::empty()
    } else {
        match ps.last() {
            Piece::Break => piece_chars(ps.drop_last()),
            Piece::Word(w) => piece_chars(ps.drop_last()) + w,
        }
    }
}

/// Is `c` not white space?
pub open spec fn is_ink(c: char) -> bool {
    !is_white_space(c)
}

/// Is the glyph position `a` before `b` in reading order?
pub open spec fn reads_before(a: (int, int, char), b: (int, int, char)) -> bool {
    a.0 < b.0 || (a.0 == b.0 && a.1 < b.1)
}

/// Does every word among `ps` take fewer than `max_w` bytes?
pub open spec fn words_fit(ps: Seq<Piece>, max_w: int) -> bool {
    forall|k: int| 0 <= k < ps.len() ==> (#[trigger] ps[k] matches Piece::Word(w) ==> utf8_len(w) < max_w)
}

/// Scanning keeps every character that is not white space, in order.
proof fn lemma_scan_keeps_ink(s: Seq<char>)
    ensures
        piece_chars(scan_pieces(s).0) + scan_pieces(s).1 == s.filter(|c: char| is_ink(c)),
    decreases s.len(),
{
    reveal(Seq::filter);
    if s.len() == 0 {
        assert(s.filter(|c: char| is_ink(c)) =~= Seq::<char>::empty());
        assert(piece_chars(Seq::<Piece>::empty()) + Seq::<char>::empty() =~= Seq::<char>::empty());
    } else {
        let pre = s.drop_last();
        let c = s.last();
        lemma_scan_keeps_ink(pre);
        assert(pre.push(c) =~= s);
        pre.lemma_filter_push(c, |c: char| is_ink(c));
        let (done, word) = scan_pieces(pre);
        if is_white_space(c) {
            let f = flush_word(done, word);
            if word.len() > 0 {
                assert(f.drop_last() =~= done);
                assert(piece_chars(f) == piece_chars(done) + word);
            } else {
                assert(piece_chars(done) + word =~= piece_chars(done));
            }
            if c == '\n' {
                let b = f.push(Piece::Break);
                assert(b.drop_last() =~= f);
            }
            assert(piece_chars(scan_pieces(s).0) + scan_pieces(s).1 =~= piece_chars(done) + word);
        } else {
            assert(piece_chars(done) + word.push(c) =~= (piece_chars(done) + word).push(c));
        }
    }
}

/// The glyphs of a layout carry the characters of the words, in order.
proof fn lemma_lay_chars(ps: Seq<Piece>, max_w: int)
    ensures
        lay_pieces(ps, max_w).2.map_values(|g: (int, int, char)| g.2) == piece_chars(ps),
    decreases ps.len(),
{
    if ps.len() == 0 {
        assert(lay_pieces(ps, max_w).2.map_values(|g: (int, int, char)| g.2) =~= Seq::<char>::empty());
    } else {
        lemma_lay_chars(ps.drop_last(), max_w);
        let (row, col, gs) = lay_pieces(ps.drop_last(), max_w);
        match ps.last() {
            Piece::Break => {},
            Piece::Word(w) => {
                let (r, c) = word_origin(w, row, col, max_w);
                assert((gs + word_glyphs(w, r, c)).map_values(|g: (int, int, char)| g.2)
                    =~= gs.map_values(|g: (int, int, char)| g.2) + w);
            },
        }
    }
}

/// Glyphs of a layout come in reading order, each before the cursor.
proof fn lemma_lay_in_order(ps: Seq<Piece>, max_w: int)
    ensures
        ({
            let (row, col, gs) = lay_pieces(ps, max_w);
            &&& row >= 0
            &&& col >= 0
            &&& forall|i: int| 0 <= i < gs.len() ==> reads_before(#[trigger] gs[i], (row, col, ' '))
            &&& forall|i: int, j: int|
                0 <= i < j < gs.len() ==> reads_before(#[trigger] gs[i], #[trigger] gs[j])
        }),
    decreases ps.len(),
{
    if ps.len() > 0 {
        lemma_lay_in_order(ps.drop_last(), max_w);
        let (row, col, gs) = lay_pieces(ps.drop_last(), max_w);
        match ps.last() {
            Piece::Break => {},
            Piece::Word(w) => {
                let (r, c) = word_origin(w, row, col, max_w);
                let ng = gs + word_glyphs(w, r, c);
                assert forall|i: int, j: int| 0 <= i < j < ng.len() implies reads_before(
                    #[trigger] ng[i],
                    #[trigger] ng[j],
                ) by {
                    if j >= gs.len() && i < gs.len() {
                        assert(reads_before(gs[i], (row, col, ' ')));
                    }
                }
            },
        }
    }
}

/// Where every word fits the panel, every glyph lies inside it.
proof fn lemma_lay_fits(ps: Seq<Piece>, max_w: int)
    requires
        words_fit(ps, max_w),
    ensures
        forall|i: int|
            0 <= i < lay_pieces(ps, max_w).2.len() ==> #[trigger] lay_pieces(ps, max_w).2[i].1 < max_w,
    decreases ps.len(),
{
    if ps.len() > 0 {
        let pre = ps.drop_last();
        assert forall|k: int| 0 <= k < pre.len() implies (#[trigger] pre[k] matches Piece::Word(w)
            ==> utf8_len(w) < max_w) by {
            assert(pre[k] == ps[k]);
        }
        lemma_lay_fits(pre, max_w);
        lemma_lay_in_order(pre, max_w);
        let (row, col, gs) = lay_pieces(pre, max_w);
        match ps.last() {
            Piece::Break => {},
            Piece::Word(w) => {
                assert(ps[ps.len() - 1] == ps.last());
                lemma_utf8_len_bounds(w);
            },
        }
    }
}

/// What wrapping keeps: the characters that are not white space, in order,
/// at positions in reading order, inside the panel where every word fits.
proof fn lemma_wrapped_laws(s: Seq<char>, max_w: int)
    ensures
        wrapped(s, max_w).map_values(|g: (int, int, char)| g.2) == s.filter(|c: char| is_ink(c)),
        forall|i: int, j: int|
            0 <= i < j < wrapped(s, max_w).len() ==> reads_before(
                #[trigger] wrapped(s, max_w)[i],
                #[trigger] wrapped(s, max_w)[j],
            ),
        words_fit(pieces(s), max_w) ==> forall|i: int|
            0 <= i < wrapped(s, max_w).len() ==> #[trigger] wrapped(s, max_w)[i].1 < max_w,
{
    lemma_scan_keeps_ink(s);
    let (done, word) = scan_pieces(s);
    lemma_lay_chars(pieces(s), max_w);
    if word.len() > 0 {
        assert(pieces(s).drop_last() =~= done);
    } else {
        assert(piece_chars(done) + word =~= piece_chars(done));
    }
    lemma_lay_in_order(pieces(s), max_w);
    if words_fit(pieces(s), max_w) {
        lemma_lay_fits(pieces(s), max_w);
    }
}

/// Lays the word `desc[start..end]` at the cursor and moves the cursor past
/// it.
fn place_word(
    glyphs: &mut Vec<(usize, usize, char)>,
    desc: &str,
    start: usize,
    end: usize,
    row: usize,
    col: usize,
    max_w: usize,
) -> (rc: (usize, usize))
    requires
        start < end <= desc@.len(),
        desc@.len() <= usize::MAX / 8,
        row <= 2 * start + 1,
        col <= start + 1,
    ensures
        ({
            let w = desc@.subrange(start as int, end as int);
            let (r, c) = word_origin(w, row as int, col as int, max_w as int);
            &&& rc.0 == r
            &&& rc.1 == c + w.len() + 1
            &&& final(glyphs)@.map_values(|g: (usize, usize, char)| glyph_int(g))
                == old(glyphs)@.map_values(|g: (usize, usize, char)| glyph_int(g)) + word_glyphs(w, r, c)
        }),
{
    let ghost w = desc@.subrange(start as int, end as int);
    let word = desc.substring_char(start, end);
    proof {
        lemma_utf8_len_bounds(w);
    }
    let wlen = word.len();
    let (r, c) = if col + wlen + 1 > max_w {
        (row + 1, 0usize)
    } else {
        (row, col)
    };
    let ghost before = glyphs@.map_values(|g: (usize, usize, char)| glyph_int(g));
    let mut k: usize = start;
    while k < end
        invariant
            start <= k <= end <= desc@.len(),
            desc@.len() <= usize::MAX / 8,
            c <= start + 1,
            w == desc@.subrange(start as int, end as int),
            glyphs@.map_values(|g: (usize, usize, char)| glyph_int(g)) == before + word_glyphs(
                w,
                r as int,
                c as int,
            ).take(k - start),
        decreases end - k,
    {
        let ch = desc.get_char(k);
        let ghost old_gs = glyphs@;
        glyphs.push((r, c + (k - start), ch));
        proof {
            assert(word_glyphs(w, r as int, c as int).take(k + 1 - start) =~= word_glyphs(
                w,
                r as int,
                c as int,
            ).take(k - start).push((r as int, c + (k - start), ch)));
            assert(glyphs@.map_values(|g: (usize, usize, char)| glyph_int(g)) =~= old_gs.map_values(
                |g: (usize, usize, char)| glyph_int(g),
            ).push(glyph_int((r, (c + (k - start)) as usize, ch))));
        }
        k = k + 1;
    }
    assert(word_glyphs(w, r as int, c as int).take(end - start) =~= word_glyphs(
        w,
        r as int,
        c as int,
    ));
    (r, c + (end - start) + 1)
}

/// The glyphs of `desc` word-wrapped into a panel `max_w` columns wide, as
/// (row, column, character) from the panel's top left: paragraphs end at
/// `\n` and are parted by a blank row, words are parted by white space, and
/// a word whose bytes and one space do not fit on the row starts a new row.
pub fn wrap_description(desc: &str, max_w: usize) -> (glyphs: Vec<(usize, usize, char)>)
    requires
        desc@.len() <= usize::MAX / 8,
    ensures
        glyphs@.map_values(|g: (usize, usize, char)| glyph_int(g)) == wrapped(desc@, max_w as int),
        glyphs@.map_values(|g: (usize, usize, char)| g.2) == desc@.filter(|c: char| is_ink(c)),
        forall|i: int, j: int|
            0 <= i < j < glyphs@.len() ==> reads_before(
                glyph_int(#[trigger] glyphs@[i]),
                glyph_int(#[trigger] glyphs@[j]),
            ),
        words_fit(pieces(desc@), max_w as int) ==> forall|i: int|
            0 <= i < glyphs@.len() ==> #[trigger] glyphs@[i].1 < max_w,
{
    let n = desc.unicode_len();
    let mut glyphs: Vec<(usize, usize, char)> = Vec::new();
    let mut row: usize = 0;
    let mut col: usize = 0;
    let mut start: usize = 0;
    let mut i: usize = 0;
    assert(desc@.subrange(0, 0) =~= Seq::<char>::empty());
    while i < n
        invariant
            n == desc@.len(),
            n <= usize::MAX / 8,
            start <= i <= n,
            row <= 2 * start,
            col <= start,
            scan_pieces(desc@.subrange(0, i as int)).1 == desc@.subrange(start as int, i as int),
            lay_pieces(scan_pieces(desc@.subrange(0, i as int)).0, max_w as int) == (
                row as int,
                col as int,
                glyphs@.map_values(|g: (usize, usize, char)| glyph_int(g)),
            ),
        decreases n - i,
    {
        let c = desc.get_char(i);
        let ghost pre = desc@.subrange(0, i as int);
        let ghost next = desc@.subrange(0, i as int + 1);
        proof {
            assert(next.drop_last() =~= pre);
        }
        if is_whitespace(c) {
            let ghost done = scan_pieces(pre).0;
            let ghost word = desc@.subrange(start as int, i as int);
            if start < i {
                let (r, cc) = place_word(&mut glyphs, desc, start, i, row, col, max_w);
                row = r;
                col = cc;
                proof {
                    let ps = done.push(Piece::Word(word));
                    assert(ps.drop_last() =~= done);
                    assert(lay_pieces(flush_word(done, word), max_w as int) == (
                        row as int,
                        col as int,
                        glyphs@.map_values(|g: (usize, usize, char)| glyph_int(g)),
                    ));
                }
            } else {
                assert(word.len() == 0);
            }
            assert(lay_pieces(flush_word(done, word), max_w as int) == (
                row as int,
                col as int,
                glyphs@.map_values(|g: (usize, usize, char)| glyph_int(g)),
            ));
            if c == '\n' {
                proof {
                    let ps = flush_word(done, word).push(Piece::Break);
                    assert(ps.drop_last() =~= flush_word(done, word));
                }
                row = row + 2;
                col = 0;
                assert(scan_pieces(next).0 == flush_word(done, word).push(Piece::Break));
            } else {
                assert(scan_pieces(next).0 == flush_word(done, word));
            }
            start = i + 1;
            assert(desc@.subrange(start as int, i as int + 1) =~= Seq::<char>::empty());
        } else {
            assert(desc@.subrange(start as int, i as int + 1) =~= desc@.subrange(
                start as int,
                i as int,
            ).push(c));
        }
        i = i + 1;
    }
    assert(desc@.subrange(0, n as int) =~= desc@);
    if start < n {
        let ghost done = scan_pieces(desc@).0;
        let ghost word = desc@.subrange(start as int, n as int);
        let (r, cc) = place_word(&mut glyphs, desc, start, n, row, col, max_w);
        proof {
            let ps = done.push(Piece::Word(word));
            assert(ps.drop_last() =~= done);
        }
    }
    proof {
        let gi = glyphs@.map_values(|g: (usize, usize, char)| glyph_int(g));
        lemma_wrapped_laws(desc@, max_w as int);
        assert(glyphs@.map_values(|g: (usize, usize, char)| g.2) =~= gi.map_values(
            |g: (int, int, char)| g.2,
        ));
        assert forall|i: int| 0 <= i < glyphs@.len() implies glyph_int(#[trigger] glyphs@[i])
            == gi[i] by {}
    }
    glyphs
}

} // verus!
