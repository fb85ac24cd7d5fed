use vstd::prelude::*;
use vstd::string::*;

use crate::card::{Card, Stack, Suit};
use crate::layout::{CardBorder, CardStyle};

verus! {

/// The character of decimal digit `d`.
pub open spec fn digit_char(d: int) -> char {
    (d + 48) as char
}

/// The decimal digits of `n`, most significant first.
pub open spec fn decimal(n: nat) -> Seq<char>
    decreases n,
{
    if n < 10 {
        seq![digit_char(n as int)]
    } else {
        decimal(n / 10).push(digit_char((n % 10) as int))
    }
}

/// The glyph of a suit: its symbol followed by the emoji presentation selector.
pub open spec fn suit_glyph(s: Suit) -> Seq<char> {
    match s {
        Suit::Spades => seq!['\u{2660}', '\u{FE0F}'],
        Suit::Clubs => seq!['\u{2663}', '\u{FE0F}'],
        Suit::Hearts => seq!['\u{2665}', '\u{FE0F}'],
        Suit::Diamonds => seq!['\u{2666}', '\u{FE0F}'],
    }
}

/// The label of a rank: a letter for the Ace and the faces, digits otherwise.
/// Turned upside down, ranks with a matching glyph use it (the faces get
/// letters of their own, not rotated copies); the others keep their digits.
pub open spec fn number_label(n: u16, upside_down: bool) -> Seq<char> {
    if !upside_down {
        if n == 1 {
            seq!['A']
        } else if n == 11 {
            seq!['J']
        } else if n == 12 {
            seq!['Q']
        } else if n == 13 {
            seq!['K']
        } else {
            decimal(n as nat)
        }
    } else {
        if n == 1 {
            seq!['\u{2200}']
        } else if n == 2 {
            seq!['\u{218A}']
        } else if n == 3 {
            seq!['\u{218B}']
        } else if n == 4 {
            seq!['\u{07E4}']
        } else if n == 6 {
            seq!['9']
        } else if n == 7 {
            seq!['\u{1D613}']
        } else if n == 9 {
            seq!['6']
        } else if n == 10 {
            seq!['0', '\u{21C2}']
        } else if n == 11 {
            seq!['\u{1492}']
        } else if n == 12 {
            seq!['\u{A779}']
        } else if n == 13 {
            seq!['\u{A4D8}']
        } else {
            decimal(n as nat)
        }
    }
}

fn digit_str(d: u16) -> (r: &'static str)
    requires
        d < 10,
    ensures
        r@ == seq![digit_char(d as int)],
{
    proof {
        reveal_strlit("0");
        reveal_strlit("1");
        reveal_strlit("2");
        reveal_strlit("3");
        reveal_strlit("4");
        reveal_strlit("5");
        reveal_strlit("6");
        reveal_strlit("7");
        reveal_strlit("8");
        reveal_strlit("9");
    }
    if d == 0 {
        "0"
    } else if d == 1 {
        "1"
    } else if d == 2 {
        "2"
    } else if d == 3 {
        "3"
    } else if d == 4 {
        "4"
    } else if d == 5 {
        "5"
    } else if d == 6 {
        "6"
    } else if d == 7 {
        "7"
    } else if d == 8 {
        "8"
    } else {
        "9"
    }
}

/// The decimal digits of `n`.
pub fn decimal_string(n: u16) -> (r: String)
    ensures
        r@ == decimal(n as nat),
    decreases n,
{
    if n < 10 {
        String::from_str(digit_str(n))
    } else {
        let mut s = decimal_string(n / 10);
        s.append(digit_str(n % 10));
        s
    }
}

/// The label of rank `number`, upright or upside down.
pub fn number_symbol(number: &u16, upside_down: bool) -> (r: String)
    ensures
        r@ == number_label(*number, upside_down),
{
    proof {
        reveal_strlit("A");
        reveal_strlit("J");
        reveal_strlit("Q");
        reveal_strlit("K");
        reveal_strlit("\u{2200}");
        reveal_strlit("\u{218A}");
        reveal_strlit("\u{218B}");
        reveal_strlit("\u{07E4}");
        reveal_strlit("9");
        reveal_strlit("\u{1D613}");
        reveal_strlit("6");
        reveal_strlit("0\u{21C2}");
        reveal_strlit("\u{1492}");
        reveal_strlit("\u{A779}");
        reveal_strlit("\u{A4D8}");
    }
    let n = *number;
    if !upside_down {
        if n == 1 {
            String::from_str("A")
        } else if n == 11 {
            String::from_str("J")
        } else if n == 12 {
            String::from_str("Q")
        } else if n == 13 {
            String::from_str("K")
        } else {
            decimal_string(n)
        }
    } else {
        if n == 1 {
            String::from_str("\u{2200}")
        } else if n == 2 {
            String::from_str("\u{218A}")
        } else if n == 3 {
            String::from_str("\u{218B}")
        } else if n == 4 {
            String::from_str("\u{07E4}")
        } else if n == 6 {
            String::from_str("9")
        } else if n == 7 {
            String::from_str("\u{1D613}")
        } else if n == 9 {
            String::from_str("6")
        } else if n == 10 {
            String::from_str("0\u{21C2}")
        } else if n == 11 {
            String::from_str("\u{1492}")
        } else if n == 12 {
            String::from_str("\u{A779}")
        } else if n == 13 {
            String::from_str("\u{A4D8}")
        } else {
            decimal_string(n)
        }
    }
}

/// The glyph of `suit`.
pub fn suit_symbol(suit: &Suit) -> (r: &'static str)
    ensures
        r@ == suit_glyph(*suit),
{
    proof {
        reveal_strlit("\u{2660}\u{FE0F}");
        reveal_strlit("\u{2663}\u{FE0F}");
        reveal_strlit("\u{2665}\u{FE0F}");
        reveal_strlit("\u{2666}\u{FE0F}");
    }
    match suit {
        Suit::Spades => "\u{2660}\u{FE0F}",
        Suit::Clubs => "\u{2663}\u{FE0F}",
        Suit::Hearts => "\u{2665}\u{FE0F}",
        Suit::Diamonds => "\u{2666}\u{FE0F}",
    }
}

/// `n` copies of `c`.
pub open spec fn repeat(c: char, n: int) -> Seq<char> {
    Seq::new(n as nat, |i: int| c)
}

/// `n` blank cells.
pub open spec fn spaces(n: int) -> Seq<char> {
    repeat(' ', n)
}

/// `n` blank rows of `w` cells.
pub open spec fn blank_rows(w: int, n: int) -> Seq<Seq<char>> {
    Seq::new(n as nat, |i: int| spaces(w))
}

/// The text of rows of text.
pub open spec fn block(rows: Seq<String>) -> Seq<Seq<char>> {
    rows.map_values(|r: String| r@)
}

/// A row of `w` cells with `glyph`, `gw` cells wide, in the middle, or a
/// blank row where the glyph does not fit.
pub open spec fn centered(glyph: Seq<char>, gw: int, w: int) -> Seq<char> {
    if w >= gw {
        spaces((w - 1) / 2) + glyph + spaces(w - gw - (w - 1) / 2)
    } else {
        spaces(w)
    }
}

/// One glyph row, vertically centred among `h` rows; the odd row goes below.
pub open spec fn single_art(row: Seq<char>, w: int, h: int) -> Seq<Seq<char>> {
    if h >= 1 {
        blank_rows(w, (h - 1) / 2) + seq![row] + blank_rows(w, h - 1 - (h - 1) / 2)
    } else {
        Seq::empty()
    }
}

/// Two glyph rows with equal blank rows above and below, the rest between them.
pub open spec fn pair_art(row: Seq<char>, w: int, h: int) -> Seq<Seq<char>> {
    let p = (h - 2) / 3;
    blank_rows(w, p) + seq![row] + blank_rows(w, h - 2 - 2 * p) + seq![row] + blank_rows(w, p)
}

/// Three glyph rows at the top, middle and bottom with equal gaps; what is
/// left over goes below.
pub open spec fn triple_art(row: Seq<char>, w: int, h: int) -> Seq<Seq<char>> {
    let p = (h - 3) / 2;
    seq![row] + blank_rows(w, p) + seq![row] + blank_rows(w, p) + seq![row] + blank_rows(
        w,
        h - 3 - 2 * p,
    )
}

/// The face glyph of a Jack, Queen or King.
pub open spec fn face_glyph(n: u16) -> Seq<char> {
    if n == 11 {
        seq!['\u{1F472}']
    } else if n == 12 {
        seq!['\u{1F478}']
    } else {
        seq!['\u{1F934}']
    }
}

/// The picture in the middle of a card: `h` rows of `w` cells. An Ace (or a
/// rank past the King) shows one suit glyph, a two shows two, a three three,
/// a face card its face glyph (two cells wide); other ranks show blank rows.
/// Where there are too few rows for all glyphs, fewer are shown.
pub open spec fn art_rows(card: Card, w: int, h: int) -> Seq<Seq<char>> {
    let row = centered(suit_glyph(card.suit), 1, w);
    if card.number == 1 || card.number > 13 {
        single_art(row, w, h)
    } else if card.number == 2 {
        if h >= 2 {
            pair_art(row, w, h)
        } else {
            single_art(row, w, h)
        }
    } else if card.number == 3 {
        if h >= 3 {
            triple_art(row, w, h)
        } else if h >= 2 {
            pair_art(row, w, h)
        } else {
            single_art(row, w, h)
        }
    } else if 11 <= card.number <= 13 {
        single_art(centered(face_glyph(card.number), 2, w), w, h)
    } else {
        blank_rows(w, h)
    }
}

/// A string of `n` copies of the one-character `glyph`.
fn repeat_glyph(glyph: &str, n: usize) -> (r: String)
    requires
        glyph@.len() == 1,
    ensures
        r@ == repeat(glyph@[0], n as int),
{
    let mut s = String::new();
    let mut i: usize = 0;
    while i < n
        invariant
            i <= n,
            glyph@.len() == 1,
            s@ == repeat(glyph@[0], i as int),
        decreases n - i,
    {
        s.append(glyph);
        assert(s@ =~= repeat(glyph@[0], i + 1));
        i = i + 1;
    }
    s
}

fn blank(n: usize) -> (r: String)
    ensures
        r@ == spaces(n as int),
{
    proof {
        reveal_strlit(" ");
    }
    repeat_glyph(" ", n)
}

fn push_row(rows: &mut Vec<String>, row: String)
    ensures
        block(final(rows)@) == block(old(rows)@).push(row@),
{
    rows.push(row);
    assert(block(rows@) =~= block(old(rows)@).push(row@));
}

fn push_blank_rows(rows: &mut Vec<String>, w: usize, n: usize)
    ensures
        block(final(rows)@) == block(old(rows)@) + blank_rows(w as int, n as int),
{
    let ghost start = block(rows@);
    let mut i: usize = 0;
    while i < n
        invariant
            i <= n,
            block(rows@) == start + blank_rows(w as int, i as int),
        decreases n - i,
    {
        let row = blank(w);
        push_row(rows, row);
        assert(block(rows@) =~= start + blank_rows(w as int, i + 1));
        i = i + 1;
    }
}

/// A row of `w` cells with `glyph` (`gw` cells wide) in the middle.
fn centered_row(glyph: &str, gw: usize, w: usize) -> (r: String)
    requires
        1 <= gw <= 2,
    ensures
        r@ == centered(glyph@, gw as int, w as int),
{
    if w >= gw {
        let left = (w - 1) / 2;
        let mut s = blank(left);
        s.append(glyph);
        let right = blank(w - gw - left);
        s.append(right.as_str());
        s
    } else {
        blank(w)
    }
}

fn push_single_art(rows: &mut Vec<String>, row: String, w: usize, h: usize)
    ensures
        block(final(rows)@) == block(old(rows)@) + single_art(row@, w as int, h as int),
{
    if h >= 1 {
        push_blank_rows(rows, w, (h - 1) / 2);
        push_row(rows, row);
        push_blank_rows(rows, w, h - 1 - (h - 1) / 2);
        assert(block(rows@) =~= block(old(rows)@) + single_art(row@, w as int, h as int));
    } else {
        assert(block(rows@) =~= block(old(rows)@) + single_art(row@, w as int, h as int));
    }
}

fn push_pair_art(rows: &mut Vec<String>, row: String, w: usize, h: usize)
    requires
        h >= 2,
    ensures
        block(final(rows)@) == block(old(rows)@) + pair_art(row@, w as int, h as int),
{
    let p = (h - 2) / 3;
    let second = row.clone();
    push_blank_rows(rows, w, p);
    push_row(rows, row);
    push_blank_rows(rows, w, h - 2 - 2 * p);
    push_row(rows, second);
    push_blank_rows(rows, w, p);
    assert(block(rows@) =~= block(old(rows)@) + pair_art(row@, w as int, h as int));
}

fn push_triple_art(rows: &mut Vec<String>, row: String, w: usize, h: usize)
    requires
        h >= 3,
    ensures
        block(final(rows)@) == block(old(rows)@) + triple_art(row@, w as int, h as int),
{
    let p = (h - 3) / 2;
    let second = row.clone();
    let third = row.clone();
    push_row(rows, row);
    push_blank_rows(rows, w, p);
    push_row(rows, second);
    push_blank_rows(rows, w, p);
    push_row(rows, third);
    push_blank_rows(rows, w, h - 3 - 2 * p);
    assert(block(rows@) =~= block(old(rows)@) + triple_art(row@, w as int, h as int));
}

fn face_symbol(n: u16) -> (r: &'static str)
    ensures
        r@ == face_glyph(n),
{
    proof {
        reveal_strlit("\u{1F472}");
        reveal_strlit("\u{1F478}");
        reveal_strlit("\u{1F934}");
    }
    if n == 11 {
        "\u{1F472}"
    } else if n == 12 {
        "\u{1F478}"
    } else {
        "\u{1F934}"
    }
}

fn push_card_art(rows: &mut Vec<String>, card: &Card, width: usize, height: usize)
    ensures
        block(final(rows)@) == block(old(rows)@) + art_rows(*card, width as int, height as int),
{
    let row = centered_row(suit_symbol(&card.suit), 1, width);
    if card.number == 1 || card.number > 13 {
        push_single_art(rows, row, width, height);
    } else if card.number == 2 {
        if height >= 2 {
            push_pair_art(rows, row, width, height);
        } else {
            push_single_art(rows, row, width, height);
        }
    } else if card.number == 3 {
        if height >= 3 {
            push_triple_art(rows, row, width, height);
        } else if height >= 2 {
            push_pair_art(rows, row, width, height);
        } else {
            push_single_art(rows, row, width, height);
        }
    } else if 11 <= card.number && card.number <= 13 {
        let face = centered_row(face_symbol(card.number), 2, width);
        push_single_art(rows, face, width, height);
    } else {
        push_blank_rows(rows, width, height);
    }
}

/// The picture in the middle of `card`, `height` rows of `width` cells.
pub fn card_art(card: &Card, width: usize, height: usize) -> (rows: Vec<String>)
    ensures
        block(rows@) == art_rows(*card, width as int, height as int),
{
    let mut rows: Vec<String> = Vec::new();
    assert(block(rows@) =~= Seq::<Seq<char>>::empty());
    push_card_art(&mut rows, card, width, height);
    assert(block(rows@) =~= art_rows(*card, width as int, height as int));
    rows
}

/// Whether a card of this geometry is drawn inside a frame: it has a border
/// and room for one.
pub open spec fn framed(st: CardStyle<usize>) -> bool {
    st.border != CardBorder::NoBorder && st.x >= 2 && st.y >= 2
}

/// The corner label of a card: suit then rank upright, rank then suit upside down.
pub open spec fn label(card: Card, upside_down: bool) -> Seq<char> {
    if !upside_down {
        suit_glyph(card.suit) + number_label(card.number, false)
    } else {
        number_label(card.number, true) + suit_glyph(card.suit)
    }
}

/// Cells that the corner label takes: one for the suit, one per rank character.
pub open spec fn label_cells(card: Card, upside_down: bool) -> int {
    1 + number_label(card.number, upside_down).len() as int
}

/// The first interior row: the upright label at the left, where it fits.
pub open spec fn top_label_row(card: Card, w: int) -> Seq<char> {
    if label_cells(card, false) <= w {
        label(card, false) + spaces(w - label_cells(card, false))
    } else {
        spaces(w)
    }
}

/// The last interior row: the upside-down label at the right, where it fits.
pub open spec fn bottom_label_row(card: Card, w: int) -> Seq<char> {
    if label_cells(card, true) <= w {
        spaces(w - label_cells(card, true)) + label(card, true)
    } else {
        spaces(w)
    }
}

/// The inside of a card, `h` rows of `w` cells: an empty slot is filled with
/// shading; a card shows its labels in the first and last rows and its
/// picture between them.
pub open spec fn interior_rows(card: Option<Card>, w: int, h: int) -> Seq<Seq<char>> {
    match card {
        None => Seq::new(h as nat, |i: int| repeat('\u{2592}', w)),
        Some(c) => if h <= 0 {
            Seq::empty()
        } else if h == 1 {
            seq![top_label_row(c, w)]
        } else {
            seq![top_label_row(c, w)] + art_rows(c, w, h - 2) + seq![bottom_label_row(c, w)]
        },
    }
}

pub open spec fn frame_top(w: int) -> Seq<char> {
    seq!['\u{250C}'] + repeat('\u{2500}', w) + seq!['\u{2510}']
}

pub open spec fn frame_bottom(w: int) -> Seq<char> {
    seq!['\u{2514}'] + repeat('\u{2500}', w) + seq!['\u{2518}']
}

pub open spec fn frame_side(row: Seq<char>) -> Seq<char> {
    seq!['\u{2502}'] + row + seq!['\u{2502}']
}

/// A whole card (or an empty slot) drawn in `st.y` rows of `st.x` cells.
pub open spec fn card_rows(card: Option<Card>, st: CardStyle<usize>) -> Seq<Seq<char>> {
    if framed(st) {
        let w = st.x - 2;
        let h = st.y - 2;
        seq![frame_top(w)] + interior_rows(card, w, h).map_values(|r: Seq<char>| frame_side(r))
            + seq![frame_bottom(w)]
    } else {
        interior_rows(card, st.x as int, st.y as int)
    }
}

proof fn lemma_decimal_len(n: nat)
    ensures
        decimal(n).len() >= 1,
        n < 10 ==> decimal(n).len() == 1,
        n < 100 ==> decimal(n).len() <= 2,
        n < 1000 ==> decimal(n).len() <= 3,
        n < 10000 ==> decimal(n).len() <= 4,
        n < 100000 ==> decimal(n).len() <= 5,
    decreases n,
{
    if n >= 10 {
        lemma_decimal_len(n / 10);
    }
}

proof fn lemma_label_len(n: u16, upside_down: bool)
    ensures
        1 <= number_label(n, upside_down).len() <= 5,
{
    lemma_decimal_len(n as nat);
}

fn top_label(card: &Card, w: usize) -> (r: String)
    ensures
        r@ == top_label_row(*card, w as int),
{
    let number = number_symbol(&card.number, false);
    proof {
        lemma_label_len(card.number, false);
    }
    let cells = 1 + number.as_str().unicode_len();
    if cells <= w {
        let mut s = String::from_str(suit_symbol(&card.suit));
        s.append(number.as_str());
        let pad = blank(w - cells);
        s.append(pad.as_str());
        s
    } else {
        blank(w)
    }
}

fn bottom_label(card: &Card, w: usize) -> (r: String)
    ensures
        r@ == bottom_label_row(*card, w as int),
{
    let number = number_symbol(&card.number, true);
    proof {
        lemma_label_len(card.number, true);
    }
    let cells = 1 + number.as_str().unicode_len();
    if cells <= w {
        let mut s = blank(w - cells);
        s.append(number.as_str());
        s.append(suit_symbol(&card.suit));
        s
    } else {
        blank(w)
    }
}

fn shade(n: usize) -> (r: String)
    ensures
        r@ == repeat('\u{2592}', n as int),
{
    proof {
        reveal_strlit("\u{2592}");
    }
    repeat_glyph("\u{2592}", n)
}

fn side_row(row: &str) -> (r: String)
    ensures
        r@ == frame_side(row@),
{
    proof {
        reveal_strlit("\u{2502}");
    }
    let mut s = String::from_str("\u{2502}");
    s.append(row);
    s.append("\u{2502}");
    assert(s@ =~= frame_side(row@));
    s
}

fn interior(card: Option<Card>, w: usize, h: usize) -> (rows: Vec<String>)
    ensures
        block(rows@) == interior_rows(card, w as int, h as int),
{
    let mut rows: Vec<String> = Vec::new();
    assert(block(rows@) =~= Seq::<Seq<char>>::empty());
    match card {
        None => {
            let mut i: usize = 0;
            while i < h
                invariant
                    i <= h,
                    block(rows@) == Seq::new(i as nat, |j: int| repeat('\u{2592}', w as int)),
                decreases h - i,
            {
                let row = shade(w);
                push_row(&mut rows, row);
                assert(block(rows@) =~= Seq::new((i + 1) as nat, |j: int| repeat('\u{2592}', w as int)));
                i = i + 1;
            }
        },
        Some(c) => {
            if h >= 1 {
                push_row(&mut rows, top_label(&c, w));
                if h >= 2 {
                    push_card_art(&mut rows, &c, w, h - 2);
                    push_row(&mut rows, bottom_label(&c, w));
                }
            }
        },
    }
    assert(block(rows@) =~= interior_rows(card, w as int, h as int));
    rows
}

fn frame_line(left: &str, right: &str, w: usize) -> (r: String)
    requires
        left@.len() == 1,
        right@.len() == 1,
    ensures
        r@ == seq![left@[0]] + repeat('\u{2500}', w as int) + seq![right@[0]],
{
    proof {
        reveal_strlit("\u{2500}");
    }
    let mut s = String::from_str(left);
    let line = repeat_glyph("\u{2500}", w);
    s.append(line.as_str());
    s.append(right);
    assert(s@ =~= seq![left@[0]] + repeat('\u{2500}', w as int) + seq![right@[0]]);
    s
}

/// Draws `card`, or an empty slot for `None`, as `card_style.y` rows of
/// `card_style.x` cells: inside a frame where the geometry has a border and
/// room for one, with the labels in the first and last interior rows and
/// the picture between them.
pub fn render_full_card(card: Option<Card>, card_style: &CardStyle<usize>) -> (rows: Vec<String>)
    ensures
        block(rows@) == card_rows(card, *card_style),
{
    let x = card_style.x;
    let y = card_style.y;
    if card_style.border != CardBorder::NoBorder && x >= 2 && y >= 2 {
        let w = x - 2;
        let inner = interior(card, w, y - 2);
        let ghost sides = block(inner@).map_values(|r: Seq<char>| frame_side(r));
        proof {
            reveal_strlit("\u{250C}");
            reveal_strlit("\u{2510}");
            reveal_strlit("\u{2514}");
            reveal_strlit("\u{2518}");
        }
        let mut rows: Vec<String> = Vec::new();
        assert(block(rows@) =~= Seq::<Seq<char>>::empty());
        push_row(&mut rows, frame_line("\u{250C}", "\u{2510}", w));
        let mut i: usize = 0;
        while i < inner.len()
            invariant
                i <= inner@.len(),
                sides == block(inner@).map_values(|r: Seq<char>| frame_side(r)),
                block(rows@) == seq![frame_top(w as int)] + sides.take(i as int),
            decreases inner@.len() - i,
        {
            let side = side_row(inner[i].as_str());
            push_row(&mut rows, side);
            assert(block(rows@) =~= seq![frame_top(w as int)] + sides.take(i + 1));
            i = i + 1;
        }
        push_row(&mut rows, frame_line("\u{2514}", "\u{2518}", w));
        assert(sides.take(inner@.len() as int) =~= sides);
        assert(block(rows@) =~= card_rows(card, *card_style));
        rows
    } else {
        interior(card, x, y)
    }
}

/// The text of a covered card: suit and rank, followed by one filler cell
/// (a frame line where the top line is embedded, a blank otherwise) when the
/// rank takes a single cell.
pub open spec fn partial_text(card: Card, border: CardBorder) -> Seq<char> {
    let base = suit_glyph(card.suit) + number_label(card.number, false);
    if number_label(card.number, false).len() == 1 {
        if border == CardBorder::Embeded {
            base + seq!['\u{2500}']
        } else {
            base + seq![' ']
        }
    } else {
        base
    }
}

/// A covered card: its text at the right of one row without a border, set
/// into the top frame line with an embedded border, or under a full frame
/// line with a full border.
pub open spec fn partial_rows(card: Card, st: CardStyle<usize>) -> Seq<Seq<char>> {
    let t = partial_text(card, st.border);
    match st.border {
        CardBorder::NoBorder => seq![
            if st.x > 3 {
                spaces(st.x - 3) + t
            } else {
                t
            },
        ],
        CardBorder::Embeded => seq![
            seq!['\u{250C}'] + (if st.x > 5 {
                repeat('\u{2500}', st.x - 5)
            } else {
                Seq::empty()
            }) + t + seq!['\u{2510}'],
        ],
        CardBorder::Full => seq![
            frame_top(if st.x >= 2 {
                st.x - 2
            } else {
                0
            }),
            frame_side(
                (if st.x > 5 {
                    spaces(st.x - 5)
                } else {
                    Seq::empty()
                }) + t,
            ),
        ],
    }
}

fn partial_label(card: &Card, border: CardBorder) -> (r: String)
    ensures
        r@ == partial_text(*card, border),
{
    proof {
        reveal_strlit("\u{2500}");
        reveal_strlit(" ");
    }
    let number = number_symbol(&card.number, false);
    let mut text = String::from_str(suit_symbol(&card.suit));
    text.append(number.as_str());
    if number.as_str().unicode_len() == 1 {
        if border == CardBorder::Embeded {
            text.append("\u{2500}");
        } else {
            text.append(" ");
        }
    }
    text
}

/// Draws a card that another card of its stack covers: a single row, or two
/// rows under a full border, whatever the geometry's height.
pub fn render_partial_card(card: &Card, card_style: &CardStyle<usize>) -> (rows: Vec<String>)
    ensures
        block(rows@) == partial_rows(*card, *card_style),
        rows@.len() == if card_style.border == CardBorder::Full {
            2nat
        } else {
            1nat
        },
{
    proof {
        reveal_strlit("\u{250C}");
        reveal_strlit("\u{2510}");
    }
    let x = card_style.x;
    let text = partial_label(card, card_style.border);
    let mut rows: Vec<String> = Vec::new();
    assert(block(rows@) =~= Seq::<Seq<char>>::empty());
    match card_style.border {
        CardBorder::NoBorder => {
            if x > 3 {
                let mut row = blank(x - 3);
                row.append(text.as_str());
                assert(row@ =~= partial_rows(*card, *card_style)[0]);
                push_row(&mut rows, row);
            } else {
                push_row(&mut rows, text);
            }
        },
        CardBorder::Embeded => {
            let mut row = String::from_str("\u{250C}");
            if x > 5 {
                proof {
                    reveal_strlit("\u{2500}");
                }
                let line = repeat_glyph("\u{2500}", x - 5);
                row.append(line.as_str());
            }
            row.append(text.as_str());
            row.append("\u{2510}");
            assert(row@ =~= partial_rows(*card, *card_style)[0]);
            push_row(&mut rows, row);
        },
        CardBorder::Full => {
            let w = if x >= 2 {
                x - 2
            } else {
                0
            };
            push_row(&mut rows, frame_line("\u{250C}", "\u{2510}", w));
            let mut inner = if x > 5 {
                blank(x - 5)
            } else {
                String::new()
            };
            inner.append(text.as_str());
            assert(inner@ =~= (if x > 5 {
                spaces(x - 5)
            } else {
                Seq::empty()
            }) + text@);
            push_row(&mut rows, side_row(inner.as_str()));
        },
    }
    assert(block(rows@) =~= partial_rows(*card, *card_style));
    rows
}

/// Draws a card slot: a covered card in its collapsed form when `collapsed`
/// holds, otherwise the whole card, or an empty slot for `None`.
pub fn render(card: Option<Card>, card_style: &CardStyle<usize>, collapsed: bool) -> (rows: Vec<
    String,
>)
    ensures
        block(rows@) == match card {
            Some(c) => if collapsed {
                partial_rows(c, *card_style)
            } else {
                card_rows(card, *card_style)
            },
            None => card_rows(card, *card_style),
        },
{
    match card {
        Some(c) => if collapsed {
            render_partial_card(&c, card_style)
        } else {
            render_full_card(card, card_style)
        },
        None => render_full_card(card, card_style),
    }
}

/// Draws every card of a stack, bottom first: each covered card collapsed,
/// the top card whole.
pub fn render_stack(stack: &Stack, card_style: &CardStyle<usize>) -> (blocks: Vec<Vec<String>>)
    ensures
        blocks@.len() == stack@.len(),
        forall|i: int|
            0 <= i < stack@.len() ==> block(#[trigger] blocks@[i]@) == if i + 1 < stack@.len() {
                partial_rows(stack@[i], *card_style)
            } else {
                card_rows(Some(stack@[i]), *card_style)
            },
{
    let n = stack.cards.len();
    let mut blocks: Vec<Vec<String>> = Vec::new();
    let mut i: usize = 0;
    while i < n
        invariant
            n == stack@.len(),
            i <= n,
            blocks@.len() == i,
            forall|j: int|
                0 <= j < i ==> block(#[trigger] blocks@[j]@) == if j + 1 < n {
                    partial_rows(stack@[j], *card_style)
                } else {
                    card_rows(Some(stack@[j]), *card_style)
                },
        decreases n - i,
    {
        let rows = render(Some(stack.cards[i]), card_style, i + 1 < n);
        blocks.push(rows);
        i = i + 1;
    }
    blocks
}

/// An empty slot fills its geometry exactly: `st.y` rows of `st.x` cells,
/// each cell a one-column frame or shading character.
pub proof fn lemma_empty_slot_size(st: CardStyle<usize>)
    ensures
        card_rows(None, st).len() == st.y,
        forall|i: int| 0 <= i < st.y ==> #[trigger] card_rows(None, st)[i].len() == st.x,
{
    if framed(st) {
        let w = st.x - 2;
        let inner = interior_rows(None, w, st.y - 2);
        let rows = card_rows(None, st);
        assert forall|i: int| 0 <= i < st.y implies #[trigger] rows[i].len() == st.x by {
            if 1 <= i < st.y - 1 {
                assert(rows[i] == frame_side(inner[i - 1]));
            }
        }
    }
}

/// A covered card takes one row, or two under a full border, whatever the
/// height of the geometry.
pub proof fn lemma_collapsed_rows(card: Card, st: CardStyle<usize>)
    ensures
        partial_rows(card, st).len() == if st.border == CardBorder::Full {
            2nat
        } else {
            1nat
        },
{
}

} // verus!
