use freecell_freedom::{
    card_art, number_symbol, render, render_partial_card, render_stack, suit_symbol, Card,
    CardBorder, CardStyle, Stack, Suit,
};

fn st(x: usize, y: usize, border: CardBorder) -> CardStyle<usize> {
    CardStyle { x, y, border, spacing: 0 }
}

#[test]
fn number_labels() {
    assert_eq!(number_symbol(&1, false), "A");
    assert_eq!(number_symbol(&10, false), "10");
    assert_eq!(number_symbol(&12, false), "Q");
    assert_eq!(number_symbol(&14, false), "14");
    assert_eq!(number_symbol(&10, true), "0\u{21C2}");
    assert_eq!(number_symbol(&7, true), "\u{1D613}");
    assert_eq!(number_symbol(&5, true), "5");
    assert_eq!(number_symbol(&12, true), "\u{A779}");
    assert_eq!(number_symbol(&65535, false), "65535");
    assert_eq!(number_symbol(&0, false), "0");
}

#[test]
fn suit_glyphs() {
    assert_eq!(suit_symbol(&Suit::Spades), "\u{2660}\u{FE0F}");
    assert_eq!(suit_symbol(&Suit::Diamonds), "\u{2666}\u{FE0F}");
}

#[test]
fn empty_slot_full_border() {
    let rows = render(None, &st(5, 4, CardBorder::Full), false);
    assert_eq!(rows, vec!["┌───┐", "│▒▒▒│", "│▒▒▒│", "└───┘"]);
}

#[test]
fn empty_slot_fills_geometry() {
    for (x, y, b) in [(9, 11, CardBorder::Full), (3, 2, CardBorder::NoBorder), (7, 5, CardBorder::Embeded), (1, 1, CardBorder::Full)] {
        let rows = render(None, &st(x, y, b), false);
        assert_eq!(rows.len(), y);
        for r in rows {
            assert_eq!(r.chars().count(), x);
        }
    }
}

#[test]
fn ace_of_spades_full_card() {
    let ace = Card { suit: Suit::Spades, number: 1 };
    let rows = render(Some(ace), &st(9, 11, CardBorder::Full), false);
    let blank = "│       │";
    assert_eq!(
        rows,
        vec![
            "┌───────┐",
            "│♠️A     │",
            blank,
            blank,
            blank,
            "│   ♠️   │",
            blank,
            blank,
            blank,
            "│     ∀♠️│",
            "└───────┘",
        ]
    );
}

#[test]
fn ten_without_border() {
    let card = Card { suit: Suit::Hearts, number: 10 };
    let rows = render(Some(card), &st(5, 3, CardBorder::NoBorder), false);
    assert_eq!(rows, vec!["♥️10  ", "     ", "  0⇂♥️"]);
}

#[test]
fn collapsed_embedded() {
    let card = Card { suit: Suit::Hearts, number: 10 };
    let rows = render(Some(card), &st(9, 6, CardBorder::Embeded), true);
    assert_eq!(rows, vec!["┌────♥️10┐"]);
}

#[test]
fn collapsed_no_border() {
    let card = Card { suit: Suit::Clubs, number: 5 };
    let rows = render_partial_card(&card, &st(7, 6, CardBorder::NoBorder));
    assert_eq!(rows, vec!["    ♣️5 "]);
}

#[test]
fn collapsed_full() {
    let card = Card { suit: Suit::Diamonds, number: 12 };
    let rows = render_partial_card(&card, &st(9, 40, CardBorder::Full));
    assert_eq!(rows, vec!["┌───────┐", "│    ♦️Q │"]);
}

#[test]
fn collapsed_row_count_ignores_height() {
    let card = Card { suit: Suit::Spades, number: 1 };
    for y in [0usize, 1, 5, 100] {
        assert_eq!(render_partial_card(&card, &st(9, y, CardBorder::Full)).len(), 2);
        assert_eq!(render_partial_card(&card, &st(9, y, CardBorder::Embeded)).len(), 1);
        assert_eq!(render_partial_card(&card, &st(9, y, CardBorder::NoBorder)).len(), 1);
    }
}

#[test]
fn art_two() {
    let card = Card { suit: Suit::Hearts, number: 2 };
    assert_eq!(card_art(&card, 3, 5), vec!["   ", " ♥️ ", "   ", " ♥️ ", "   "]);
}

#[test]
fn art_three_tight() {
    let card = Card { suit: Suit::Clubs, number: 3 };
    assert_eq!(card_art(&card, 3, 3), vec![" ♣️ ", " ♣️ ", " ♣️ "]);
    assert_eq!(card_art(&card, 3, 6), vec![" ♣️ ", "   ", " ♣️ ", "   ", " ♣️ ", "   "]);
}

#[test]
fn art_king() {
    let card = Card { suit: Suit::Spades, number: 13 };
    assert_eq!(card_art(&card, 5, 3), vec!["     ", "  🤴 ", "     "]);
}

#[test]
fn art_plain_rank_is_blank() {
    let card = Card { suit: Suit::Spades, number: 7 };
    assert_eq!(card_art(&card, 3, 2), vec!["   ", "   "]);
}

#[test]
fn stack_collapses_covered_cards() {
    let stack = Stack {
        cards: vec![
            Card { suit: Suit::Spades, number: 1 },
            Card { suit: Suit::Hearts, number: 10 },
            Card { suit: Suit::Clubs, number: 2 },
        ],
    };
    let style = st(7, 5, CardBorder::NoBorder);
    let blocks = render_stack(&stack, &style);
    assert_eq!(blocks.len(), 3);
    assert_eq!(blocks[0], vec!["    ♠️A "]);
    assert_eq!(blocks[1], vec!["    ♥️10"]);
    assert_eq!(blocks[2].len(), 5);
}
