use freecell_freedom::{add, new_random_game, Card, Cell, Game, Suit};

fn all_cards(game: &Game) -> Vec<Card> {
    let mut cards = Vec::new();
    for stack in game.stacks.iter() {
        cards.extend(stack.cards.iter().copied());
    }
    cards
}

fn suit_rank(s: Suit) -> usize {
    match s {
        Suit::Spades => 0,
        Suit::Clubs => 1,
        Suit::Hearts => 2,
        Suit::Diamonds => 3,
    }
}

#[test]
fn it_works() {
    let result = add(2, 2);
    assert_eq!(result, 4);
}

#[test]
fn same_seed_gives_same_board() {
    for seed in [0u64, 1, 42, 7_777, u64::MAX] {
        let a = Game::new(seed);
        let b = Game::new(seed);
        assert_eq!(a.seed_number, seed);
        assert_eq!(b.seed_number, seed);
        for i in 0..8 {
            assert_eq!(a.stacks[i].cards, b.stacks[i].cards);
        }
    }
}

#[test]
fn different_seeds_give_different_boards() {
    let a = all_cards(&Game::new(1));
    let b = all_cards(&Game::new(2));
    assert_ne!(a, b);
}

#[test]
fn deal_holds_every_card_once() {
    for seed in [0u64, 3, 42, 123_456_789] {
        let game = Game::new(seed);
        let cards = all_cards(&game);
        assert_eq!(cards.len(), 52);
        let mut seen = [[false; 4]; 13];
        for c in cards {
            assert!(c.number >= 1 && c.number <= 13);
            let slot = &mut seen[(c.number - 1) as usize][suit_rank(c.suit)];
            assert!(!*slot);
            *slot = true;
        }
        assert!(seen.iter().all(|row| row.iter().all(|x| *x)));
    }
}

#[test]
fn deal_shape() {
    let game = Game::new(99);
    let sizes: Vec<usize> = game.stacks.iter().map(|s| s.cards.len()).collect();
    assert_eq!(sizes, vec![7, 7, 7, 7, 6, 6, 6, 6]);
    for cell in game.free_cells.iter() {
        assert!(cell.last_card().is_none());
    }
    for f in game.foundations.iter() {
        assert!(f.last_card().is_none());
    }
}

#[test]
fn deal_seed_42_golden_card() {
    let first = Game::new(42);
    let again = Game::new(42);
    let top = *first.stacks[0].last_card().unwrap();
    assert_eq!(first.stacks[0].cards.len(), 7);
    assert_eq!(top, first.stacks[0].cards[6]);
    assert_eq!(top, *again.stacks[0].last_card().unwrap());
    assert_eq!(top, Card { suit: Suit::Spades, number: 11 });
}

#[test]
fn random_game_is_a_full_deal() {
    let game = new_random_game();
    let sizes: Vec<usize> = game.stacks.iter().map(|s| s.cards.len()).collect();
    assert_eq!(sizes, vec![7, 7, 7, 7, 6, 6, 6, 6]);
    let replay = Game::new(game.seed_number);
    for i in 0..8 {
        assert_eq!(game.stacks[i].cards, replay.stacks[i].cards);
    }
}

#[test]
fn stack_last_card_is_top() {
    let game = Game::new(5);
    let stack = &game.stacks[4];
    assert_eq!(stack.last_card().copied(), stack.cards.last().copied());
}
