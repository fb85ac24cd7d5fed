use vstd::multiset::Multiset;
use vstd::prelude::*;

use rand::Rng;
use rand::SeedableRng;
use rand_chacha::ChaCha8Rng;

use crate::card::{Card, FreeCell, Foundation, Stack, Suit};

verus! {

/// The ChaCha8 generator of `rand_chacha`, carried as an opaque value.
#[verifier::external_type_specification]
#[verifier::external_body]
pub struct ExChaCha8Rng(ChaCha8Rng);

/// What `gen_range(0..ranges.last())` returns on a ChaCha8 generator seeded
/// with `seed`, after one earlier `gen_range(0..m)` for each earlier `m` of
/// `ranges`, in order.
pub uninterp spec fn chacha8_draw(seed: u64, ranges: Seq<usize>) -> usize;

/// Relies on `rand_chacha::ChaCha8Rng::seed_from_u64` (through
/// `rand_core::SeedableRng`): a fresh generator whose stream is fixed by the seed.
#[verifier::external_body]
fn chacha8_seeded(seed: u64) -> ChaCha8Rng {
    ChaCha8Rng::seed_from_u64(seed)
}

/// Relies on `rand::thread_rng` and `rand::Rng::gen`: a seed from the
/// thread-local generator, of which nothing is known.
#[verifier::external_body]
fn random_seed() -> u64 {
    rand::thread_rng().gen()
}

/// The pseudo-random stream of one deal. Its ghost part records the seed and
/// the ranges drawn from so far, which fix the state of the generator.
struct GameSeed {
    rng: ChaCha8Rng,
    seed: Ghost<u64>,
    ranges: Ghost<Seq<usize>>,
}

impl GameSeed {
    fn new(seed: u64) -> (r: GameSeed)
        ensures
            r.seed@ == seed,
            r.ranges@ == Seq::<usize>::empty(),
    {
        GameSeed { rng: chacha8_seeded(seed), seed: Ghost(seed), ranges: Ghost(Seq::empty()) }
    }

    /// Relies on `rand::Rng::gen_range` over `0..max`, which panics only on an
    /// empty range and otherwise returns a value of the range, determined by
    /// the generator's state. The ghost seed and ranges record that state:
    /// this draw is appended to them.
    #[verifier::external_body]
    fn get_next_number(&mut self, max: usize) -> (r: usize)
        requires
            max > 0,
        ensures
            r < max,
            r == chacha8_draw(old(self).seed@, old(self).ranges@.push(max)),
            final(self).seed == old(self).seed,
            final(self).ranges@ == old(self).ranges@.push(max),
    {
        self.rng.gen_range(0..max)
    }
}

/// The suit at position `i` of the fixed enumeration order.
pub open spec fn suit_at(i: int) -> Suit {
    if i == 0 {
        Suit::Spades
    } else if i == 1 {
        Suit::Clubs
    } else if i == 2 {
        Suit::Hearts
    } else {
        Suit::Diamonds
    }
}

pub open spec fn suit_index(s: Suit) -> int {
    match s {
        Suit::Spades => 0,
        Suit::Clubs => 1,
        Suit::Hearts => 2,
        Suit::Diamonds => 3,
    }
}

/// The ordered deck: ranks Ace to King, and within each rank the four suits.
pub open spec fn full_deck() -> Seq<Card> {
    Seq::new(52, |i: int| Card { suit: suit_at(i % 4), number: (i / 4 + 1) as u16 })
}

/// The ranges of the draws made before the `k`-th card is taken: the deck
/// holds `52 - j` cards at the `j`-th draw.
pub open spec fn ranges_before(k: nat) -> Seq<usize> {
    Seq::new(k, |j: int| (52 - j) as usize)
}

/// The position in the remaining deck of the `k`-th card dealt. With one card
/// left no number is drawn.
pub open spec fn pick(seed: u64, k: nat) -> int {
    if k < 51 {
        chacha8_draw(seed, ranges_before(k + 1)) as int
    } else {
        0
    }
}

/// The deck after `k` cards have been dealt from it.
pub open spec fn deck_after(seed: u64, k: nat) -> Seq<Card>
    decreases k,
{
    if k == 0 {
        full_deck()
    } else {
        deck_after(seed, (k - 1) as nat).remove(pick(seed, (k - 1) as nat))
    }
}

/// The 52 cards in the order in which they are dealt.
pub open spec fn dealt_order(seed: u64) -> Seq<Card> {
    Seq::new(52, |k: int| deck_after(seed, k as nat)[pick(seed, k as nat)])
}

/// Every draw before the `k`-th card fell inside its range.
pub open spec fn picks_in_range(seed: u64, k: nat) -> bool {
    forall|j: nat| j < k ==> #[trigger] pick(seed, j) < 52 - j
}

/// The ranges drawn from once `k` cards are dealt.
pub open spec fn ranges_dealt(k: nat) -> Seq<usize> {
    if k <= 51 {
        ranges_before(k)
    } else {
        ranges_before(51)
    }
}

fn suit_of(i: usize) -> (s: Suit)
    requires
        i < 4,
    ensures
        s == suit_at(i as int),
{
    if i == 0 {
        Suit::Spades
    } else if i == 1 {
        Suit::Clubs
    } else if i == 2 {
        Suit::Hearts
    } else {
        Suit::Diamonds
    }
}

fn new_deck() -> (deck: Vec<Card>)
    ensures
        deck@ == full_deck(),
{
    let mut deck: Vec<Card> = Vec::new();
    let mut number: u16 = 1;
    while number <= 13
        invariant
            1 <= number <= 14,
            deck@ == full_deck().take(4 * (number - 1)),
        decreases 14 - number,
    {
        let mut j: usize = 0;
        while j < 4
            invariant
                1 <= number <= 13,
                j <= 4,
                deck@ == full_deck().take(4 * (number - 1) + j),
            decreases 4 - j,
        {
            deck.push(Card { suit: suit_of(j), number });
            proof {
                let n = 4 * (number - 1) + j;
                assert(full_deck()[n] == Card { suit: suit_at(j as int), number });
                assert(deck@ =~= full_deck().take(n + 1));
            }
            j = j + 1;
        }
        number = number + 1;
    }
    assert(deck@ =~= full_deck());
    deck
}

/// Deals `size` cards from `deck` into a new stack, drawing each from the
/// remaining deck at the position that the stream gives.
fn deal_stack(game_seed: &mut GameSeed, deck: &mut Vec<Card>, size: usize) -> (stack: Stack)
    requires
        size <= old(deck)@.len() <= 52,
        old(deck)@ == deck_after(old(game_seed).seed@, (52 - old(deck)@.len()) as nat),
        old(game_seed).ranges@ == ranges_dealt((52 - old(deck)@.len()) as nat),
        picks_in_range(old(game_seed).seed@, (52 - old(deck)@.len()) as nat),
    ensures
        ({
            let seed = old(game_seed).seed@;
            let k = 52 - old(deck)@.len();
            &&& final(game_seed).seed == old(game_seed).seed
            &&& final(deck)@.len() == old(deck)@.len() - size
            &&& final(deck)@ == deck_after(seed, (k + size) as nat)
            &&& final(game_seed).ranges@ == ranges_dealt((k + size) as nat)
            &&& picks_in_range(seed, (k + size) as nat)
            &&& stack@ == dealt_order(seed).subrange(k, k + size)
        }),
{
    let ghost seed = game_seed.seed@;
    let ghost k0 = 52 - deck@.len();
    let mut cards: Vec<Card> = Vec::new();
    let mut i: usize = 0;
    while i < size
        invariant
            game_seed.seed@ == seed,
            i <= size,
            size <= 52 - k0,
            0 <= k0 <= 52,
            deck@.len() == 52 - k0 - i,
            deck@ == deck_after(seed, (k0 + i) as nat),
            game_seed.ranges@ == ranges_dealt((k0 + i) as nat),
            picks_in_range(seed, (k0 + i) as nat),
            cards@ == dealt_order(seed).subrange(k0, k0 + i),
        decreases size - i,
    {
        let ghost k: nat = (k0 + i) as nat;
        let idx: usize = if deck.len() > 1 {
            let r = game_seed.get_next_number(deck.len());
            assert(ranges_before(k).push((52 - k) as usize) =~= ranges_before(k + 1));
            r
        } else {
            0
        };
        assert(idx == pick(seed, k));
        assert(ranges_dealt(k + 1) =~= game_seed.ranges@);
        let card = deck.remove(idx);
        cards.push(card);
        proof {
            assert(picks_in_range(seed, k + 1)) by {
                assert forall|j: nat| j < k + 1 implies #[trigger] pick(seed, j) < 52 - j by {
                    if j < k {
                        assert(pick(seed, j) < 52 - j);
                    }
                }
            }
            assert(cards@ =~= dealt_order(seed).subrange(k0, k0 + i + 1));
        }
        i = i + 1;
    }
    Stack { cards }
}

/// First position in the dealing order of the cards of stack `i`.
pub open spec fn stack_start(i: int) -> int {
    if i <= 4 {
        7 * i
    } else {
        28 + 6 * (i - 4)
    }
}

/// Number of cards dealt into stack `i`: seven for the first four, six after.
pub open spec fn stack_size(i: int) -> int {
    if i < 4 {
        7
    } else {
        6
    }
}

/// The cards of stack `i` after the deal for `seed`, bottom first.
pub open spec fn dealt_stack(seed: u64, i: int) -> Seq<Card> {
    dealt_order(seed).subrange(stack_start(i), stack_start(i) + stack_size(i))
}

/// The whole board as plain values.
pub struct BoardView {
    pub seed: u64,
    pub free_cells: Seq<Option<Card>>,
    pub foundations: Seq<Seq<Card>>,
    pub stacks: Seq<Seq<Card>>,
}

/// A game: four free cells, four foundations, eight tableau stacks and the
/// seed they were dealt from.
#[derive(Debug)]
pub struct Game {
    pub seed_number: u64,
    pub free_cells: [FreeCell; 4],
    pub foundations: [Foundation; 4],
    pub stacks: [Stack; 8],
}

impl View for Game {
    type V = BoardView;

    open spec fn view(&self) -> BoardView {
        BoardView {
            seed: self.seed_number,
            free_cells: self.free_cells@.map_values(|c: FreeCell| c@),
            foundations: self.foundations@.map_values(|f: Foundation| f@),
            stacks: self.stacks@.map_values(|s: Stack| s@),
        }
    }
}

/// The board that the deal for `seed` produces: empty free cells and
/// foundations, and the stacks filled in dealing order.
pub open spec fn deal_view(seed: u64) -> BoardView {
    BoardView {
        seed,
        free_cells: Seq::new(4, |i: int| None),
        foundations: Seq::new(4, |i: int| Seq::empty()),
        stacks: Seq::new(8, |i: int| dealt_stack(seed, i)),
    }
}

/// The cards held by a row of free cells, in order.
pub open spec fn cell_cards(cells: Seq<Option<Card>>) -> Seq<Card>
    decreases cells.len(),
{
    if cells.len() == 0 {
        Seq::empty()
    } else {
        let head: Seq<Card> = match cells.first() {
            Some(c) => seq![c],
            None => Seq::empty(),
        };
        head + cell_cards(cells.drop_first())
    }
}

/// Every card on the board: the stacks, then the foundations, then the free cells.
pub open spec fn board_cards(b: BoardView) -> Seq<Card> {
    b.stacks.flatten() + b.foundations.flatten() + cell_cards(b.free_cells)
}

proof fn lemma_deal_conserves(seed: u64, k: nat)
    requires
        k <= 52,
        picks_in_range(seed, k),
    ensures
        deck_after(seed, k).len() == 52 - k,
        deck_after(seed, k).to_multiset().add(dealt_order(seed).take(k as int).to_multiset())
            == full_deck().to_multiset(),
    decreases k,
{
    broadcast use vstd::seq_lib::group_to_multiset_ensures;
    broadcast use vstd::multiset::group_multiset_axioms;

    if k == 0 {
        assert(dealt_order(seed).take(0) =~= Seq::<Card>::empty());
        assert(deck_after(seed, k).to_multiset().add(dealt_order(seed).take(0).to_multiset())
            =~= full_deck().to_multiset());
    } else {
        let j = (k - 1) as nat;
        assert(picks_in_range(seed, j));
        lemma_deal_conserves(seed, j);
        let d = deck_after(seed, j);
        let p = pick(seed, j);
        assert(p < 52 - j);
        assert(dealt_order(seed).take(k as int) =~= dealt_order(seed).take(j as int).push(d[p]));
        assert(deck_after(seed, k).to_multiset() =~= d.to_multiset().remove(d[p]));
        assert(d.to_multiset().count(d[p]) > 0);
        assert(deck_after(seed, k).to_multiset().add(dealt_order(seed).take(k as int).to_multiset())
            =~= full_deck().to_multiset());
    }
}

proof fn lemma_full_deck_counts()
    ensures
        forall|c: Card| #[trigger] full_deck().to_multiset().count(c) == if c.is_valid() {
            1nat
        } else {
            0nat
        },
{
    broadcast use vstd::seq_lib::group_to_multiset_ensures;

    let d = full_deck();
    assert(d.no_duplicates()) by {
        assert forall|i: int, j: int| 0 <= i < d.len() && 0 <= j < d.len() && i != j implies d[i]
            != d[j] by {
            assert(i == 4 * (i / 4) + i % 4);
            assert(j == 4 * (j / 4) + j % 4);
        }
    }
    d.lemma_multiset_has_no_duplicates();
    assert forall|c: Card| #[trigger] d.to_multiset().count(c) == if c.is_valid() {
        1nat
    } else {
        0nat
    } by {
        if c.is_valid() {
            let i = 4 * (c.number - 1) + suit_index(c.suit);
            assert(d[i] == c);
            assert(d.contains(c));
        } else {
            assert(!d.contains(c));
        }
    }
}

proof fn lemma_stacks_flatten(seed: u64, i: int)
    requires
        0 <= i <= 8,
    ensures
        Seq::new(8, |s: int| dealt_stack(seed, s)).subrange(i, 8).flatten()
            == dealt_order(seed).subrange(stack_start(i), 52),
    decreases 8 - i,
{
    let stacks = Seq::new(8, |s: int| dealt_stack(seed, s));
    if i == 8 {
        assert(dealt_order(seed).subrange(52, 52) =~= Seq::<Card>::empty());
        assert(stacks.subrange(8, 8) =~= Seq::<Seq<Card>>::empty());
    } else {
        lemma_stacks_flatten(seed, i + 1);
        assert(stacks.subrange(i, 8).drop_first() =~= stacks.subrange(i + 1, 8));
        assert(dealt_order(seed).subrange(stack_start(i), 52) =~= dealt_stack(seed, i)
            + dealt_order(seed).subrange(stack_start(i + 1), 52));
    }
}

/// Dealing is deterministic: two games dealt from the same seed are the same
/// board, card for card.
pub proof fn lemma_deal_deterministic(seed: u64, a: BoardView, b: BoardView)
    requires
        a == deal_view(seed),
        b == deal_view(seed),
    ensures
        a.seed == b.seed,
        a.free_cells == b.free_cells,
        a.foundations == b.foundations,
        a.stacks == b.stacks,
{
}

/// A fresh deal has eight stacks of seven, seven, seven, seven, six, six, six
/// and six cards, in that order, and four empty free cells and foundations.
pub proof fn lemma_deal_shape(seed: u64)
    ensures
        deal_view(seed).stacks.len() == 8,
        forall|i: int| 0 <= i < 8 ==> #[trigger] deal_view(seed).stacks[i].len() == stack_size(i),
        deal_view(seed).free_cells.len() == 4,
        forall|i: int| 0 <= i < 4 ==> #[trigger] deal_view(seed).free_cells[i].is_none(),
        deal_view(seed).foundations.len() == 4,
        forall|i: int| 0 <= i < 4 ==> #[trigger] deal_view(seed).foundations[i].len() == 0,
{
}

impl Game {
    /// Deals a new game from `seed_number`. Cards are drawn one at a time from
    /// the ordered deck, at a position that the seeded stream draws from the
    /// cards left (the last card is taken without a draw), into stacks of
    /// seven, seven, seven, seven, six, six, six and six cards. Free cells and
    /// foundations start empty, and every card of the deck lands on the board
    /// exactly once.
    pub fn new(seed_number: u64) -> (r: Game)
        ensures
            r@ == deal_view(seed_number),
            forall|c: Card| #[trigger] board_cards(r@).to_multiset().count(c) == if c.is_valid() {
                1nat
            } else {
                0nat
            },
    {
        let mut game_seed = GameSeed::new(seed_number);
        let mut deck = new_deck();
        assert(ranges_dealt(0) =~= Seq::<usize>::empty());
        let s0 = deal_stack(&mut game_seed, &mut deck, 7);
        let s1 = deal_stack(&mut game_seed, &mut deck, 7);
        let s2 = deal_stack(&mut game_seed, &mut deck, 7);
        let s3 = deal_stack(&mut game_seed, &mut deck, 7);
        let s4 = deal_stack(&mut game_seed, &mut deck, 6);
        let s5 = deal_stack(&mut game_seed, &mut deck, 6);
        let s6 = deal_stack(&mut game_seed, &mut deck, 6);
        let s7 = deal_stack(&mut game_seed, &mut deck, 6);
        let game = Game {
            seed_number,
            free_cells: [FreeCell::default(), FreeCell::default(), FreeCell::default(), FreeCell::default()],
            foundations: [Foundation::default(), Foundation::default(), Foundation::default(), Foundation::default()],
            stacks: [s0, s1, s2, s3, s4, s5, s6, s7],
        };
        proof {
            let v = game@;
            let b = deal_view(seed_number);
            assert(v.free_cells =~= b.free_cells);
            assert(v.foundations =~= b.foundations);
            assert(v.stacks =~= b.stacks);
            lemma_deal_conserves(seed_number, 52);
            lemma_full_deck_counts();
            lemma_stacks_flatten(seed_number, 0);
            assert(b.stacks.subrange(0, 8) =~= b.stacks);
            assert(dealt_order(seed_number).subrange(0, 52) =~= dealt_order(seed_number));
            assert(dealt_order(seed_number).take(52) =~= dealt_order(seed_number));
            reveal_with_fuel(Seq::flatten, 5);
            reveal_with_fuel(cell_cards, 5);
            assert(b.foundations.flatten() =~= Seq::<Card>::empty());
            assert(cell_cards(b.free_cells) =~= Seq::<Card>::empty());
            assert(board_cards(b) =~= dealt_order(seed_number));
            assert(deck_after(seed_number, 52) =~= Seq::<Card>::empty());
            assert(Seq::<Card>::empty().to_multiset() =~= Multiset::<Card>::empty()) by {
                broadcast use vstd::seq_lib::group_to_multiset_ensures;
            }
            assert(dealt_order(seed_number).to_multiset() =~= full_deck().to_multiset());
        }
        game
    }
}

/// Deals a new game from a seed drawn at random; the game records that seed.
pub fn new_random_game() -> (r: Game)
    ensures
        r@ == deal_view(r.seed_number),
{
    Game::new(random_seed())
}

} // verus!
