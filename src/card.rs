use vstd::prelude::*;

verus! {

/// The four suits, in the order in which a fresh deck lists them.
#[derive(Clone, Copy, Debug, PartialEq, Eq, Structural)]
pub enum Suit {
    Spades,
    Clubs,
    Hearts,
    Diamonds,
}

/// A playing card: a suit and a rank (1 = Ace, 11 = Jack, 12 = Queen, 13 = King).
#[derive(Clone, Copy, Debug, PartialEq, Eq, Structural)]
pub struct Card {
    pub suit: Suit,
    pub number: u16,
}

impl Card {
    /// A card of a real deck has a rank between Ace and King.
    pub open spec fn is_valid(self) -> bool {
        1 <= self.number <= 13
    }
}

/// A tableau stack: every card of it is shown.
#[derive(Debug)]
pub struct Stack {
    pub cards: Vec<Card>,
}

/// A free cell holds at most one card.
#[derive(Debug)]
pub struct FreeCell {
    card: Option<Card>,
}

/// A foundation pile; only its top card is shown.
#[derive(Debug)]
pub struct Foundation {
    cards: Vec<Card>,
}

impl View for Stack {
    type V = Seq<Card>;

    open spec fn view(&self) -> Seq<Card> {
        self.cards@
    }
}

impl View for FreeCell {
    type V = Option<Card>;

    closed spec fn view(&self) -> Option<Card> {
        self.card
    }
}

impl View for Foundation {
    type V = Seq<Card>;

    closed spec fn view(&self) -> Seq<Card> {
        self.cards@
    }
}

impl Default for Stack {
    fn default() -> (r: Stack)
        ensures
            r@ == Seq::<Card>::empty(),
    {
        Stack { cards: Vec::new() }
    }
}

impl Default for FreeCell {
    fn default() -> (r: FreeCell)
        ensures
            r@ == None::<Card>,
    {
        FreeCell { card: None }
    }
}

impl Default for Foundation {
    fn default() -> (r: Foundation)
        ensures
            r@ == Seq::<Card>::empty(),
    {
        Foundation { cards: Vec::new() }
    }
}

/// A place on the board whose topmost card can be shown.
pub trait Cell {
    /// The card on top, if there is one.
    spec fn top_card(&self) -> Option<Card>;

    fn last_card(&self) -> (r: Option<&Card>)
        ensures
            match r {
                Some(c) => self.top_card() == Some(*c),
                None => self.top_card().is_none(),
            },
    ;
}

/// The last card of a pile, if it is not empty.
pub open spec fn top_of(cards: Seq<Card>) -> Option<Card> {
    if cards.len() == 0 {
        None
    } else {
        Some(cards.last())
    }
}

fn last_of(cards: &Vec<Card>) -> (r: Option<&Card>)
    ensures
        match r {
            Some(c) => top_of(cards@) == Some(*c),
            None => top_of(cards@).is_none(),
        },
{
    if cards.len() == 0 {
        None
    } else {
        Some(&cards[cards.len() - 1])
    }
}

impl Cell for FreeCell {
    open spec fn top_card(&self) -> Option<Card> {
        self@
    }

    fn last_card(&self) -> (r: Option<&Card>) {
        self.card.as_ref()
    }
}

impl Cell for Foundation {
    open spec fn top_card(&self) -> Option<Card> {
        top_of(self@)
    }

    fn last_card(&self) -> (r: Option<&Card>) {
        last_of(&self.cards)
    }
}

impl Cell for Stack {
    open spec fn top_card(&self) -> Option<Card> {
        top_of(self@)
    }

    fn last_card(&self) -> (r: Option<&Card>) {
        last_of(&self.cards)
    }
}

} // verus!
