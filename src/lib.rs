//! Board generation and text rendering for a FreeCell solitaire: a deal that
//! is reproducible from a 64-bit seed, a card geometry solved from the display
//! size, and text-art cards drawn to that geometry.

use vstd::prelude::*;

pub mod card;
pub mod dealer;
pub mod layout;
pub mod render;

pub use card::{Card, Cell, FreeCell, Foundation, Stack, Suit};
pub use dealer::{new_random_game, BoardView, Game};
pub use layout::{get_card_style, CardBorder, CardStyle};
pub use render::{
    card_art, number_symbol, render, render_full_card, render_partial_card, render_stack,
    suit_symbol,
};

verus! {

/// Sum of two sizes that fit together in a `usize`.
pub fn add(left: usize, right: usize) -> (r: usize)
    requires
        left + right <= usize::MAX,
    ensures
        r == left + right,
{
    left + right
}

} // verus!
