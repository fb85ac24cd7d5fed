use vstd::prelude::*;

verus! {

/// How a card is framed.
#[derive(Clone, Copy, Debug, PartialEq, Eq, Structural)]
pub enum CardBorder {
    /// A frame above and below the card's interior.
    Full,
    /// A frame whose top line also carries the card's label.
    Embeded,
    /// No frame at all.
    NoBorder,
}

/// The geometry of one card slot: its width `x` and height `y` in character
/// cells, its border, and the gap between two tableau columns.
#[derive(Debug)]
pub struct CardStyle<T> {
    pub x: T,
    pub y: T,
    pub border: CardBorder,
    pub spacing: T,
}

/// Width of the smallest display that the solver sizes from; narrower
/// displays are sized as this one.
pub const MIN_SIZED_WIDTH: usize = 16;

/// Largest gap between two tableau columns.
pub const MAX_SPACING: usize = 4;

pub open spec fn border_for(width: int, height: int) -> CardBorder {
    if width >= 39 {
        if height >= 33 {
            CardBorder::Full
        } else {
            CardBorder::Embeded
        }
    } else {
        CardBorder::NoBorder
    }
}

/// The widest odd card width that fits eight columns.
pub open spec fn raw_width(width: int) -> int {
    let q = if width >= 16 {
        (width - 8) / 8
    } else {
        1
    };
    if q % 2 == 0 {
        q - 1
    } else {
        q
    }
}

/// The tallest card height that fits the rows of the board.
pub open spec fn raw_height(width: int, height: int) -> int {
    if height >= 33 {
        (height - 27) / 2
    } else if height > 20 {
        (height - 18) / 2
    } else if border_for(width, height) == CardBorder::NoBorder {
        1
    } else {
        3
    }
}

/// Whether the aspect correction keeps the width and derives the height.
pub open spec fn keeps_width(width: int, height: int) -> bool {
    raw_width(width) / 10 <= raw_height(width, height) / 7
}

pub open spec fn card_width(width: int, height: int) -> int {
    if keeps_width(width, height) {
        raw_width(width)
    } else {
        raw_height(width, height) * 10 / 7
    }
}

pub open spec fn card_height(width: int, height: int) -> int {
    if keeps_width(width, height) {
        raw_width(width) * 7 / 10
    } else {
        raw_height(width, height)
    }
}

pub open spec fn spacing_for(width: int, height: int) -> int {
    let room = width - 1 - 8 * card_width(width, height);
    let gap = if room > 0 {
        room / 7
    } else {
        0
    };
    if gap < 4 {
        gap
    } else {
        4
    }
}

/// The geometry that a display of `width` by `height` cells gets.
pub open spec fn style_for(width: int, height: int) -> CardStyle<usize> {
    CardStyle {
        x: card_width(width, height) as usize,
        y: card_height(width, height) as usize,
        border: border_for(width, height),
        spacing: spacing_for(width, height) as usize,
    }
}

proof fn lemma_card_width_bounds(width: int, height: int)
    requires
        0 <= width,
        0 <= height,
    ensures
        1 <= raw_width(width),
        width >= 16 ==> 8 * raw_width(width) <= width - 8,
        1 <= raw_height(width, height) <= height / 2 + 3,
        1 <= card_width(width, height) <= raw_width(width),
        0 <= card_height(width, height),
{
    let rw = raw_width(width);
    let rh = raw_height(width, height);
    if !keeps_width(width, height) {
        assert(rh / 7 < rw / 10);
        assert(rh < 7 * (rw / 10)) by (nonlinear_arith)
            requires
                rh / 7 < rw / 10,
                rh >= 0,
                rw >= 0,
        ;
        assert(rh * 10 / 7 < rw) by (nonlinear_arith)
            requires
                rh < 7 * (rw / 10),
                rh >= 1,
                rw >= 0,
        ;
        assert(rh * 10 / 7 >= 1) by (nonlinear_arith)
            requires
                rh >= 1,
        ;
    }
}

/// Computes the card geometry for a display of `width` by `height` cells:
/// the border from the display size, the widest odd card width for eight
/// columns, the tallest height for the rows, then a fixed card aspect that
/// shrinks whichever side is too long, and the column gap that is left.
pub fn get_card_style(width: usize, height: usize) -> (r: CardStyle<usize>)
    ensures
        r == style_for(width as int, height as int),
        r.x >= 1,
        r.spacing <= MAX_SPACING,
{
    proof {
        lemma_card_width_bounds(width as int, height as int);
    }
    let border = if width >= 39 {
        if height >= 33 {
            CardBorder::Full
        } else {
            CardBorder::Embeded
        }
    } else {
        CardBorder::NoBorder
    };
    let mut max_width: usize = if width >= MIN_SIZED_WIDTH {
        (width - 8) / 8
    } else {
        1
    };
    if max_width % 2 == 0 {
        max_width = max_width - 1;
    }
    let mut max_height: usize = if height >= 33 {
        (height - 27) / 2
    } else if height > 20 {
        (height - 18) / 2
    } else if border == CardBorder::NoBorder {
        1
    } else {
        3
    };
    assert(max_width == raw_width(width as int));
    assert(max_height == raw_height(width as int, height as int));
    if max_width / 10 <= max_height / 7 {
        max_height = max_width * 7 / 10;
    } else {
        max_width = max_height * 10 / 7;
    }
    let room: usize = if width > 1 + 8 * max_width {
        width - 1 - 8 * max_width
    } else {
        0
    };
    let gap: usize = room / 7;
    let spacing: usize = if gap < MAX_SPACING {
        gap
    } else {
        MAX_SPACING
    };
    CardStyle { x: max_width, y: max_height, border, spacing }
}

/// The geometry has an odd width of at least one cell, a height of at least
/// one cell and a column gap of at most four cells, on every display where
/// the aspect step can keep that: where it keeps the width, the display is at
/// least 32 cells wide (else the derived height is zero); where it derives the
/// width from the height, that width comes out odd.
pub proof fn lemma_style_bounds(width: usize, height: usize)
    requires
        keeps_width(width as int, height as int) ==> width >= 32,
        !keeps_width(width as int, height as int) ==> (raw_height(width as int, height as int)
            * 10 / 7) % 2 == 1,
    ensures
        style_for(width as int, height as int).x % 2 == 1,
        style_for(width as int, height as int).x >= 1,
        style_for(width as int, height as int).y >= 1,
        style_for(width as int, height as int).spacing <= 4,
{
    lemma_card_width_bounds(width as int, height as int);
    let rw = raw_width(width as int);
    if keeps_width(width as int, height as int) {
        assert(rw >= 3);
        assert(rw * 7 / 10 >= 1) by (nonlinear_arith)
            requires
                rw >= 3,
        ;
    }
}

} // verus!
