use freecell_freedom::{get_card_style, CardBorder};

fn style(w: usize, h: usize) -> (usize, usize, CardBorder, usize) {
    let s = get_card_style(w, h);
    (s.x, s.y, s.border, s.spacing)
}

#[test]
fn style_embedded_terminal() {
    assert_eq!(style(80, 24), (9, 6, CardBorder::Embeded, 1));
}

#[test]
fn style_width_from_height() {
    assert_eq!(style(120, 40), (8, 6, CardBorder::Full, 4));
}

#[test]
fn style_height_from_width() {
    assert_eq!(style(200, 60), (23, 16, CardBorder::Full, 2));
}

#[test]
fn style_tiny_display_is_clamped() {
    assert_eq!(style(10, 5), (1, 0, CardBorder::NoBorder, 0));
    assert_eq!(style(0, 0), (1, 0, CardBorder::NoBorder, 0));
}

#[test]
fn style_bounds_on_valid_sizes() {
    for (w, h) in [(80usize, 24usize), (200, 60), (100, 100), (64, 40)] {
        let (x, y, _, spacing) = style(w, h);
        assert_eq!(x % 2, 1);
        assert!(y >= 1);
        assert!(spacing <= 4);
    }
}

#[test]
fn style_spacing_is_capped() {
    assert_eq!(style(1000, 20).3, 4);
}
