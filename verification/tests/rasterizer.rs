use tictactoe::draw::{draw_grid, draw_o, draw_weird_shapes, draw_x, o_candidates};

const BLACK: [u8; 4] = [0, 0, 0, 255];
const WHITE: [u8; 4] = [255, 255, 255, 0];

fn pixel(buf: &[u8], width: u32, x: u32, y: u32) -> [u8; 4] {
    let i = 4 * (y as usize * width as usize + x as usize);
    [buf[i], buf[i + 1], buf[i + 2], buf[i + 3]]
}

#[test]
fn grid_has_exactly_width_times_height_pixels() {
    let buf = draw_grid(120, 120, 5);
    assert_eq!(buf.len(), 120 * 120 * 4);
    let buf = draw_grid(7, 3, 1);
    assert_eq!(buf.len(), 7 * 3 * 4);
}

#[test]
fn grid_pixels_are_pure_black_or_pure_background() {
    let buf = draw_grid(120, 120, 5);
    for px in buf.chunks(4) {
        assert!(px == BLACK || px == WHITE);
    }
}

#[test]
fn grid_band_centers_are_black_for_unit_stroke() {
    // Band centres sit at the exact 1/3 and 2/3 marks: x = 40 and x = 80 for
    // width 120; they stay black down to a stroke width of one.
    let buf = draw_grid(120, 120, 1);
    for y in 0..120 {
        assert_eq!(pixel(&buf, 120, 40, y), BLACK);
        assert_eq!(pixel(&buf, 120, 80, y), BLACK);
    }
    for x in 0..120 {
        assert_eq!(pixel(&buf, 120, x, 40), BLACK);
        assert_eq!(pixel(&buf, 120, x, 80), BLACK);
    }
    // A pixel far from every band stays background.
    assert_eq!(pixel(&buf, 120, 10, 10), WHITE);
}

#[test]
fn x_glyph_traces_both_diagonals() {
    let buf = draw_x(120, 120, 5);
    assert_eq!(buf.len(), 120 * 120 * 4);
    // On the ascending diagonal ux = y, and on its mirror 120 - y.
    assert_eq!(pixel(&buf, 120, 10, 10), BLACK);
    assert_eq!(pixel(&buf, 120, 0, 0), BLACK);
    assert_eq!(pixel(&buf, 120, 110, 10), BLACK);
    // Far from both diagonals.
    assert_eq!(pixel(&buf, 120, 60, 0), WHITE);
    assert_eq!(pixel(&buf, 120, 0, 60), WHITE);
}

#[test]
fn o_glyph_poles_collapse_to_centre() {
    // At the top and bottom rows the two candidates both equal width/2
    // (doubled units: width), and nothing is undefined.
    assert_eq!(o_candidates(120, 120, 0), (120, 120));
    assert_eq!(o_candidates(120, 120, 120), (120, 120));
    // At mid-height the circle reaches the full half-width.
    assert_eq!(o_candidates(120, 120, 60), (0, 240));

    let buf = draw_o(120, 120, 5);
    assert_eq!(buf.len(), 120 * 120 * 4);
    // Pole row: only the centre column is painted.
    assert_eq!(pixel(&buf, 120, 60, 0), BLACK);
    assert_eq!(pixel(&buf, 120, 0, 0), WHITE);
    assert_eq!(pixel(&buf, 120, 119, 0), WHITE);
    // Mid row: the circle passes the left and right edges.
    assert_eq!(pixel(&buf, 120, 0, 60), BLACK);
    assert_eq!(pixel(&buf, 120, 119, 60), BLACK);
    assert_eq!(pixel(&buf, 120, 60, 60), WHITE);
}

#[test]
fn o_glyph_pixels_are_pure_black_or_pure_background() {
    let buf = draw_o(64, 48, 3);
    assert_eq!(buf.len(), 64 * 48 * 4);
    for px in buf.chunks(4) {
        assert!(px == BLACK || px == WHITE);
    }
}

#[test]
fn weird_shapes_is_the_exact_centre_circle() {
    let buf = draw_weird_shapes(8, 1);
    assert_eq!(buf.len(), 8 * 8 * 4);
    // (2x-8)^2 + (2y-8)^2 == 64 holds at the axis poles inside the buffer ...
    assert_eq!(pixel(&buf, 8, 4, 0), BLACK);
    assert_eq!(pixel(&buf, 8, 0, 4), BLACK);
    // ... and fails off the circle.
    assert_eq!(pixel(&buf, 8, 0, 0), WHITE);
    assert_eq!(pixel(&buf, 8, 4, 4), WHITE);
}

#[test]
fn x_glyph_scales_to_the_aspect_ratio() {
    // With width 120 and height 60 the ascending diagonal runs at ux = 2*y.
    let buf = draw_x(120, 60, 5);
    assert_eq!(buf.len(), 120 * 60 * 4);
    assert_eq!(pixel(&buf, 120, 20, 10), BLACK);
    assert_eq!(pixel(&buf, 120, 100, 10), BLACK);
    assert_eq!(pixel(&buf, 120, 60, 10), WHITE);
}

#[test]
fn o_glyph_scales_to_the_aspect_ratio() {
    // With width 60 and height 120 the mid row reaches offsets 0 and 60.
    assert_eq!(o_candidates(60, 120, 60), (0, 120));
    let buf = draw_o(60, 120, 5);
    assert_eq!(pixel(&buf, 60, 0, 60), BLACK);
    assert_eq!(pixel(&buf, 60, 59, 60), BLACK);
    assert_eq!(pixel(&buf, 60, 30, 60), WHITE);
}

#[test]
fn degenerate_sizes_yield_empty_buffers() {
    assert_eq!(draw_grid(0, 120, 5).len(), 0);
    assert_eq!(draw_x(120, 0, 5).len(), 0);
    assert_eq!(draw_o(0, 0, 5).len(), 0);
}
